//! The two sides of a connection: the commands they exchange, the serving of
//! a read (what was read is decoded, and each frame is dispatched to the
//! handler of its command), the server, and the client that is built like a
//! server.

use vstd::prelude::*;

use crate::address::PeerAddress;
use crate::chat_protocol::{calculate_len_by_data, wire_frame, Protocol, MAX_DATA_LEN};
use crate::decoder::{pending_bytes, pending_ok, split_frames, wire_of};
use crate::errors_define::ErrorKind;
use crate::login_module::{BizResult, LoginRespData};
use crate::protocol_factory::{HandleProtocolFactory, HandlerProtocolData};
use crate::registry::{ConnectionRegistry, ProtocolCacheData, DEFAULT_MAX_DATA_LEN};

verus! {

/// The number of commands.
pub const COMMAND_COUNT: u8 = 5;

/// The commands of the protocol. A command travels as one byte, its ordinal:
/// its place in this list, counted from zero. The order of the list is
/// therefore part of the wire format.
#[derive(Clone, Copy, Debug, PartialEq, Eq, Hash, Structural)]
pub enum RchatCommand {
    Login,
    Chat,
    P2p,
    Start,
    Test,
}

impl RchatCommand {
    /// The byte that stands for the command on the wire.
    pub open spec fn ordinal(self) -> u8 {
        match self {
            RchatCommand::Login => 0,
            RchatCommand::Chat => 1,
            RchatCommand::P2p => 2,
            RchatCommand::Start => 3,
            RchatCommand::Test => 4,
        }
    }

    /// The command that the byte `b` stands for.
    pub open spec fn of_ordinal(b: u8) -> RchatCommand {
        match b {
            0 => RchatCommand::Login,
            1 => RchatCommand::Chat,
            2 => RchatCommand::P2p,
            3 => RchatCommand::Start,
            _ => RchatCommand::Test,
        }
    }

    /// The word that stands for the command. The command line takes the
    /// words of four commands; `test` names the command that is there to try
    /// the protocol with, which the command line does not take.
    pub open spec fn name(self) -> Seq<char> {
        match self {
            RchatCommand::Login => "login"@,
            RchatCommand::Chat => "chat"@,
            RchatCommand::P2p => "p2p"@,
            RchatCommand::Start => "start"@,
            RchatCommand::Test => "test"@,
        }
    }

    /// Whether `word` is one of the four words that the command line takes:
    /// `start`, `login`, `chat` and `p2p`. The match is exact.
    pub open spec fn is_name(word: Seq<char>) -> bool {
        ||| word == RchatCommand::Start.name()
        ||| word == RchatCommand::Login.name()
        ||| word == RchatCommand::Chat.name()
        ||| word == RchatCommand::P2p.name()
    }

    /// The slot of the command in a table with one slot for each command.
    pub fn to_index(&self) -> (i: usize)
        ensures
            i == self.ordinal(),
            i < COMMAND_COUNT,
    {
        match self {
            RchatCommand::Login => 0,
            RchatCommand::Chat => 1,
            RchatCommand::P2p => 2,
            RchatCommand::Start => 3,
            RchatCommand::Test => 4,
        }
    }

    /// Whether `command` is one of the four words that the command line
    /// takes.
    pub fn is_command(command: &str) -> (known: bool)
        ensures
            known == Self::is_name(command@),
    {
        let word: String = command.to_owned();
        word == "start".to_owned() || word == "login".to_owned() || word == "p2p".to_owned()
            || word == "chat".to_owned()
    }

    /// The command that `command` names. Only the four words of the command
    /// line name a command; any other word is left out.
    pub fn from_string(command: &str) -> (named: Self)
        requires
            Self::is_name(command@),
        ensures
            named.name() == command@,
            named != RchatCommand::Test,
    {
        let word: String = command.to_owned();
        if word == "start".to_owned() {
            RchatCommand::Start
        } else if word == "login".to_owned() {
            RchatCommand::Login
        } else if word == "p2p".to_owned() {
            RchatCommand::P2p
        } else {
            RchatCommand::Chat
        }
    }

    /// The command field of a frame that carries this command.
    pub fn to_data_type(self) -> (field: Vec<u8>)
        ensures
            field@ == seq![self.ordinal()],
    {
        let mut field: Vec<u8> = Vec::new();
        field.push(self.to_index() as u8);
        field
    }

    /// The command that the byte `b` stands for.
    pub fn to_self(b: u8) -> (command: Self)
        requires
            b < COMMAND_COUNT,
        ensures
            command.ordinal() == b,
            command == Self::of_ordinal(b),
    {
        match b {
            0 => RchatCommand::Login,
            1 => RchatCommand::Chat,
            2 => RchatCommand::P2p,
            3 => RchatCommand::Start,
            _ => RchatCommand::Test,
        }
    }
}

/// How a command that was typed on the command line went.
#[derive(Clone, Debug)]
pub struct RcommandResult {
    pub command: RchatCommand,
    pub is_success: bool,
    pub err_msg: String,
}

/// Carries out a command from the command line. Every command succeeds for
/// now.
pub fn handle_command(command: RchatCommand) -> (result: RcommandResult)
    ensures
        result.command == command,
        result.is_success,
        result.err_msg@ == "执行完成"@,
{
    RcommandResult { command, is_success: true, err_msg: "执行完成".to_owned() }
}

/// Where a side of a connection stands: `INIT` before it listens, `RUNNING`
/// while it accepts connections, `STOPPED` for good after that.
#[derive(Clone, Copy, Debug, PartialEq, Eq, Structural)]
pub enum TcpSideState {
    INIT,
    RUNNING,
    STOPPED,
}

/// Whether a handler is registered for the command that the byte `b` stands
/// for.
pub open spec fn dispatchable<H>(factory: HandleProtocolFactory<H>, b: u8) -> bool {
    b < COMMAND_COUNT && factory.is_registered(RchatCommand::of_ordinal(b))
}

/// Whether none of the first `served` frames carries `command`.
pub open spec fn not_served(frames: Seq<Seq<u8>>, served: int, command: RchatCommand) -> bool {
    forall|i: int| 0 <= i < served ==> (#[trigger] frames[i])[1] != command.ordinal()
}

/// Hands the payload of the frame `pkg`, which `address` sent, to the handler
/// of the frame's command, and returns what the handler answers.
///
/// A frame that is not complete, or that lacks an accumulator, is a
/// `ProtocolViolation`. A command byte that stands for no command, or for a
/// command without a handler, is an `UnknownCommand`. No handler runs then. Of the handlers, only the one of
/// the frame's command runs.
pub fn handle_pkg<H: HandlerProtocolData>(
    pkg: &Protocol,
    address: PeerAddress,
    factory: &mut HandleProtocolFactory<H>,
) -> (resp: Result<Option<Vec<u8>>, ErrorKind>)
    ensures
        resp is Ok <==> pkg.is_complete() && dispatchable(*old(factory), pkg@.data_type[0]),
        resp is Err ==> resp->Err_0 == (if pkg.is_complete() {
            ErrorKind::UnknownCommand
        } else {
            ErrorKind::ProtocolViolation
        }),
        resp is Err ==> final(factory).handlers() == old(factory).handlers(),
        resp matches Ok(answer) ==> old(factory).handlers()[RchatCommand::of_ordinal(
            pkg@.data_type[0],
        )].may_answer(address, pkg@.data, answer),
        final(factory).handlers().dom() == old(factory).handlers().dom(),
        forall|other: RchatCommand|
            other.ordinal() != pkg@.data_type[0] && old(factory).is_registered(other)
                ==> final(factory).handlers()[other] == old(factory).handlers()[other],
{
    if !pkg.completion() {
        return Err(ErrorKind::ProtocolViolation);
    }
    let data_type: u8 = match &pkg.data_type {
        Some(field) => field[0],
        None => {
            proof {
                assert(false);
            }
            0
        },
    };
    if data_type >= COMMAND_COUNT {
        return Err(ErrorKind::UnknownCommand);
    }
    let command = RchatCommand::to_self(data_type);
    let nothing: Vec<u8> = Vec::new();
    let data: &Vec<u8> = match &pkg.data {
        Some(field) => field,
        None => {
            proof {
                assert(false);
            }
            &nothing
        },
    };
    match factory.get_handler(&command) {
        Ok(handler) => {
            let answer = handler.handle(address, data);
            proof {
                assert(final(factory).handlers().dom() =~= old(factory).handlers().dom());
            }
            Ok(answer)
        },
        Err(e) => Err(e),
    }
}

/// What serving one read of a connection came to.
#[derive(Debug)]
pub struct ReadOutcome {
    /// What the handlers answered, one entry for each frame that was
    /// dispatched, in the order in which the frames arrived. The answers that
    /// are bytes go back to the peer, in this order.
    pub replies: Vec<Option<Vec<u8>>>,
    /// Why serving stopped early, if it did. The connection is then to be
    /// closed and its entry removed.
    pub error: Option<ErrorKind>,
}

/// Notes what handling a frame came to. The answer of a handler goes to the
/// end of `replies` as it is, be it bytes or nothing; an error leaves
/// `replies` alone and is returned, for serving to stop.
pub fn collect_reply(
    replies: &mut Vec<Option<Vec<u8>>>,
    handled: Result<Option<Vec<u8>>, ErrorKind>,
) -> (stop: Option<ErrorKind>)
    ensures
        match handled {
            Ok(answer) => stop is None && final(replies)@ == old(replies)@.push(answer),
            Err(e) => stop == Some(e) && final(replies)@ == old(replies)@,
        },
{
    match handled {
        Ok(answer) => {
            replies.push(answer);
            None
        },
        Err(e) => Some(e),
    }
}

/// Whether dispatching the frame `wire`, which `address` sent, can take the
/// handlers from `before` to `after` with the answer `reply`: the frame's
/// command has a handler, that handler, as it stood, may give this answer to
/// the frame's payload, and every other handler stands as it stood.
pub open spec fn dispatched<H: HandlerProtocolData>(
    before: Map<RchatCommand, H>,
    after: Map<RchatCommand, H>,
    address: PeerAddress,
    wire: Seq<u8>,
    reply: Option<Vec<u8>>,
) -> bool {
    let command = RchatCommand::of_ordinal(wire[1]);
    &&& wire[1] < COMMAND_COUNT
    &&& before.dom().contains(command)
    &&& after.dom() == before.dom()
    &&& forall|other: RchatCommand|
        other != command && before.dom().contains(other) ==> after[other] == before[other]
    &&& before[command].may_answer(address, wire.skip(6), reply)
}

/// Whether `tables` are the handlers as they stood before, between and after
/// the dispatching of the first frames of `frames`, one after the other,
/// with `replies` as the answers, in that order.
pub open spec fn dispatched_in_turn<H: HandlerProtocolData>(
    tables: Seq<Map<RchatCommand, H>>,
    address: PeerAddress,
    frames: Seq<Seq<u8>>,
    replies: Seq<Option<Vec<u8>>>,
) -> bool {
    &&& tables.len() == replies.len() + 1
    &&& replies.len() <= frames.len()
    &&& forall|k: int|
        0 <= k < replies.len() ==> dispatched(
            tables[k],
            tables[k + 1],
            address,
            frames[k],
            #[trigger] replies[k],
        )
}

/// What serving a read comes to. `all_cache` and `factory` are the registry
/// and the handlers before the read, `cache_after` and `factory_after` after
/// it; `read` are the bytes that were read from the connection with
/// `address`.
///
/// An address without an entry is an `IoError`, and nothing changes.
/// Otherwise `read` is cut into frames after what the entry held. The frames
/// are dispatched in turn, up to the first whose command has no handler,
/// which is an `UnknownCommand`. Where all were dispatched and cutting had
/// stopped at a header over the limit, the error is `ProtocolViolation`. The
/// entry keeps its socket and holds what was left over, or no frame where
/// nothing was.
pub open spec fn read_served<S, H: HandlerProtocolData>(
    all_cache: ConnectionRegistry<S>,
    cache_after: ConnectionRegistry<S>,
    factory: HandleProtocolFactory<H>,
    factory_after: HandleProtocolFactory<H>,
    address: PeerAddress,
    read: Seq<u8>,
    outcome: ReadOutcome,
) -> bool {
    if !all_cache.has(address) {
        &&& outcome.error == Some(ErrorKind::IoError)
        &&& outcome.replies.len() == 0
        &&& cache_after.cache() == all_cache.cache()
        &&& factory_after.handlers() == factory.handlers()
    } else {
        let entry = all_cache.cache()[address];
        let left = cache_after.cache()[address];
        let cut = split_frames(pending_bytes(entry.data) + read, all_cache.limit());
        let served = outcome.replies.len() as int;
        &&& served <= cut.frames.len()
        &&& served < cut.frames.len() ==> !dispatchable(factory_after, cut.frames[served][1])
        &&& outcome.error == (if served < cut.frames.len() {
            Some(ErrorKind::UnknownCommand)
        } else if cut.rest is None {
            Some(ErrorKind::ProtocolViolation)
        } else {
            None
        })
        &&& exists|tables: Seq<Map<RchatCommand, H>>|
            {
                &&& #[trigger] dispatched_in_turn(tables, address, cut.frames, outcome.replies@)
                &&& tables.first() == factory.handlers()
                &&& tables.last() == factory_after.handlers()
            }
        &&& cache_after.cache() == all_cache.cache().insert(address, left)
        &&& left.stream == entry.stream
        &&& cut.rest matches Some(rest) ==> pending_bytes(left.data) == rest
        &&& left.data is None <==> (cut.rest matches Some(rest) ==> rest.len() == 0)
        &&& pending_ok(left.data, all_cache.limit())
    }
}

/// Dispatching frames in turn leaves the commands with a handler as they
/// were, and leaves the handler of a command untouched unless a frame with
/// that command was dispatched.
pub proof fn lemma_dispatched_in_turn<H: HandlerProtocolData>(
    tables: Seq<Map<RchatCommand, H>>,
    address: PeerAddress,
    frames: Seq<Seq<u8>>,
    replies: Seq<Option<Vec<u8>>>,
)
    requires
        dispatched_in_turn(tables, address, frames, replies),
    ensures
        tables.last().dom() == tables.first().dom(),
        forall|k: int|
            0 <= k < replies.len() ==> (#[trigger] frames[k])[1] < COMMAND_COUNT
                && tables.first().dom().contains(RchatCommand::of_ordinal(frames[k][1])),
        forall|command: RchatCommand|
            tables.first().dom().contains(command) && not_served(
                frames,
                replies.len() as int,
                command,
            ) ==> #[trigger] tables.last()[command] == tables.first()[command],
    decreases replies.len(),
{
    if replies.len() > 0 {
        let n = replies.len() - 1;
        let shorter = tables.drop_last();
        let fewer = replies.drop_last();
        assert(dispatched_in_turn(shorter, address, frames, fewer)) by {
            assert forall|k: int| 0 <= k < fewer.len() implies dispatched(
                shorter[k],
                shorter[k + 1],
                address,
                frames[k],
                #[trigger] fewer[k],
            ) by {
                assert(dispatched(tables[k], tables[k + 1], address, frames[k], replies[k]));
            }
        }
        lemma_dispatched_in_turn(shorter, address, frames, fewer);
        assert(dispatched(tables[n], tables[n + 1], address, frames[n], replies[n]));
        assert(shorter.last() == tables[n]);
        assert(shorter.first() == tables.first());
        assert forall|command: RchatCommand|
            tables.first().dom().contains(command) && not_served(
                frames,
                replies.len() as int,
                command,
            ) implies #[trigger] tables.last()[command] == tables.first()[command] by {
            assert(frames[n][1] != command.ordinal());
            assert(not_served(frames, fewer.len() as int, command));
        }
    }
}

/// Serves one read of the connection with `address`: the first `total_len`
/// bytes of `all_bytes`. The bytes are decoded after what the connection's
/// entry in `all_cache` holds, each frame that they complete is dispatched
/// through `factory`, in the order of arrival, and the frame that they start
/// and do not complete stays in the entry for the next read.
///
/// Serving stops at the first frame whose command has no handler, with
/// `UnknownCommand`. Where every frame was dispatched and decoding had
/// stopped at a header over the registry's limit, the error is
/// `ProtocolViolation`. An address without an entry is an `IoError`, and
/// nothing is done.
#[verifier::loop_isolation(false)]
pub fn parse_tcp_stream<S, H: HandlerProtocolData>(
    address: PeerAddress,
    all_bytes: &Vec<u8>,
    total_len: usize,
    all_cache: &mut ConnectionRegistry<S>,
    factory: &mut HandleProtocolFactory<H>,
) -> (outcome: ReadOutcome)
    requires
        old(all_cache).wf(),
        total_len <= all_bytes.len(),
    ensures
        final(all_cache).wf(),
        final(all_cache).limit() == old(all_cache).limit(),
        read_served(
            *old(all_cache),
            *final(all_cache),
            *old(factory),
            *final(factory),
            address,
            all_bytes@.take(total_len as int),
            outcome,
        ),
{
    let mut replies: Vec<Option<Vec<u8>>> = Vec::new();
    let decoded = match all_cache.decode(&address, all_bytes, total_len) {
        Some(decoded) => decoded,
        None => {
            return ReadOutcome { replies, error: Some(ErrorKind::IoError) };
        },
    };
    let ghost cut = split_frames(
        pending_bytes(old(all_cache).cache()[address].data) + all_bytes@.take(total_len as int),
        old(all_cache).limit(),
    );
    let ghost mut tables: Seq<Map<RchatCommand, H>> = seq![factory.handlers()];
    let mut i: usize = 0;
    while i < decoded.frames.len()
        invariant
            i <= decoded.frames.len(),
            i == replies.len(),
            decoded.frames.len() == cut.frames.len(),
            forall|k: int|
                0 <= k < decoded.frames.len() ==> (#[trigger] decoded.frames[k]).is_complete()
                    && decoded.frames[k]@.wf() && decoded.frames[k]@.bytes() == cut.frames[k],
            dispatched_in_turn(tables, address, cut.frames, replies@),
            tables.first() == old(factory).handlers(),
            tables.last() == factory.handlers(),
        decreases decoded.frames.len() - i,
    {
        let ghost wire = decoded.frames[i as int]@.bytes();
        let ghost before = factory.handlers();
        let ghost held = replies@;
        proof {
            assert(decoded.frames[i as int].is_complete());
            assert(wire[1] == decoded.frames[i as int]@.data_type[0]);
            assert(wire.skip(6) =~= decoded.frames[i as int]@.data);
        }
        let handled = handle_pkg(&decoded.frames[i], address, factory);
        match collect_reply(&mut replies, handled) {
            None => {
                proof {
                    let after = factory.handlers();
                    let longer = tables.push(after);
                    let command = RchatCommand::of_ordinal(wire[1]);
                    assert forall|other: RchatCommand|
                        other != command && before.dom().contains(other) implies after[other]
                        == before[other] by {
                        assert(other.ordinal() != wire[1]);
                    }
                    assert(dispatched(before, after, address, wire, replies@[i as int]));
                    assert forall|k: int| 0 <= k < replies@.len() implies dispatched(
                        longer[k],
                        longer[k + 1],
                        address,
                        cut.frames[k],
                        #[trigger] replies@[k],
                    ) by {
                        if k < i {
                            assert(dispatched(
                                tables[k],
                                tables[k + 1],
                                address,
                                cut.frames[k],
                                held[k],
                            ));
                        }
                    }
                    tables = longer;
                }
            },
            Some(e) => {
                let outcome = ReadOutcome { replies, error: Some(e) };
                proof {
                    assert(!dispatchable(*factory, cut.frames[i as int][1]));
                    assert(dispatched_in_turn(tables, address, cut.frames, outcome.replies@));
                    assert(read_served(
                        *old(all_cache),
                        *all_cache,
                        *old(factory),
                        *factory,
                        address,
                        all_bytes@.take(total_len as int),
                        outcome,
                    ));
                }
                return outcome;
            },
        }
        i += 1;
    }
    let error = if decoded.violation {
        Some(ErrorKind::ProtocolViolation)
    } else {
        None
    };
    ReadOutcome { replies, error }
}

/// A read that is being served frame by frame, for a transport that writes
/// each reply before the next frame is handled. It holds the frames that the
/// read completed, how many of them have been dispatched, whether decoding
/// stopped at a header over the limit, and the error that serving stopped
/// on, if it did.
pub struct ReadInProgress {
    frames: Vec<Protocol>,
    next: usize,
    violation: bool,
    stopped: Option<ErrorKind>,
}

/// What comes next in serving a read.
#[derive(Debug, PartialEq, Eq)]
pub enum ServeStep {
    /// A frame was dispatched, and these bytes go back to the peer before
    /// the next step.
    Reply(Vec<u8>),
    /// A frame was dispatched, and nothing goes back.
    NoReply,
    /// The read is served. With an error, serving stopped early, and the
    /// connection is to be closed.
    Done(Option<ErrorKind>),
}

impl ReadInProgress {
    /// The frames that the read completed, in the order of arrival.
    pub closed spec fn frames(self) -> Seq<Protocol> {
        self.frames@
    }

    /// How many of the frames have been dispatched.
    pub closed spec fn next(self) -> nat {
        self.next as nat
    }

    /// Whether decoding stopped at a header over the limit.
    pub closed spec fn violation(self) -> bool {
        self.violation
    }

    /// The error that serving stopped on.
    pub closed spec fn stopped(self) -> Option<ErrorKind> {
        self.stopped
    }

    /// Whether the read is in order: no more frames are dispatched than
    /// there are, and every frame is complete.
    pub closed spec fn wf(self) -> bool {
        &&& self.next <= self.frames.len()
        &&& forall|i: int|
            0 <= i < self.frames.len() ==> (#[trigger] self.frames[i])@.wf()
                && self.frames[i].is_complete()
    }

    /// What the step after all frames are dispatched reports: the violation,
    /// if decoding stopped at one.
    pub open spec fn end(self) -> Option<ErrorKind> {
        if self.violation() {
            Some(ErrorKind::ProtocolViolation)
        } else {
            None
        }
    }
}

/// The server side of the protocol: the address it listens on, the table of
/// handlers, the registry of connections, and its state. The state goes from
/// `INIT` to `RUNNING` to `STOPPED` and never back.
///
/// Stopping is not preemptive: whoever runs the accept loop looks at the
/// state between two connections, so a server that was stopped still serves
/// the connection that it is waiting for.
pub struct TcpServerSide<S, H> {
    /// Where the server listens, as `ip:port`.
    addr: String,
    factory: HandleProtocolFactory<H>,
    state: TcpSideState,
    all_conn_cache: ConnectionRegistry<S>,
}

impl<S, H: HandlerProtocolData> TcpServerSide<S, H> {
    /// Where the server listens.
    pub closed spec fn addr(self) -> String {
        self.addr
    }

    /// The table of handlers.
    pub closed spec fn factory(self) -> HandleProtocolFactory<H> {
        self.factory
    }

    /// The state.
    pub closed spec fn state(self) -> TcpSideState {
        self.state
    }

    /// The registry of connections.
    pub closed spec fn all_conn_cache(self) -> ConnectionRegistry<S> {
        self.all_conn_cache
    }

    /// A server that listens on `addr`, in state `INIT`, without
    /// connections, which accepts payloads of up to
    /// [`DEFAULT_MAX_DATA_LEN`] bytes.
    pub fn new(addr: String, factory: HandleProtocolFactory<H>) -> (server: Self)
        ensures
            server.addr() == addr,
            server.factory() == factory,
            server.state() == TcpSideState::INIT,
            server.all_conn_cache().wf(),
            server.all_conn_cache().cache() == Map::<PeerAddress, ProtocolCacheData<S>>::empty(),
            server.all_conn_cache().limit() == DEFAULT_MAX_DATA_LEN,
    {
        Self::with_max_data_len(addr, factory, DEFAULT_MAX_DATA_LEN)
    }

    /// A server as [`Self::new`] makes it, which accepts payloads of up to
    /// `max_data_len` bytes.
    pub fn with_max_data_len(
        addr: String,
        factory: HandleProtocolFactory<H>,
        max_data_len: u32,
    ) -> (server: Self)
        ensures
            server.addr() == addr,
            server.factory() == factory,
            server.state() == TcpSideState::INIT,
            server.all_conn_cache().wf(),
            server.all_conn_cache().cache() == Map::<PeerAddress, ProtocolCacheData<S>>::empty(),
            server.all_conn_cache().limit() == max_data_len,
    {
        TcpServerSide {
            addr,
            factory,
            state: TcpSideState::INIT,
            all_conn_cache: ConnectionRegistry::new(max_data_len),
        }
    }

    /// The state.
    pub fn get_state(&self) -> (state: &TcpSideState)
        ensures
            *state == self.state(),
    {
        &self.state
    }

    /// Where the server listens, as `ip:port`.
    pub fn get_addr(&self) -> (addr: &String)
        ensures
            *addr == self.addr(),
    {
        &self.addr
    }

    /// Sets the server running, unless it was stopped: a stopped server
    /// stays stopped. The accept loop runs while the state is `RUNNING`.
    pub fn start(&mut self)
        ensures
            final(self).state() == (if old(self).state() == TcpSideState::STOPPED {
                TcpSideState::STOPPED
            } else {
                TcpSideState::RUNNING
            }),
            final(self).addr() == old(self).addr(),
            final(self).factory() == old(self).factory(),
            final(self).all_conn_cache() == old(self).all_conn_cache(),
    {
        match self.state {
            TcpSideState::STOPPED => {},
            _ => {
                self.state = TcpSideState::RUNNING;
            },
        }
    }

    /// Stops the server, for good.
    pub fn stop(&mut self)
        ensures
            final(self).state() == TcpSideState::STOPPED,
            final(self).addr() == old(self).addr(),
            final(self).factory() == old(self).factory(),
            final(self).all_conn_cache() == old(self).all_conn_cache(),
    {
        self.state = TcpSideState::STOPPED;
    }

    /// Enters `stream_cache` as the connection with `addr`, unless there is
    /// one already. Returns whether the entry was made.
    pub fn add_stream(&mut self, addr: PeerAddress, stream_cache: ProtocolCacheData<S>) -> (added:
        bool)
        requires
            old(self).all_conn_cache().wf(),
            pending_ok(stream_cache.data, old(self).all_conn_cache().limit()),
        ensures
            final(self).all_conn_cache().wf(),
            added == !old(self).all_conn_cache().has(addr),
            added ==> final(self).all_conn_cache().cache() == old(self).all_conn_cache().cache().insert(
                addr,
                stream_cache,
            ),
            !added ==> final(self).all_conn_cache().cache() == old(self).all_conn_cache().cache(),
            final(self).all_conn_cache().limit() == old(self).all_conn_cache().limit(),
            final(self).state() == old(self).state(),
            final(self).addr() == old(self).addr(),
            final(self).factory() == old(self).factory(),
    {
        self.all_conn_cache.add_stream(addr, stream_cache)
    }

    /// The registry of connections, for the loop that accepts them, reads
    /// from them and writes to them.
    pub fn connections(&mut self) -> (registry: &mut ConnectionRegistry<S>)
        ensures
            *registry == old(self).all_conn_cache(),
            final(self).all_conn_cache() == *final(registry),
            final(self).state() == old(self).state(),
            final(self).addr() == old(self).addr(),
            final(self).factory() == old(self).factory(),
    {
        &mut self.all_conn_cache
    }

    /// Serves one read of the connection with `address`, as
    /// [`parse_tcp_stream`] does, with the server's registry and handlers.
    pub fn serve_read(&mut self, address: PeerAddress, all_bytes: &Vec<u8>, total_len: usize) -> (outcome:
        ReadOutcome)
        requires
            old(self).all_conn_cache().wf(),
            total_len <= all_bytes.len(),
        ensures
            final(self).state() == old(self).state(),
            final(self).addr() == old(self).addr(),
            final(self).all_conn_cache().wf(),
            final(self).all_conn_cache().limit() == old(self).all_conn_cache().limit(),
            read_served(
                old(self).all_conn_cache(),
                final(self).all_conn_cache(),
                old(self).factory(),
                final(self).factory(),
                address,
                all_bytes@.take(total_len as int),
                outcome,
            ),
    {
        parse_tcp_stream(address, all_bytes, total_len, &mut self.all_conn_cache, &mut self.factory)
    }

    /// Begins to serve one read of the connection with `address`: the first
    /// `total_len` bytes of `all_bytes` are decoded after what the
    /// connection's entry holds, as [`ConnectionRegistry::decode`] does it,
    /// and the frames that they complete wait to be dispatched by
    /// [`Self::serve_next`]. An address without an entry is an `IoError`:
    /// nothing is decoded, and the first step reports the error.
    pub fn begin_read(&mut self, address: PeerAddress, all_bytes: &Vec<u8>, total_len: usize) -> (read:
        ReadInProgress)
        requires
            old(self).all_conn_cache().wf(),
            total_len <= all_bytes.len(),
        ensures
            final(self).state() == old(self).state(),
            final(self).addr() == old(self).addr(),
            final(self).factory() == old(self).factory(),
            final(self).all_conn_cache().wf(),
            final(self).all_conn_cache().limit() == old(self).all_conn_cache().limit(),
            read.wf(),
            read.next() == 0,
            !old(self).all_conn_cache().has(address) ==> {
                &&& read.stopped() == Some(ErrorKind::IoError)
                &&& read.frames().len() == 0
                &&& !read.violation()
                &&& final(self).all_conn_cache().cache() == old(self).all_conn_cache().cache()
            },
            old(self).all_conn_cache().has(address) ==> {
                let entry = old(self).all_conn_cache().cache()[address];
                let left = final(self).all_conn_cache().cache()[address];
                let cut = split_frames(
                    pending_bytes(entry.data) + all_bytes@.take(total_len as int),
                    old(self).all_conn_cache().limit(),
                );
                &&& read.stopped() is None
                &&& wire_of(read.frames()) == cut.frames
                &&& read.violation() == (cut.rest is None)
                &&& final(self).all_conn_cache().cache() == old(self).all_conn_cache().cache().insert(
                    address,
                    left,
                )
                &&& left.stream == entry.stream
                &&& cut.rest matches Some(rest) ==> pending_bytes(left.data) == rest
                &&& left.data is None <==> (cut.rest matches Some(rest) ==> rest.len() == 0)
                &&& pending_ok(left.data, old(self).all_conn_cache().limit())
            },
    {
        match self.all_conn_cache.decode(&address, all_bytes, total_len) {
            Some(decoded) => ReadInProgress {
                frames: decoded.frames,
                next: 0,
                violation: decoded.violation,
                stopped: None,
            },
            None => ReadInProgress {
                frames: Vec::new(),
                next: 0,
                violation: false,
                stopped: Some(ErrorKind::IoError),
            },
        }
    }

    /// Takes the next step in serving `read`, whose frames `address` sent.
    ///
    /// Where serving has stopped on an error, the step reports that error
    /// again. Where every frame is dispatched, the read is served, with a
    /// `ProtocolViolation` if decoding had stopped at one. Otherwise the next
    /// frame is dispatched, as [`handle_pkg`] does it: the step is what the
    /// handler answered, or, for a command without handler, serving stops on
    /// `UnknownCommand`.
    pub fn serve_next(&mut self, address: PeerAddress, read: &mut ReadInProgress) -> (step:
        ServeStep)
        requires
            old(read).wf(),
        ensures
            final(read).wf(),
            final(read).frames() == old(read).frames(),
            final(read).violation() == old(read).violation(),
            final(self).state() == old(self).state(),
            final(self).addr() == old(self).addr(),
            final(self).all_conn_cache() == old(self).all_conn_cache(),
            final(self).factory().handlers().dom() == old(self).factory().handlers().dom(),
            old(read).stopped() is Some ==> {
                &&& step == ServeStep::Done(old(read).stopped())
                &&& *final(read) == *old(read)
                &&& final(self).factory().handlers() == old(self).factory().handlers()
            },
            old(read).stopped() is None && old(read).next() == old(read).frames().len() ==> {
                &&& step == ServeStep::Done(old(read).end())
                &&& *final(read) == *old(read)
                &&& final(self).factory().handlers() == old(self).factory().handlers()
            },
            old(read).stopped() is None && old(read).next() < old(read).frames().len() ==> {
                let wire = old(read).frames()[old(read).next() as int]@.bytes();
                if dispatchable(old(self).factory(), wire[1]) {
                    &&& step !is Done
                    &&& final(read).next() == old(read).next() + 1
                    &&& final(read).stopped() is None
                    &&& dispatched(
                        old(self).factory().handlers(),
                        final(self).factory().handlers(),
                        address,
                        wire,
                        match step {
                            ServeStep::Reply(bytes) => Some(bytes),
                            _ => None,
                        },
                    )
                } else {
                    &&& step == ServeStep::Done(Some(ErrorKind::UnknownCommand))
                    &&& final(read).next() == old(read).next()
                    &&& final(read).stopped() == Some(ErrorKind::UnknownCommand)
                    &&& final(self).factory().handlers() == old(self).factory().handlers()
                }
            },
    {
        if read.stopped.is_some() {
            return ServeStep::Done(read.stopped);
        }
        if read.next >= read.frames.len() {
            let end = if read.violation {
                Some(ErrorKind::ProtocolViolation)
            } else {
                None
            };
            return ServeStep::Done(end);
        }
        let ghost before = self.factory.handlers();
        let ghost wire = read.frames[read.next as int]@.bytes();
        proof {
            assert(read.frames[read.next as int].is_complete());
            assert(wire[1] == read.frames[read.next as int]@.data_type[0]);
            assert(wire.skip(6) =~= read.frames[read.next as int]@.data);
        }
        match handle_pkg(&read.frames[read.next], address, &mut self.factory) {
            Ok(answer) => {
                proof {
                    let after = self.factory.handlers();
                    let command = RchatCommand::of_ordinal(wire[1]);
                    assert forall|other: RchatCommand|
                        other != command && before.dom().contains(other) implies after[other]
                        == before[other] by {
                        assert(other.ordinal() != wire[1]);
                    }
                    assert(dispatched(before, after, address, wire, answer));
                }
                read.next = read.next + 1;
                match answer {
                    Some(bytes) => ServeStep::Reply(bytes),
                    None => ServeStep::NoReply,
                }
            },
            Err(e) => {
                read.stopped = Some(e);
                ServeStep::Done(Some(e))
            },
        }
    }
}

/// What a client does to log in.
#[derive(Debug)]
pub struct LoginAttempt {
    /// The frame to write to the server, where the request can be sent.
    pub wire: Option<Vec<u8>>,
    /// What the caller is told. It is a failure in every case: the server's
    /// answer is not waited for, it comes later like any other frame and goes
    /// to the handler of the login command.
    pub result: BizResult<LoginRespData>,
}

/// The client side of the protocol. A client is built like a server: the
/// connection to the server is the one entry of its registry, so that what
/// the server sends is decoded and dispatched as a server does it.
pub struct TcpClientSide<S, H> {
    is_login_flg: bool,
    local_addr: PeerAddress,
    remote_server_address: PeerAddress,
    core: TcpServerSide<S, H>,
}

impl<S, H: HandlerProtocolData> TcpClientSide<S, H> {
    /// Whether a login has been confirmed.
    pub closed spec fn is_login_flg(self) -> bool {
        self.is_login_flg
    }

    /// The client's own address on the connection.
    pub closed spec fn local_addr(self) -> PeerAddress {
        self.local_addr
    }

    /// The server's address.
    pub closed spec fn remote_server_address(self) -> PeerAddress {
        self.remote_server_address
    }

    /// The machinery that decodes and dispatches what the server sends.
    pub closed spec fn machinery(self) -> TcpServerSide<S, H> {
        self.core
    }

    /// A client on the connection `server_stream` to the server at
    /// `remote_server_address`. `local_addr` is the address that the
    /// connection has on the client's end, and `local_url` the same as
    /// `ip:port`. The client is in state `INIT`, not logged in, and its
    /// registry holds the connection to the server and nothing else.
    pub fn new(
        remote_server_address: PeerAddress,
        local_addr: PeerAddress,
        local_url: String,
        server_stream: S,
        factory: HandleProtocolFactory<H>,
    ) -> (client: Self)
        ensures
            !client.is_login_flg(),
            client.local_addr() == local_addr,
            client.remote_server_address() == remote_server_address,
            client.machinery().addr() == local_url,
            client.machinery().factory() == factory,
            client.machinery().state() == TcpSideState::INIT,
            client.machinery().all_conn_cache().wf(),
            client.machinery().all_conn_cache().limit() == DEFAULT_MAX_DATA_LEN,
            client.machinery().all_conn_cache().cache() == Map::<
                PeerAddress,
                ProtocolCacheData<S>,
            >::empty().insert(
                remote_server_address,
                ProtocolCacheData { stream: server_stream, data: None },
            ),
    {
        let mut server = TcpServerSide::new(local_url, factory);
        let cache_data = ProtocolCacheData { stream: server_stream, data: None };
        server.add_stream(remote_server_address, cache_data);
        TcpClientSide { is_login_flg: false, local_addr, remote_server_address, core: server }
    }

    /// The state.
    pub fn get_state(&self) -> (state: &TcpSideState)
        ensures
            *state == self.machinery().state(),
    {
        self.core.get_state()
    }

    /// Sets the client running, as [`TcpServerSide::start`] does.
    pub fn start(&mut self)
        ensures
            final(self).machinery().state() == (if old(self).machinery().state() == TcpSideState::STOPPED {
                TcpSideState::STOPPED
            } else {
                TcpSideState::RUNNING
            }),
            final(self).machinery().addr() == old(self).machinery().addr(),
            final(self).machinery().factory() == old(self).machinery().factory(),
            final(self).machinery().all_conn_cache() == old(self).machinery().all_conn_cache(),
            final(self).is_login_flg() == old(self).is_login_flg(),
            final(self).local_addr() == old(self).local_addr(),
            final(self).remote_server_address() == old(self).remote_server_address(),
    {
        self.core.start();
    }

    /// Whether a login has been confirmed.
    pub fn is_login(&self) -> (flag: bool)
        ensures
            flag == self.is_login_flg(),
    {
        self.is_login_flg
    }

    /// The client's own address on the connection.
    pub fn get_local_addr(&self) -> (addr: PeerAddress)
        ensures
            addr == self.local_addr(),
    {
        self.local_addr
    }

    /// The server's address.
    pub fn get_remote_server_address(&self) -> (addr: PeerAddress)
        ensures
            addr == self.remote_server_address(),
    {
        self.remote_server_address
    }

    /// The machinery that decodes and dispatches what the server sends, for
    /// the loop that reads from the connection.
    pub fn get_core(&mut self) -> (core: &mut TcpServerSide<S, H>)
        ensures
            *core == old(self).machinery(),
            final(self).machinery() == *final(core),
            final(self).is_login_flg() == old(self).is_login_flg(),
            final(self).local_addr() == old(self).local_addr(),
            final(self).remote_server_address() == old(self).remote_server_address(),
    {
        &mut self.core
    }

    /// Prepares a login. `request` is the login request as a payload, and
    /// `version` the protocol version to send it under; `time_out` is kept
    /// for the day when the answer is waited for.
    ///
    /// The request can be sent where the client is running, still holds the
    /// connection to the server, and `request` fits in a frame. Then `wire`
    /// is the frame to write, with the login command. What the caller is
    /// told is a failure either way, whose message says which case it is.
    pub fn login(&self, version: u8, request: Vec<u8>, time_out: u64) -> (attempt: LoginAttempt)
        requires
            self.machinery().all_conn_cache().wf(),
        ensures
            !attempt.result.is_success,
            attempt.result.data is None,
            attempt.result.msg is Some,
            attempt.result.msg->0@ == (if self.machinery().state() != TcpSideState::RUNNING {
                "client还未启动!"@
            } else if !self.machinery().all_conn_cache().has(self.remote_server_address()) {
                "获取mut stream失败!"@
            } else if request.len() > MAX_DATA_LEN {
                "data.len() over MAX_DATA_LEN !"@
            } else {
                "暂未实现登录"@
            }),
            attempt.wire is Some <==> self.machinery().state() == TcpSideState::RUNNING
                && self.machinery().all_conn_cache().has(self.remote_server_address()) && request.len()
                <= MAX_DATA_LEN,
            attempt.wire matches Some(wire) ==> wire@ == wire_frame(
                version,
                RchatCommand::Login.ordinal(),
                request@,
            ),
    {
        match self.core.state {
            TcpSideState::RUNNING => {},
            _ => {
                return LoginAttempt {
                    wire: None,
                    result: BizResult::failure("client还未启动!".to_owned()),
                };
            },
        }
        if !self.core.all_conn_cache.contains(&self.remote_server_address) {
            return LoginAttempt {
                wire: None,
                result: BizResult::failure("获取mut stream失败!".to_owned()),
            };
        }
        if request.len() as u64 > MAX_DATA_LEN {
            return LoginAttempt {
                wire: None,
                result: BizResult::failure("data.len() over MAX_DATA_LEN !".to_owned()),
            };
        }
        let mut field: Vec<u8> = Vec::new();
        field.push(version);
        let data_len = calculate_len_by_data(&request);
        let mut pkg = Protocol {
            version: Some(field),
            data_type: Some(RchatCommand::Login.to_data_type()),
            data_len: Some(data_len),
            data: Some(request),
        };
        let wire = pkg.to_vec();
        proof {
            assert(wire@ =~= wire_frame(version, RchatCommand::Login.ordinal(), request@));
        }
        LoginAttempt { wire: Some(wire), result: BizResult::failure("暂未实现登录".to_owned()) }
    }
}

} // verus!
