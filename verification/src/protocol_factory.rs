//! The command dispatcher: it routes the payload of a decoded frame to the
//! handler that was registered for the frame's command.

use vstd::prelude::*;

use crate::address::PeerAddress;
use crate::base::{RchatCommand, COMMAND_COUNT};
use crate::errors_define::ErrorKind;

verus! {

/// Business logic bound to one command. A handler takes the payload of each
/// frame that carries its command, with the address of the peer that sent
/// it, and may answer with bytes that go back to that peer.
pub trait HandlerProtocolData {
    /// What the handler promises of its answers: whether, as it stands, it
    /// may answer `answer` to the payload `data` that `address` sent. A
    /// handler that promises nothing leaves this as it is, and may answer
    /// anything. The dispatcher passes the promise on to its callers.
    open spec fn may_answer(
        &self,
        address: PeerAddress,
        data: Seq<u8>,
        answer: Option<Vec<u8>>,
    ) -> bool {
        true
    }

    /// Takes the payload `data` of a frame that `address` sent, and returns
    /// the bytes to send back, if any.
    fn handle(&mut self, address: PeerAddress, data: &Vec<u8>) -> (answer: Option<Vec<u8>>)
        ensures
            old(self).may_answer(address, data@, answer),
    ;
}

/// A boxed handler is a handler: it hands everything on to what it holds.
/// This is what lets one table hold handlers of different types, as
/// `Box<dyn HandlerProtocolData>`.
impl<T: HandlerProtocolData + ?Sized> HandlerProtocolData for Box<T> {
    open spec fn may_answer(
        &self,
        address: PeerAddress,
        data: Seq<u8>,
        answer: Option<Vec<u8>>,
    ) -> bool {
        (**self).may_answer(address, data, answer)
    }

    fn handle(&mut self, address: PeerAddress, data: &Vec<u8>) -> (answer: Option<Vec<u8>>) {
        (**self).handle(address, data)
    }
}

/// The table of handlers, one at most for each command. A handler stays
/// registered for the lifetime of the table: it cannot be replaced or taken
/// out.
pub struct HandleProtocolFactory<H> {
    /// One slot for each command, at the command's ordinal.
    all_handler: Vec<Option<H>>,
}

impl<H> HandleProtocolFactory<H> {
    #[verifier::type_invariant]
    spec fn slots_match_commands(self) -> bool {
        self.all_handler.len() == COMMAND_COUNT
    }

    /// The handlers by the command they are registered for.
    pub closed spec fn handlers(self) -> Map<RchatCommand, H> {
        Map::new(
            |command: RchatCommand| self.all_handler@[command.ordinal() as int] is Some,
            |command: RchatCommand| self.all_handler@[command.ordinal() as int]->0,
        )
    }

    /// Whether a handler is registered for the command.
    pub open spec fn is_registered(self, command: RchatCommand) -> bool {
        self.handlers().dom().contains(command)
    }

    /// A table with no handler in it.
    pub fn new() -> (factory: Self)
        ensures
            factory.handlers() == Map::<RchatCommand, H>::empty(),
    {
        let mut all_handler: Vec<Option<H>> = Vec::new();
        let mut i: u8 = 0;
        while i < COMMAND_COUNT
            invariant
                i <= COMMAND_COUNT,
                all_handler.len() == i,
                forall|j: int| 0 <= j < i ==> all_handler@[j] is None,
            decreases COMMAND_COUNT - i,
        {
            all_handler.push(None);
            i += 1;
        }
        let factory = HandleProtocolFactory { all_handler };
        assert(factory.handlers() =~= Map::<RchatCommand, H>::empty());
        factory
    }

    /// The handler registered for the command `a`. It is an error,
    /// `UnknownCommand`, to ask for a command that has none.
    pub fn get_handler(&mut self, a: &RchatCommand) -> (handler: Result<&mut H, ErrorKind>)
        ensures
            handler is Ok <==> old(self).is_registered(*a),
            handler is Ok ==> *handler->Ok_0 == old(self).handlers()[*a],
            handler is Ok ==> final(self).handlers() == old(self).handlers().insert(
                *a,
                *final(handler->Ok_0),
            ),
            handler is Err ==> handler->Err_0 == ErrorKind::UnknownCommand,
            handler is Err ==> final(self).handlers() == old(self).handlers(),
    {
        proof {
            use_type_invariant(&*self);
        }
        let i: usize = a.to_index();
        match self.all_handler[i].as_mut() {
            Some(handler) => {
                Ok(handler)
            },
            None => Err(ErrorKind::UnknownCommand),
        }
    }

    /// Registers `b` as the handler of the command `a`. It is an error,
    /// `DuplicateRegistration`, to register a second handler for a command;
    /// the table is then left as it was.
    pub fn registry_handler(&mut self, a: RchatCommand, b: H) -> (done: Result<(), ErrorKind>)
        ensures
            done is Ok <==> !old(self).is_registered(a),
            done is Ok ==> final(self).handlers() == old(self).handlers().insert(a, b),
            done is Err ==> done->Err_0 == ErrorKind::DuplicateRegistration,
            done is Err ==> final(self).handlers() == old(self).handlers(),
    {
        proof {
            use_type_invariant(&*self);
        }
        let i: usize = a.to_index();
        if self.all_handler[i].is_some() {
            return Err(ErrorKind::DuplicateRegistration);
        }
        self.all_handler[i] = Some(b);
        proof {
            assert(final(self).handlers() =~= old(self).handlers().insert(a, b));
        }
        Ok(())
    }
}

/// One handler for each command: in the table that a successful
/// registration leaves, the command is registered, so that registering it
/// again fails; asking for the command yields exactly the handler that was
/// registered; and the other commands stand as they stood, so that a command
/// which had no handler still has none and asking for it fails.
pub proof fn lemma_one_handler_per_command<H>(
    before: HandleProtocolFactory<H>,
    after: HandleProtocolFactory<H>,
    a: RchatCommand,
    b: H,
)
    requires
        after.handlers() == before.handlers().insert(a, b),
    ensures
        after.is_registered(a),
        after.handlers()[a] == b,
        forall|other: RchatCommand|
            other != a ==> (after.is_registered(other) <==> before.is_registered(other)),
        forall|other: RchatCommand|
            other != a && before.is_registered(other) ==> after.handlers()[other]
                == before.handlers()[other],
{
}

} // verus!
