//! The connection registry: for each peer that is being served, the socket
//! of the connection and the frame that the peer's bytes are building.

use vstd::prelude::*;

use crate::address::PeerAddress;
use crate::chat_protocol::Protocol;
use crate::decoder::{
    decode_buffer, delivered_ok, pending_bytes, pending_ok, split_frames, wire_of, Decoded,
};
use crate::errors_define::ErrorKind;

verus! {

/// The payload size that a registry accepts unless it is told otherwise:
/// four mebibytes.
pub const DEFAULT_MAX_DATA_LEN: u32 = 0x40_0000;

/// The cache entry of one connection. It owns the socket `stream` for as
/// long as the connection lives, and keeps in `data` the frame that the
/// peer's bytes have started and not completed. Where `data` is `None`, the
/// next byte starts a frame.
pub struct ProtocolCacheData<S> {
    pub stream: S,
    pub data: Option<Protocol>,
}

impl<S> ProtocolCacheData<S> {
    /// The socket, for reading. The entry owns the socket alone, so one try
    /// gets it.
    pub fn try_get_read(&self) -> (stream: Option<&S>)
        ensures
            stream == Some(&self.stream),
    {
        self.try_get_read_stream_by_param(3, 20)
    }

    /// The socket, for writing. The entry owns the socket alone, so one try
    /// gets it.
    pub fn try_get_mut_stream(&mut self) -> (stream: Option<&mut S>)
        ensures
            stream is Some,
            *stream->0 == old(self).stream,
            final(self).stream == *final(stream->0),
            final(self).data == old(self).data,
    {
        self.try_get_mut_stream_by_param(3, 20)
    }

    /// The socket, for writing, within `try_count` tries. `time_out` is the
    /// pause in milliseconds after a try that failed; no try fails, since
    /// the entry owns the socket alone, so the socket is had unless
    /// `try_count` is zero.
    pub fn try_get_mut_stream_by_param(&mut self, try_count: usize, time_out: u64) -> (stream:
        Option<&mut S>)
        ensures
            stream is Some <==> try_count > 0,
            stream is Some ==> *stream->0 == old(self).stream,
            stream is Some ==> final(self).stream == *final(stream->0),
            stream is None ==> final(self).stream == old(self).stream,
            final(self).data == old(self).data,
    {
        if try_count > 0 {
            Some(&mut self.stream)
        } else {
            None
        }
    }

    /// The socket, for reading, within `try_count` tries; see
    /// [`Self::try_get_mut_stream_by_param`].
    pub fn try_get_read_stream_by_param(&self, try_count: usize, time_out: u64) -> (stream:
        Option<&S>)
        ensures
            stream is Some <==> try_count > 0,
            stream is Some ==> *stream->0 == self.stream,
    {
        if try_count > 0 {
            Some(&self.stream)
        } else {
            None
        }
    }
}

/// Whether a connection is kept after a read was served: it is, unless
/// serving stopped on an error or a reply could not be written.
pub fn connection_survives(error: Option<ErrorKind>, write_failed: bool) -> (keep: bool)
    ensures
        keep == (error is None && !write_failed),
{
    error.is_none() && !write_failed
}

/// Whether the entry of a connection is kept after a read of `total_len`
/// bytes. A connection on which serving stopped with an error, or to which a
/// reply could not be written, is dead, and its entry goes. A read of no
/// bytes changes nothing: an entry that was there before the read stays, one
/// that was made for the read goes.
pub open spec fn entry_kept(
    existed: bool,
    total_len: nat,
    error: Option<ErrorKind>,
    write_failed: bool,
) -> bool {
    &&& error is None
    &&& !write_failed
    &&& total_len > 0 || existed
}

/// The entries as a map, by address.
spec fn map_of<S>(slots: Seq<(PeerAddress, ProtocolCacheData<S>)>) -> Map<
    PeerAddress,
    ProtocolCacheData<S>,
> {
    Map::new(
        |address: PeerAddress| exists|i: int| 0 <= i < slots.len() && slots[i].0 == address,
        |address: PeerAddress| slots[choose|i: int| 0 <= i < slots.len() && slots[i].0 == address].1,
    )
}

/// Whether no address occurs twice among the entries.
spec fn distinct<S>(slots: Seq<(PeerAddress, ProtocolCacheData<S>)>) -> bool {
    forall|i: int, j: int| 0 <= i < j < slots.len() ==> slots[i].0 != slots[j].0
}

/// In entries with distinct addresses, the map holds each entry under its
/// address.
proof fn lemma_map_of_index<S>(slots: Seq<(PeerAddress, ProtocolCacheData<S>)>, i: int)
    requires
        distinct(slots),
        0 <= i < slots.len(),
    ensures
        map_of(slots).dom().contains(slots[i].0),
        map_of(slots)[slots[i].0] == slots[i].1,
{
    let address = slots[i].0;
    let k = choose|k: int| 0 <= k < slots.len() && slots[k].0 == address;
    assert(k == i);
}

/// Adding an entry for a new address adds it to the map.
proof fn lemma_map_of_push<S>(
    slots: Seq<(PeerAddress, ProtocolCacheData<S>)>,
    address: PeerAddress,
    entry: ProtocolCacheData<S>,
)
    requires
        distinct(slots),
        !map_of(slots).dom().contains(address),
    ensures
        distinct(slots.push((address, entry))),
        map_of(slots.push((address, entry))) == map_of(slots).insert(address, entry),
{
    let after = slots.push((address, entry));
    assert forall|a: PeerAddress| #[trigger]
        map_of(after).dom().contains(a) <==> map_of(slots).insert(address, entry).dom().contains(
            a,
        ) by {
        if map_of(after).dom().contains(a) {
            let k = choose|k: int| 0 <= k < after.len() && after[k].0 == a;
            if k < slots.len() {
                assert(slots[k].0 == a);
            }
        }
        if map_of(slots).dom().contains(a) {
            let k = choose|k: int| 0 <= k < slots.len() && slots[k].0 == a;
            assert(after[k].0 == a);
        }
        if a == address {
            assert(after[slots.len() as int].0 == a);
        }
    }
    assert forall|a: PeerAddress| #[trigger] map_of(after).dom().contains(a) implies map_of(
        after,
    )[a] == map_of(slots).insert(address, entry)[a] by {
        let k = choose|k: int| 0 <= k < after.len() && after[k].0 == a;
        lemma_map_of_index(after, k);
        if k < slots.len() {
            lemma_map_of_index(slots, k);
        }
    }
    assert(map_of(after) =~= map_of(slots).insert(address, entry));
}

/// Replacing what an entry holds replaces it in the map.
proof fn lemma_map_of_update<S>(
    slots: Seq<(PeerAddress, ProtocolCacheData<S>)>,
    i: int,
    entry: ProtocolCacheData<S>,
)
    requires
        distinct(slots),
        0 <= i < slots.len(),
    ensures
        distinct(slots.update(i, (slots[i].0, entry))),
        map_of(slots.update(i, (slots[i].0, entry))) == map_of(slots).insert(slots[i].0, entry),
{
    let address = slots[i].0;
    let after = slots.update(i, (address, entry));
    assert forall|a: PeerAddress| #[trigger]
        map_of(after).dom().contains(a) <==> map_of(slots).insert(address, entry).dom().contains(
            a,
        ) by {
        if map_of(after).dom().contains(a) {
            let k = choose|k: int| 0 <= k < after.len() && after[k].0 == a;
            assert(slots[k].0 == a);
        }
        if map_of(slots).dom().contains(a) {
            let k = choose|k: int| 0 <= k < slots.len() && slots[k].0 == a;
            assert(after[k].0 == a);
        }
        if a == address {
            assert(after[i].0 == a);
        }
    }
    assert forall|a: PeerAddress| #[trigger] map_of(after).dom().contains(a) implies map_of(
        after,
    )[a] == map_of(slots).insert(address, entry)[a] by {
        let k = choose|k: int| 0 <= k < after.len() && after[k].0 == a;
        lemma_map_of_index(after, k);
        lemma_map_of_index(slots, k);
    }
    assert(map_of(after) =~= map_of(slots).insert(address, entry));
}

/// Taking an entry out takes its address out of the map.
proof fn lemma_map_of_remove<S>(slots: Seq<(PeerAddress, ProtocolCacheData<S>)>, i: int)
    requires
        distinct(slots),
        0 <= i < slots.len(),
    ensures
        distinct(slots.remove(i)),
        map_of(slots.remove(i)) == map_of(slots).remove(slots[i].0),
{
    let address = slots[i].0;
    let after = slots.remove(i);
    assert forall|a: PeerAddress| #[trigger]
        map_of(after).dom().contains(a) <==> map_of(slots).remove(address).dom().contains(a) by {
        if map_of(after).dom().contains(a) {
            let k = choose|k: int| 0 <= k < after.len() && after[k].0 == a;
            if k < i {
                assert(slots[k].0 == a);
            } else {
                assert(slots[k + 1].0 == a);
            }
        }
        if map_of(slots).remove(address).dom().contains(a) {
            let k = choose|k: int| 0 <= k < slots.len() && slots[k].0 == a;
            if k < i {
                assert(after[k].0 == a);
            } else {
                assert(after[k - 1].0 == a);
            }
        }
    }
    assert forall|a: PeerAddress| #[trigger] map_of(after).dom().contains(a) implies map_of(
        after,
    )[a] == map_of(slots).remove(address)[a] by {
        let k = choose|k: int| 0 <= k < after.len() && after[k].0 == a;
        lemma_map_of_index(after, k);
        if k < i {
            lemma_map_of_index(slots, k);
        } else {
            lemma_map_of_index(slots, k + 1);
        }
    }
    assert(map_of(after) =~= map_of(slots).remove(address));
}

/// The connections that are being served, by the address of the peer. An
/// address has one entry at most, and the frame of an entry is never
/// complete: a complete frame leaves the registry at once.
pub struct ConnectionRegistry<S> {
    slots: Vec<(PeerAddress, ProtocolCacheData<S>)>,
    max_data_len: u32,
}

impl<S> ConnectionRegistry<S> {
    /// Whether the registry is in order: no address has two entries, and
    /// the frame of each entry can stand there. Every registry that
    /// [`Self::new`] made and that this module's functions worked on is.
    pub closed spec fn wf(self) -> bool {
        &&& distinct(self.slots@)
        &&& forall|i: int|
            0 <= i < self.slots.len() ==> pending_ok(
                (#[trigger] self.slots[i]).1.data,
                self.max_data_len as nat,
            )
    }

    /// The entries by address.
    pub closed spec fn cache(self) -> Map<PeerAddress, ProtocolCacheData<S>> {
        map_of(self.slots@)
    }

    /// The largest payload, in bytes, that the registry accepts in a frame.
    pub closed spec fn limit(self) -> nat {
        self.max_data_len as nat
    }

    /// Whether `address` has an entry.
    pub open spec fn has(self, address: PeerAddress) -> bool {
        self.cache().dom().contains(address)
    }

    /// A registry without entries, which accepts payloads of up to
    /// `max_data_len` bytes.
    pub fn new(max_data_len: u32) -> (registry: Self)
        ensures
            registry.wf(),
            registry.cache() == Map::<PeerAddress, ProtocolCacheData<S>>::empty(),
            registry.limit() == max_data_len,
    {
        let registry = ConnectionRegistry { slots: Vec::new(), max_data_len };
        assert(registry.cache() =~= Map::<PeerAddress, ProtocolCacheData<S>>::empty());
        registry
    }

    /// The place of the entry of `address`.
    fn find(&self, address: &PeerAddress) -> (at: Option<usize>)
        requires
            self.wf(),
        ensures
            at matches Some(i) ==> i < self.slots.len() && self.slots[i as int].0 == *address,
            at is Some <==> self.has(*address),
    {
        let mut i: usize = 0;
        while i < self.slots.len()
            invariant
                i <= self.slots.len(),
                forall|j: int| 0 <= j < i ==> self.slots[j].0 != *address,
            decreases self.slots.len() - i,
        {
            if self.slots[i].0 == *address {
                return Some(i);
            }
            i += 1;
        }
        None
    }

    /// Whether `address` has an entry.
    pub fn contains(&self, address: &PeerAddress) -> (known: bool)
        requires
            self.wf(),
        ensures
            known == self.has(*address),
    {
        self.find(address).is_some()
    }

    /// The largest payload, in bytes, that the registry accepts in a frame.
    pub fn max_data_len(&self) -> (max: u32)
        ensures
            max == self.limit(),
    {
        self.max_data_len
    }

    /// Enters `stream_cache` as the entry of `addr`, unless `addr` has an
    /// entry already: an entry is never replaced. Returns whether the entry
    /// was made.
    pub fn add_stream(&mut self, addr: PeerAddress, stream_cache: ProtocolCacheData<S>) -> (added:
        bool)
        requires
            old(self).wf(),
            pending_ok(stream_cache.data, old(self).limit()),
        ensures
            final(self).wf(),
            added == !old(self).has(addr),
            added ==> final(self).cache() == old(self).cache().insert(addr, stream_cache),
            !added ==> final(self).cache() == old(self).cache(),
            final(self).limit() == old(self).limit(),
    {
        match self.find(&addr) {
            Some(_) => false,
            None => {
                proof {
                    lemma_map_of_push(self.slots@, addr, stream_cache);
                }
                self.slots.push((addr, stream_cache));
                true
            },
        }
    }

    /// Looks up the entry of `address` and makes one where there is none,
    /// then returns the entry's socket. A new entry owns `incoming` and
    /// starts from a fresh frame. An entry that exists keeps its socket and
    /// its frame, and `incoming` is dropped; where it holds no frame, it is
    /// given a fresh one.
    pub fn get_or_create(&mut self, address: PeerAddress, incoming: S) -> (stream: &mut S)
        requires
            old(self).wf(),
        ensures
            final(self).wf(),
            *stream == (if old(self).has(address) {
                old(self).cache()[address].stream
            } else {
                incoming
            }),
            final(self).cache() == old(self).cache().insert(
                address,
                ProtocolCacheData {
                    stream: *final(stream),
                    data: Some(
                        if old(self).has(address) && old(self).cache()[address].data is Some {
                            old(self).cache()[address].data->0
                        } else {
                            Protocol::fresh()
                        },
                    ),
                },
            ),
            final(self).limit() == old(self).limit(),
    {
        let ghost before = self.slots@;
        let at: usize = match self.find(&address) {
            Some(i) => {
                proof {
                    lemma_map_of_index(before, i as int);
                }
                if self.slots[i].1.data.is_none() {
                    self.slots[i].1.data = Some(Protocol::create_new());
                }
                i
            },
            None => {
                let entry = ProtocolCacheData { stream: incoming, data: Some(Protocol::create_new()) };
                proof {
                    lemma_map_of_push(before, address, entry);
                }
                self.slots.push((address, entry));
                self.slots.len() - 1
            },
        };
        let ghost held = self.slots@;
        proof {
            assert(held[at as int].1.data->0 == (if old(self).has(address) && old(self).cache()[address].data is Some {
                old(self).cache()[address].data->0
            } else {
                Protocol::fresh()
            }));
            assert forall|entry: ProtocolCacheData<S>| entry.data == held[at as int].1.data implies map_of(
                #[trigger] held.update(at as int, (address, entry)),
            ) == old(self).cache().insert(address, entry) by {
                lemma_map_of_update(held, at as int, entry);
                if old(self).has(address) {
                    lemma_map_of_update(before, at as int, held[at as int].1);
                    assert(held =~= before.update(at as int, (address, held[at as int].1)));
                    assert(map_of(held).insert(address, entry) =~= map_of(before).insert(
                        address,
                        entry,
                    ));
                } else {
                    assert(map_of(held).insert(address, entry) =~= map_of(before).insert(
                        address,
                        entry,
                    ));
                }
            }
        }
        &mut self.slots[at].1.stream
    }

    /// The socket of the connection with `address`, for reading and writing,
    /// if the address has an entry.
    pub fn try_get_mut_stream(&mut self, address: &PeerAddress) -> (stream: Option<&mut S>)
        requires
            old(self).wf(),
        ensures
            final(self).wf(),
            stream is Some <==> old(self).has(*address),
            stream is Some ==> *stream->0 == old(self).cache()[*address].stream,
            stream is Some ==> final(self).cache() == old(self).cache().insert(
                *address,
                ProtocolCacheData {
                    stream: *final(stream->0),
                    data: old(self).cache()[*address].data,
                },
            ),
            stream is None ==> final(self).cache() == old(self).cache(),
            final(self).limit() == old(self).limit(),
    {
        let ghost held = self.slots@;
        match self.find(address) {
            Some(at) => {
                proof {
                    lemma_map_of_index(held, at as int);
                    assert forall|entry: ProtocolCacheData<S>| true implies map_of(
                        #[trigger] held.update(at as int, (*address, entry)),
                    ) == map_of(held).insert(*address, entry) by {
                        lemma_map_of_update(held, at as int, entry);
                    }
                }
                Some(&mut self.slots[at].1.stream)
            },
            None => None,
        }
    }

    /// Takes the entry of `address` out of the registry, with its socket and
    /// whatever frame it was building. This is how a dead connection is
    /// cleaned up.
    pub fn remove(&mut self, address: &PeerAddress) -> (entry: Option<ProtocolCacheData<S>>)
        requires
            old(self).wf(),
        ensures
            final(self).wf(),
            entry is Some ==> pending_ok(entry->0.data, old(self).limit()),
            entry is Some <==> old(self).has(*address),
            entry is Some ==> entry->0 == old(self).cache()[*address],
            final(self).cache() == old(self).cache().remove(*address),
            final(self).limit() == old(self).limit(),
    {
        match self.find(address) {
            Some(at) => {
                proof {
                    lemma_map_of_index(self.slots@, at as int);
                    lemma_map_of_remove(self.slots@, at as int);
                }
                let slot = self.slots.remove(at);
                Some(slot.1)
            },
            None => {
                proof {
                    assert(self.cache().remove(*address) =~= self.cache());
                }
                None
            },
        }
    }

    /// Decodes one read buffer of the connection with `address`: the first
    /// `total_len` bytes of `all_bytes`, which follow what the entry's frame
    /// holds. Returns the frames that the buffer completed, and leaves in
    /// the entry the frame that it started and did not complete. Where the
    /// buffer's last byte ended a frame, the entry keeps its socket and holds
    /// no frame, so that nothing of a frame that was handed on can show in
    /// the next. Returns `None`, and does nothing, where `address` has no
    /// entry.
    pub fn decode(&mut self, address: &PeerAddress, all_bytes: &Vec<u8>, total_len: usize) -> (out:
        Option<Decoded>)
        requires
            old(self).wf(),
            total_len <= all_bytes.len(),
        ensures
            final(self).wf(),
            out is Some <==> old(self).has(*address),
            out is None ==> final(self).cache() == old(self).cache(),
            out matches Some(decoded) ==> {
                let entry = old(self).cache()[*address];
                let left = final(self).cache()[*address];
                let cut = split_frames(
                    pending_bytes(entry.data) + all_bytes@.take(total_len as int),
                    old(self).limit(),
                );
                &&& wire_of(decoded.frames@) == cut.frames
                &&& decoded.violation == (cut.rest is None)
                &&& forall|i: int|
                    0 <= i < decoded.frames.len() ==> delivered_ok(
                        #[trigger] decoded.frames[i],
                        old(self).limit(),
                    )
                &&& final(self).cache() == old(self).cache().insert(*address, left)
                &&& left.stream == entry.stream
                &&& cut.rest matches Some(rest) ==> pending_bytes(left.data) == rest
                &&& left.data is None <==> (cut.rest matches Some(rest) ==> rest.len() == 0)
                &&& pending_ok(left.data, old(self).limit())
            },
            final(self).limit() == old(self).limit(),
    {
        let ghost held = self.slots@;
        match self.find(address) {
            Some(at) => {
                proof {
                    lemma_map_of_index(held, at as int);
                    assert forall|entry: ProtocolCacheData<S>| true implies map_of(
                        #[trigger] held.update(at as int, (*address, entry)),
                    ) == map_of(held).insert(*address, entry) && distinct(
                        held.update(at as int, (*address, entry)),
                    ) by {
                        lemma_map_of_update(held, at as int, entry);
                    }
                }
                let max_data_len: u32 = self.max_data_len;
                let decoded = decode_buffer(
                    &mut self.slots[at].1.data,
                    all_bytes,
                    total_len,
                    max_data_len,
                );
                proof {
                    assert(self.slots@ =~= held.update(at as int, (*address, self.slots@[at as int].1)));
                    lemma_map_of_index(self.slots@, at as int);
                }
                Some(decoded)
            },
            None => None,
        }
    }

    /// Ends a read of the connection with `address`, and drops the entry of
    /// a connection that is not kept, socket and frame. `existed` says
    /// whether the address had an entry before the read, `total_len` how
    /// many bytes were read, `error` what serving stopped on, `write_failed`
    /// whether a reply could not be written. Returns whether the entry was
    /// kept.
    pub fn finish_read(
        &mut self,
        address: &PeerAddress,
        existed: bool,
        total_len: usize,
        error: Option<ErrorKind>,
        write_failed: bool,
    ) -> (kept: bool)
        requires
            old(self).wf(),
        ensures
            final(self).wf(),
            final(self).limit() == old(self).limit(),
            kept == entry_kept(existed, total_len as nat, error, write_failed),
            final(self).cache() == (if kept {
                old(self).cache()
            } else {
                old(self).cache().remove(*address)
            }),
    {
        let kept = connection_survives(error, write_failed) && (total_len > 0 || existed);
        if !kept {
            let _ = self.remove(address);
        }
        kept
    }
}

} // verus!
