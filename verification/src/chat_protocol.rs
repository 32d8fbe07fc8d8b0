//! The frame: one protocol message as it travels on the wire.
//!
//! ```text
//! +---------+-----------+-------------+------------------+
//! | version | data_type | data_len    | data             |
//! | 1 byte  | 1 byte    | 4 bytes, BE | data_len bytes   |
//! +---------+-----------+-------------+------------------+
//! ```
//!
//! A [`Protocol`] keeps one accumulator per field, so that a frame can be
//! built up from a byte stream that delivers it in pieces of any size.

use vstd::arithmetic::div_mod::{
    lemma_div_denominator, lemma_fundamental_div_mod, lemma_fundamental_div_mod_converse,
};
use vstd::prelude::*;

use crate::errors_define::ErrorKind;

// The payloads that frames carry, at hand for whoever builds frames.
pub use crate::chat_module::{ChatContent, ChatData, ChatFileContent, ChatTextContent};
pub use crate::p2p_module::{GetIpV4Req, GetIpV4Resp, P2pData, P2pDataType};

verus! {

/// Number of bytes of the version field.
pub const VERSION_SIZE: usize = 1;

/// Number of bytes of the command field.
pub const DATA_TYPE_SIZE: usize = 1;

/// Number of bytes of the length field.
pub const DATA_LEN_SIZE: usize = 4;

/// Number of bytes that come before the payload.
pub const HEAD_SIZE: usize = 6;

/// The largest payload that the length field can announce.
pub const MAX_DATA_LEN: u64 = 0xFFFF_FFFF;

/// The number that four bytes spell in big-endian order.
pub open spec fn be_u32(b: Seq<u8>) -> nat
    recommends
        b.len() == 4,
{
    (b[0] as nat) * 0x100_0000 + (b[1] as nat) * 0x1_0000 + (b[2] as nat) * 0x100 + (b[3] as nat)
}

/// The four bytes that spell `n` in big-endian order.
pub open spec fn be_bytes(n: nat) -> Seq<u8>
    recommends
        n <= 0xFFFF_FFFF,
{
    seq![
        (n / 0x100_0000) as u8,
        ((n / 0x1_0000) % 0x100) as u8,
        ((n / 0x100) % 0x100) as u8,
        (n % 0x100) as u8,
    ]
}

/// Reading back the bytes written for a length gives that length.
pub proof fn lemma_be_u32_of_be_bytes(n: nat)
    requires
        n <= 0xFFFF_FFFF,
    ensures
        be_bytes(n).len() == 4,
        be_u32(be_bytes(n)) == n,
{
    let n = n as int;
    let q1 = n / 0x100;
    let q2 = n / 0x1_0000;
    let q3 = n / 0x100_0000;
    lemma_fundamental_div_mod(n, 0x100);
    lemma_fundamental_div_mod(q1, 0x100);
    lemma_fundamental_div_mod(q2, 0x100);
    lemma_div_denominator(n, 0x100, 0x100);
    lemma_div_denominator(n, 0x1_0000, 0x100);
    assert(q1 / 0x100 == q2);
    assert(q2 / 0x100 == q3);
    assert(q3 < 0x100);
}

/// Writing the number that four bytes spell gives those bytes again, and that
/// number fits in 32 bits.
pub proof fn lemma_be_bytes_of_be_u32(b: Seq<u8>)
    requires
        b.len() == 4,
    ensures
        be_u32(b) <= 0xFFFF_FFFF,
        be_bytes(be_u32(b)) == b,
{
    let n = be_u32(b);
    lemma_be_digits(b[0] as nat, b[1] as nat, b[2] as nat, b[3] as nat);
    assert(be_bytes(n)[0] == b[0]);
    assert(be_bytes(n)[1] == b[1]);
    assert(be_bytes(n)[2] == b[2]);
    assert(be_bytes(n)[3] == b[3]);
    assert(be_bytes(n) =~= b);
}

/// The digits of a number written in base 256 can be read back from it.
proof fn lemma_be_digits(b0: nat, b1: nat, b2: nat, b3: nat)
    requires
        b0 < 0x100,
        b1 < 0x100,
        b2 < 0x100,
        b3 < 0x100,
    ensures
        ({
            let n = b0 * 0x100_0000 + b1 * 0x1_0000 + b2 * 0x100 + b3;
            &&& n <= 0xFFFF_FFFF
            &&& n / 0x100_0000 == b0
            &&& (n / 0x1_0000) % 0x100 == b1
            &&& (n / 0x100) % 0x100 == b2
            &&& n % 0x100 == b3
        }),
{
    let n = (b0 * 0x100_0000 + b1 * 0x1_0000 + b2 * 0x100 + b3) as int;
    let m1 = (b0 * 0x100 + b1) as int;
    let m2 = (b0 * 0x1_0000 + b1 * 0x100 + b2) as int;
    lemma_fundamental_div_mod_converse(
        n,
        0x100_0000,
        b0 as int,
        (b1 * 0x1_0000 + b2 * 0x100 + b3) as int,
    );
    lemma_fundamental_div_mod_converse(n, 0x1_0000, m1, (b2 * 0x100 + b3) as int);
    lemma_fundamental_div_mod_converse(n, 0x100, m2, b3 as int);
    lemma_fundamental_div_mod_converse(m1, 0x100, b0 as int, b1 as int);
    lemma_fundamental_div_mod_converse(m2, 0x100, m1, b2 as int);
}

/// Reads four bytes as a big-endian unsigned number.
pub fn transform_array_of_u8_to_u32(x: [u8; 4]) -> (n: u32)
    ensures
        n == be_u32(x@),
{
    let b0: u32 = x[0] as u32;
    let b1: u32 = x[1] as u32;
    let b2: u32 = x[2] as u32;
    let b3: u32 = x[3] as u32;
    b0 * 0x100_0000 + b1 * 0x1_0000 + b2 * 0x100 + b3
}

/// The length field that announces `data` as payload.
pub fn calculate_len_by_data(data: &Vec<u8>) -> (len: Vec<u8>)
    requires
        data.len() <= MAX_DATA_LEN,
    ensures
        len@ == be_bytes(data.len() as nat),
        len.len() == DATA_LEN_SIZE,
        be_u32(len@) == data.len(),
{
    let n: usize = data.len();
    let mut len: Vec<u8> = Vec::with_capacity(4);
    len.push((n / 0x100_0000) as u8);
    len.push(((n / 0x1_0000) % 0x100) as u8);
    len.push(((n / 0x100) % 0x100) as u8);
    len.push((n % 0x100) as u8);
    proof {
        assert(len@ =~= be_bytes(n as nat));
        lemma_be_u32_of_be_bytes(n as nat);
    }
    len
}

/// The names of the fields that a frame header may carry. A [`Protocol`] has
/// the four that [`Protocol::get_all_filed_name`] lists; `source_id` and
/// `target_id` are reserved and no frame holds them yet.
#[allow(non_camel_case_types)]
#[derive(Clone, Copy, Debug, PartialEq, Eq, Structural)]
pub enum ProtocolFieldNameEnum {
    version,
    data_type,
    data_len,
    source_id,
    target_id,
    data,
}

impl ProtocolFieldNameEnum {
    /// Whether a [`Protocol`] has a field of this name.
    pub open spec fn is_frame_field(self) -> bool {
        self != ProtocolFieldNameEnum::source_id && self != ProtocolFieldNameEnum::target_id
    }
}

/// The bytes that a field accumulator holds; an absent accumulator holds none.
pub open spec fn field_bytes(field: Option<Vec<u8>>) -> Seq<u8> {
    match field {
        Some(bytes) => bytes@,
        None => Seq::empty(),
    }
}

/// What a frame holds, field by field.
pub struct FrameView {
    pub version: Seq<u8>,
    pub data_type: Seq<u8>,
    pub data_len: Seq<u8>,
    pub data: Seq<u8>,
}

impl FrameView {
    /// The frame that holds nothing yet.
    pub open spec fn empty() -> FrameView {
        FrameView {
            version: Seq::empty(),
            data_type: Seq::empty(),
            data_len: Seq::empty(),
            data: Seq::empty(),
        }
    }

    /// The bytes of the named field.
    pub open spec fn field(self, name: ProtocolFieldNameEnum) -> Seq<u8> {
        match name {
            ProtocolFieldNameEnum::version => self.version,
            ProtocolFieldNameEnum::data_type => self.data_type,
            ProtocolFieldNameEnum::data_len => self.data_len,
            ProtocolFieldNameEnum::data => self.data,
            _ => Seq::empty(),
        }
    }

    /// The fields one after the other, in wire order.
    pub open spec fn bytes(self) -> Seq<u8> {
        self.version + self.data_type + self.data_len + self.data
    }

    /// The number of bytes that the named field needs, where that is known:
    /// the payload has no size before the length field is complete.
    pub open spec fn required_size(self, name: ProtocolFieldNameEnum) -> Option<nat> {
        match name {
            ProtocolFieldNameEnum::version | ProtocolFieldNameEnum::data_type => Some(1nat),
            ProtocolFieldNameEnum::data_len => Some(4nat),
            ProtocolFieldNameEnum::source_id | ProtocolFieldNameEnum::target_id => Some(8nat),
            ProtocolFieldNameEnum::data => if self.data_len.len() == 4 {
                Some(be_u32(self.data_len))
            } else {
                None
            },
        }
    }

    /// Whether the named field holds exactly the bytes it needs.
    pub open spec fn is_filled(self, name: ProtocolFieldNameEnum) -> bool {
        self.required_size(name) == Some(self.field(name).len())
    }

    /// Whether all four fields hold exactly the bytes they need.
    pub open spec fn is_complete(self) -> bool {
        &&& self.version.len() == 1
        &&& self.data_type.len() == 1
        &&& self.data_len.len() == 4
        &&& self.data.len() == be_u32(self.data_len)
    }

    /// Whether the fields were filled in wire order and none holds more than
    /// it needs: a field holds bytes only once every field before it is
    /// complete.
    pub open spec fn wf(self) -> bool {
        &&& self.version.len() <= 1
        &&& self.data_type.len() <= 1
        &&& self.data_len.len() <= 4
        &&& self.version.len() < 1 ==> self.data_type.len() == 0
        &&& self.data_type.len() < 1 ==> self.data_len.len() == 0
        &&& self.data_len.len() < 4 ==> self.data.len() == 0
        &&& self.data_len.len() == 4 ==> self.data.len() <= be_u32(self.data_len)
    }

    /// The well-formed frame that has received exactly the bytes `s`, which
    /// are cut into fields at the header's fixed offsets.
    pub open spec fn from_bytes(s: Seq<u8>) -> FrameView {
        let n = s.len() as int;
        FrameView {
            version: s.subrange(0, if n < 1 { n } else { 1 }),
            data_type: s.subrange(if n < 1 { n } else { 1 }, if n < 2 { n } else { 2 }),
            data_len: s.subrange(if n < 2 { n } else { 2 }, if n < 6 { n } else { 6 }),
            data: s.subrange(if n < 6 { n } else { 6 }, n),
        }
    }
}

/// The frame on the wire that carries `data` under the given version and
/// command: the two bytes, the length of `data` in four bytes, and `data`.
pub open spec fn wire_frame(version: u8, command: u8, data: Seq<u8>) -> Seq<u8> {
    seq![version, command] + be_bytes(data.len()) + data
}

/// A complete frame is on the wire what [`wire_frame`] makes of its version,
/// its command and its payload.
pub proof fn lemma_complete_frame_on_wire(f: FrameView)
    requires
        f.wf(),
        f.is_complete(),
    ensures
        f.bytes() == wire_frame(f.version[0], f.data_type[0], f.data),
        f.data.len() <= 0xFFFF_FFFF,
{
    lemma_be_bytes_of_be_u32(f.data_len);
    assert(f.version =~= seq![f.version[0]]);
    assert(f.data_type =~= seq![f.data_type[0]]);
    assert(f.bytes() =~= wire_frame(f.version[0], f.data_type[0], f.data));
}

/// One protocol message, complete or under construction. Each field is an
/// accumulator of the bytes received for it so far. An accumulator that is
/// absent holds no bytes, and its field is not filled: the payload of a
/// message without payload is filled by an accumulator that is there and
/// empty. The view holds the bytes of each field; the contracts say apart
/// from it which accumulators are there.
#[derive(Debug, Clone, PartialEq, Eq)]
pub struct Protocol {
    /// Protocol version, one byte.
    pub version: Option<Vec<u8>>,
    /// Command of the payload, one byte.
    pub data_type: Option<Vec<u8>>,
    /// Number of payload bytes, four bytes in big-endian order.
    pub data_len: Option<Vec<u8>>,
    /// The payload, which the framing layer does not interpret.
    pub data: Option<Vec<u8>>,
}

impl View for Protocol {
    type V = FrameView;

    open spec fn view(&self) -> FrameView {
        FrameView {
            version: field_bytes(self.version),
            data_type: field_bytes(self.data_type),
            data_len: field_bytes(self.data_len),
            data: field_bytes(self.data),
        }
    }
}

/// The number of bytes that an accumulator holds.
fn field_len(field: &Option<Vec<u8>>) -> (n: usize)
    ensures
        n == field_bytes(*field).len(),
{
    match field {
        Some(bytes) => bytes.len(),
        None => 0,
    }
}

impl Protocol {
    /// The accumulator of the named field.
    pub open spec fn field(self, name: ProtocolFieldNameEnum) -> Option<Vec<u8>> {
        match name {
            ProtocolFieldNameEnum::version => self.version,
            ProtocolFieldNameEnum::data_type => self.data_type,
            ProtocolFieldNameEnum::data_len => self.data_len,
            ProtocolFieldNameEnum::data => self.data,
            _ => None,
        }
    }

    /// Whether the named field is filled: its accumulator is there and
    /// holds exactly the bytes that the field needs. An accumulator that is
    /// absent is not filled, even where the field needs no bytes.
    pub open spec fn is_filled(self, name: ProtocolFieldNameEnum) -> bool {
        self.field(name) is Some && self@.is_filled(name)
    }

    /// Whether the frame is complete: all four accumulators are there, and
    /// each holds exactly the bytes that its field needs.
    pub open spec fn is_complete(self) -> bool {
        &&& self@.is_complete()
        &&& self.version is Some
        &&& self.data_type is Some
        &&& self.data_len is Some
        &&& self.data is Some
    }

    /// The frame that has received nothing: no accumulator is there.
    pub open spec fn fresh() -> Protocol {
        Protocol { version: None, data_type: None, data_len: None, data: None }
    }

    /// A frame that has received nothing.
    pub fn create_new() -> (pkg: Self)
        ensures
            pkg == Self::fresh(),
            pkg@ == FrameView::empty(),
            pkg@.wf(),
            !pkg.is_complete(),
    {
        Protocol { version: None, data_type: None, data_len: None, data: None }
    }

    /// The names of a frame's fields, in wire order.
    pub fn get_all_filed_name() -> (names: [ProtocolFieldNameEnum; 4])
        ensures
            names@ == seq![
                ProtocolFieldNameEnum::version,
                ProtocolFieldNameEnum::data_type,
                ProtocolFieldNameEnum::data_len,
                ProtocolFieldNameEnum::data,
            ],
    {
        let names = [
            ProtocolFieldNameEnum::version,
            ProtocolFieldNameEnum::data_type,
            ProtocolFieldNameEnum::data_len,
            ProtocolFieldNameEnum::data,
        ];
        assert(names@ =~= seq![
            ProtocolFieldNameEnum::version,
            ProtocolFieldNameEnum::data_type,
            ProtocolFieldNameEnum::data_len,
            ProtocolFieldNameEnum::data,
        ]);
        names
    }

    /// The accumulator of the named field, if the frame has started it.
    pub fn get_field(&self, field_name: &ProtocolFieldNameEnum) -> (field: Option<&Vec<u8>>)
        requires
            field_name.is_frame_field(),
        ensures
            field is Some <==> self.field(*field_name) is Some,
            field is Some ==> *field->0 == self.field(*field_name)->0,
    {
        match field_name {
            ProtocolFieldNameEnum::version => self.version.as_ref(),
            ProtocolFieldNameEnum::data_type => self.data_type.as_ref(),
            ProtocolFieldNameEnum::data_len => self.data_len.as_ref(),
            _ => self.data.as_ref(),
        }
    }

    /// The payload size that the length field announces: the number that
    /// its four bytes spell in big-endian order. Before the length field is
    /// complete there is no such size, and asking for it is a
    /// `ProtocolViolation`.
    pub fn calculate_data_len(&self) -> (len: Result<usize, ErrorKind>)
        ensures
            len is Ok <==> self@.data_len.len() == 4,
            len is Ok ==> len->Ok_0 == be_u32(self@.data_len),
            len is Err ==> len->Err_0 == ErrorKind::ProtocolViolation,
    {
        match &self.data_len {
            Some(x) => {
                if x.len() == DATA_LEN_SIZE {
                    let value = [x[0], x[1], x[2], x[3]];
                    assert(value@ =~= x@);
                    Ok(transform_array_of_u8_to_u32(value) as usize)
                } else {
                    Err(ErrorKind::ProtocolViolation)
                }
            },
            None => Err(ErrorKind::ProtocolViolation),
        }
    }

    /// The number of bytes that the named field needs. The payload's size is
    /// what the length field announces, so asking for it before the length
    /// field is complete is an error and never yields a size.
    pub fn get_field_usize(&self, field_key: &ProtocolFieldNameEnum) -> (size: Result<
        usize,
        ErrorKind,
    >)
        ensures
            size is Ok <==> self@.required_size(*field_key) is Some,
            size is Ok ==> Some(size->Ok_0 as nat) == self@.required_size(*field_key),
            size is Err ==> size->Err_0 == ErrorKind::ProtocolViolation,
            size is Err <==> *field_key == ProtocolFieldNameEnum::data && self@.data_len.len()
                != 4,
    {
        match field_key {
            ProtocolFieldNameEnum::version | ProtocolFieldNameEnum::data_type => Ok(1),
            ProtocolFieldNameEnum::data_len => Ok(4),
            ProtocolFieldNameEnum::source_id | ProtocolFieldNameEnum::target_id => Ok(8),
            ProtocolFieldNameEnum::data => self.calculate_data_len(),
        }
    }

    /// Whether the named field is filled: its accumulator is there and
    /// holds exactly the bytes it needs. A payload whose size is not known
    /// yet is not filled.
    pub fn check_field_fill(&self, field_key: &ProtocolFieldNameEnum) -> (filled: bool)
        requires
            field_key.is_frame_field(),
        ensures
            filled == self.is_filled(*field_key),
            filled == (self.field(*field_key) is Some && self@.is_filled(*field_key)),
    {
        match self.get_field(field_key) {
            Some(field) => match self.get_field_usize(field_key) {
                Ok(size) => field.len() == size,
                Err(_) => false,
            },
            None => false,
        }
    }

    /// The accumulator slot of the named field.
    fn get_field_ref(&self, field_name: &ProtocolFieldNameEnum) -> (field: &Option<Vec<u8>>)
        requires
            field_name.is_frame_field(),
        ensures
            *field == self.field(*field_name),
            field_bytes(*field) == self@.field(*field_name),
    {
        match field_name {
            ProtocolFieldNameEnum::version => &self.version,
            ProtocolFieldNameEnum::data_type => &self.data_type,
            ProtocolFieldNameEnum::data_len => &self.data_len,
            _ => &self.data,
        }
    }

    /// Whether the frame is complete: all four accumulators are there, and
    /// each holds exactly the bytes that its field needs.
    pub fn completion(&self) -> (complete: bool)
        ensures
            complete == self.is_complete(),
            complete == (self@.is_complete() && self.version is Some && self.data_type is Some
                && self.data_len is Some && self.data is Some),
    {
        let names = Self::get_all_filed_name();
        let mut i: usize = 0;
        while i < 4
            invariant
                i <= 4,
                names@ == seq![
                    ProtocolFieldNameEnum::version,
                    ProtocolFieldNameEnum::data_type,
                    ProtocolFieldNameEnum::data_len,
                    ProtocolFieldNameEnum::data,
                ],
                forall|j: int| 0 <= j < i ==> self.is_filled(#[trigger] names@[j]),
            decreases 4 - i,
        {
            if !self.check_field_fill(&names[i]) {
                return false;
            }
            i += 1;
        }
        assert(self.is_filled(names@[0]));
        assert(self.is_filled(names@[1]));
        assert(self.is_filled(names@[2]));
        assert(self.is_filled(names@[3]));
        true
    }

    /// The number of bytes that the named field still lacks. This is an error
    /// where the field's size is not known yet (the payload before the length
    /// field is complete) or where the field already holds more than it needs.
    pub fn get_diff_size(&self, field_name: &ProtocolFieldNameEnum) -> (diff: Result<
        usize,
        ErrorKind,
    >)
        requires
            field_name.is_frame_field(),
        ensures
            diff is Ok <==> (self@.required_size(*field_name) is Some && self@.field(
                *field_name,
            ).len() <= self@.required_size(*field_name)->0),
            diff is Ok ==> diff->Ok_0 == self@.required_size(*field_name)->0 - self@.field(
                *field_name,
            ).len(),
            diff is Err ==> diff->Err_0 == ErrorKind::ProtocolViolation,
    {
        let held: usize = field_len(self.get_field_ref(field_name));
        match self.get_field_usize(field_name) {
            Ok(size) => {
                if held <= size {
                    Ok(size - held)
                } else {
                    Err(ErrorKind::ProtocolViolation)
                }
            },
            Err(e) => Err(e),
        }
    }

    /// The accumulator of the named field, for writing, if the frame has
    /// started it.
    pub fn get_field_mut(&mut self, field_name: &ProtocolFieldNameEnum) -> (field: Option<
        &mut Vec<u8>,
    >)
        requires
            field_name.is_frame_field(),
        ensures
            field is Some <==> old(self).field(*field_name) is Some,
            field is Some ==> *field->0 == old(self).field(*field_name)->0,
            field is Some ==> final(self).field(*field_name) == Some(*final(field->0)),
            field is None ==> final(self).field(*field_name) is None,
            forall|other: ProtocolFieldNameEnum|
                other != *field_name ==> final(self).field(other) == old(self).field(other),
    {
        match field_name {
            ProtocolFieldNameEnum::version => self.version.as_mut(),
            ProtocolFieldNameEnum::data_type => self.data_type.as_mut(),
            ProtocolFieldNameEnum::data_len => self.data_len.as_mut(),
            _ => self.data.as_mut(),
        }
    }

    /// Appends `bytes` to the named field, starting the field if the frame
    /// has not started it. The bytes are not checked against the field's
    /// size.
    pub fn fill_field(&mut self, field_name: &ProtocolFieldNameEnum, bytes: Vec<u8>)
        requires
            field_name.is_frame_field(),
        ensures
            final(self).field(*field_name) is Some,
            final(self)@.field(*field_name) == old(self)@.field(*field_name) + bytes@,
            forall|other: ProtocolFieldNameEnum|
                other != *field_name ==> final(self).field(other) == old(self).field(other),
    {
        let mut bytes = bytes;
        match self.get_field_mut(field_name) {
            Some(t) => {
                t.append(&mut bytes);
            },
            None => {
                let v = Some(bytes);
                match field_name {
                    ProtocolFieldNameEnum::version => self.version = v,
                    ProtocolFieldNameEnum::data_type => self.data_type = v,
                    ProtocolFieldNameEnum::data_len => self.data_len = v,
                    _ => self.data = v,
                }
            },
        }
    }

    /// The frame as it goes on the wire: the bytes of the four fields, in
    /// wire order. The bytes are moved out, so the frame holds none
    /// afterwards.
    ///
    /// All four accumulators must be there; that of a message without
    /// payload holds no bytes.
    pub fn to_vec(&mut self) -> (wire: Vec<u8>)
        requires
            old(self).version is Some,
            old(self).data_type is Some,
            old(self).data_len is Some,
            old(self).data is Some,
        ensures
            wire@ == old(self)@.bytes(),
            final(self)@ == FrameView::empty(),
            forall|name: ProtocolFieldNameEnum|
                final(self).field(name) is Some <==> old(self).field(name) is Some,
    {
        let mut v: Vec<u8> = Vec::new();
        match &mut self.version {
            Some(field) => v.append(field),
            None => {},
        }
        match &mut self.data_type {
            Some(field) => v.append(field),
            None => {},
        }
        match &mut self.data_len {
            Some(field) => v.append(field),
            None => {},
        }
        match &mut self.data {
            Some(field) => v.append(field),
            None => {},
        }
        v
    }
}

/// The number of [`ChatCommand`]s.
pub const CHAT_COMMAND_COUNT: u8 = 4;

/// The commands of the first version of the protocol, which tells a login
/// request from its response by the command. A command travels as its
/// ordinal, so the order of this list is part of that wire format.
#[allow(non_camel_case_types)]
#[derive(Clone, Copy, Debug, PartialEq, Eq, Hash, Structural)]
pub enum ChatCommand {
    Login_req,
    Login_resp,
    Chat,
    P2p,
}

impl ChatCommand {
    /// The byte that stands for the command on the wire.
    pub open spec fn ordinal(self) -> u8 {
        match self {
            ChatCommand::Login_req => 0,
            ChatCommand::Login_resp => 1,
            ChatCommand::Chat => 2,
            ChatCommand::P2p => 3,
        }
    }

    /// The command field of a frame that carries this command.
    pub fn to_data_type(self) -> (field: Vec<u8>)
        ensures
            field@ == seq![self.ordinal()],
    {
        let v: u8 = match self {
            ChatCommand::Login_req => 0,
            ChatCommand::Login_resp => 1,
            ChatCommand::Chat => 2,
            ChatCommand::P2p => 3,
        };
        let mut field: Vec<u8> = Vec::new();
        field.push(v);
        field
    }

    /// The command that the byte `b` stands for.
    pub fn to_self(b: u8) -> (command: Self)
        requires
            b < CHAT_COMMAND_COUNT,
        ensures
            command.ordinal() == b,
    {
        match b {
            0 => ChatCommand::Login_req,
            1 => ChatCommand::Login_resp,
            2 => ChatCommand::Chat,
            _ => ChatCommand::P2p,
        }
    }
}

} // verus!
