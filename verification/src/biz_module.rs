//! The business module: it takes a complete frame and hands the payload to
//! the business that the frame's type names.

use vstd::prelude::*;

use crate::address::PeerAddress;
use crate::chat_protocol::Protocol;
use crate::errors_define::ErrorKind;
use crate::protocol_factory::HandlerProtocolData;

verus! {

/// The number of business types.
pub const BIZ_TYPE_COUNT: u8 = 3;

/// The kinds of business that a frame can carry. A kind travels as its
/// ordinal, so the order of this list is part of the wire format.
#[derive(Debug, Clone, Copy, PartialEq, Eq, Hash, Structural)]
pub enum BizTypeEnum {
    Login,
    Chat,
    P2p,
}

impl BizTypeEnum {
    /// The byte that stands for the kind on the wire.
    pub open spec fn ordinal(self) -> u8 {
        match self {
            BizTypeEnum::Login => 0,
            BizTypeEnum::Chat => 1,
            BizTypeEnum::P2p => 2,
        }
    }

    /// The type field of a frame that carries this kind of business.
    pub fn to_data_type(self) -> (field: Vec<u8>)
        ensures
            field@ == seq![self.ordinal()],
    {
        let v: u8 = match self {
            BizTypeEnum::Login => 0,
            BizTypeEnum::Chat => 1,
            BizTypeEnum::P2p => 2,
        };
        let mut field: Vec<u8> = Vec::new();
        field.push(v);
        field
    }

    /// The kind that the byte `b` stands for.
    pub fn to_self(b: u8) -> (kind: Self)
        requires
            b < BIZ_TYPE_COUNT,
        ensures
            kind.ordinal() == b,
    {
        match b {
            0 => BizTypeEnum::Login,
            1 => BizTypeEnum::Chat,
            _ => BizTypeEnum::P2p,
        }
    }
}

/// A business module that knows login and nothing else yet.
pub struct DefaultBizModule<L> {
    pub login: Option<L>,
}

impl<L: HandlerProtocolData> DefaultBizModule<L> {
    /// A module with the given login business, or with none.
    pub fn init(login: Option<L>) -> (module: Self)
        ensures
            module.login == login,
    {
        DefaultBizModule { login }
    }

    /// Hands the payload of the frame `pkg`, which `address` sent, to the
    /// business that the frame's type names, and returns what it answers.
    ///
    /// A frame that is not complete is a `ProtocolViolation`. A type byte
    /// that names no business, or one that the module does not know (all but
    /// login, and login too where the module has none) is an
    /// `UnknownCommand`. Nothing runs then.
    pub fn handle_pkg(&mut self, pkg: &Protocol, address: PeerAddress) -> (answer: Result<
        Option<Vec<u8>>,
        ErrorKind,
    >)
        ensures
            answer is Ok <==> pkg.is_complete() && pkg@.data_type[0] == BizTypeEnum::Login.ordinal()
                && old(self).login is Some,
            answer is Err ==> answer->Err_0 == (if pkg.is_complete() {
                ErrorKind::UnknownCommand
            } else {
                ErrorKind::ProtocolViolation
            }),
            answer is Err ==> final(self).login == old(self).login,
            answer matches Ok(bytes) ==> old(self).login->0.may_answer(address, pkg@.data, bytes),
            final(self).login is Some <==> old(self).login is Some,
    {
        if !pkg.completion() {
            return Err(ErrorKind::ProtocolViolation);
        }
        let data_type: u8 = match &pkg.data_type {
            Some(field) => field[0],
            None => {
                proof {
                    assert(false);
                }
                0
            },
        };
        if data_type >= BIZ_TYPE_COUNT {
            return Err(ErrorKind::UnknownCommand);
        }
        let nothing: Vec<u8> = Vec::new();
        let data: &Vec<u8> = match &pkg.data {
            Some(field) => field,
            None => {
                proof {
                    assert(false);
                }
                &nothing
            },
        };
        match BizTypeEnum::to_self(data_type) {
            BizTypeEnum::Login => match &mut self.login {
                Some(login) => Ok(login.handle(address, data)),
                None => Err(ErrorKind::UnknownCommand),
            },
            _ => Err(ErrorKind::UnknownCommand),
        }
    }
}

} // verus!
