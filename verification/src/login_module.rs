//! Login: the request and the response that travel as payloads, the envelope
//! of a business outcome, and the handler that routes a login message to the
//! server's or the client's login module.

use vstd::prelude::*;

use crate::address::PeerAddress;
use crate::errors_define::ErrorKind;

verus! {

/// What a client sends to log in.
#[derive(Debug, Clone, PartialEq, Eq)]
pub struct LoginReqData {
    pub account: String,
    pub pwd: String,
}

/// What the server answers to a login that it accepts.
#[derive(Debug, Clone, PartialEq, Eq)]
pub struct LoginRespData {
    pub user_id: i32,
    pub account: String,
    pub token: String,
}

/// The outcome of a business request: a success with its data, or a failure
/// with a message.
#[derive(Debug, Clone, PartialEq, Eq)]
pub struct BizResult<T> {
    /// Whether the request succeeded.
    pub is_success: bool,
    /// Why the request failed; present on failure only.
    pub msg: Option<String>,
    /// What the request yielded; present on success only.
    pub data: Option<T>,
}

impl<T> BizResult<T> {
    /// Whether the envelope is in order: a success carries data and no
    /// message, a failure a message and no data.
    pub open spec fn wf(self) -> bool {
        &&& self.is_success <==> self.data is Some
        &&& self.is_success <==> self.msg is None
    }

    /// The envelope of a request that yielded `data`.
    pub fn success(data: T) -> (result: Self)
        ensures
            result == (BizResult::<T> { is_success: true, msg: None, data: Some(data) }),
            result.wf(),
    {
        BizResult { is_success: true, msg: None, data: Some(data) }
    }

    /// Whether the envelope is a failure whose message reads `msg`.
    pub open spec fn is_failure(self, msg: Seq<char>) -> bool {
        &&& !self.is_success
        &&& self.data is None
        &&& self.msg matches Some(text)
        &&& text@ == msg
    }

    /// The envelope of a request that failed for the reason `msg`.
    pub fn failure(msg: String) -> (result: Self)
        ensures
            result == (BizResult::<T> { is_success: false, msg: Some(msg), data: None }),
            result.wf(),
    {
        BizResult { is_success: false, msg: Some(msg), data: None }
    }

    /// The envelope of what a business module returned: a success with the
    /// data, or a failure with the message.
    pub open spec fn of_result(outcome: Result<T, String>) -> Self {
        match outcome {
            Ok(data) => BizResult::<T> { is_success: true, msg: None, data: Some(data) },
            Err(msg) => BizResult::<T> { is_success: false, msg: Some(msg), data: None },
        }
    }

    /// The envelope of what a business module returned.
    pub fn from_result(outcome: Result<T, String>) -> (result: Self)
        ensures
            result == Self::of_result(outcome),
            result.wf(),
    {
        match outcome {
            Ok(data) => Self::success(data),
            Err(msg) => Self::failure(msg),
        }
    }
}

/// Whether a login message is a request or a response.
#[derive(Debug, Clone, Copy, PartialEq, Eq, Structural)]
pub enum LoginTypeEnum {
    Req,
    Resp,
}

/// The body of a login message.
#[derive(Debug, Clone, PartialEq, Eq)]
pub enum LoginDataEnum {
    ReqData(LoginReqData),
    RespData(BizResult<LoginRespData>),
}

/// A login message: the payload of a frame with the login command.
#[derive(Debug, Clone, PartialEq, Eq)]
pub struct BizLoginData {
    pub login_type: LoginTypeEnum,
    pub data: LoginDataEnum,
}

/// The server's side of login: it decides on a login request.
pub trait ServerLoginModule {
    /// What the module promises of its decisions: whether, as it stands, it
    /// may decide `decision` on the request `req` that `address` sent, and
    /// be left as `after`. A module that promises nothing leaves this as it
    /// is, and may decide anything. The login handler passes the promise on.
    open spec fn may_decide(
        &self,
        req: LoginReqData,
        address: PeerAddress,
        decision: Result<LoginRespData, String>,
        after: &Self,
    ) -> bool {
        true
    }

    /// Decides on the login request `req`, which `address` sent: the account
    /// that is logged in, or why the login is refused.
    fn handle_login_req(&mut self, req: LoginReqData, address: PeerAddress) -> (decision: Result<
        LoginRespData,
        String,
    >)
        ensures
            old(self).may_decide(req, address, decision, final(self)),
    ;
}

/// The client's side of login: it takes note of the server's answer.
pub trait ClientLoginModule {
    /// What the module promises of the note it takes: whether, as it stands,
    /// it may be left as `after` once it has been handed the answer `resp`.
    /// A module that promises nothing leaves this as it is, and may be left
    /// in any state. The login handler passes the promise on.
    open spec fn may_note(&self, resp: BizResult<LoginRespData>, after: &Self) -> bool {
        true
    }

    /// Takes note of the server's answer to a login request.
    fn handle_login_biz_resp(&mut self, resp: BizResult<LoginRespData>)
        ensures
            old(self).may_note(resp, final(self)),
    ;
}

/// The handler of login messages. On a server it holds the server's login
/// module, on a client the client's.
pub struct DefaultLoginHandler<SM, CM> {
    /// Whether this is the handler of a server.
    pub server_flg: bool,
    pub server: Option<SM>,
    pub client: Option<CM>,
}

/// Whether the body of a login message is the one that its type announces.
pub open spec fn login_matches(login: BizLoginData) -> bool {
    match login.login_type {
        LoginTypeEnum::Req => login.data is ReqData,
        LoginTypeEnum::Resp => login.data is RespData,
    }
}

impl<SM: ServerLoginModule, CM: ClientLoginModule> DefaultLoginHandler<SM, CM> {
    /// A handler with the given modules.
    pub fn new(server_flg: bool, server: Option<SM>, client: Option<CM>) -> (handler: Self)
        ensures
            handler.server_flg == server_flg,
            handler.server == server,
            handler.client == client,
    {
        DefaultLoginHandler { server_flg, server, client }
    }

    /// What the handler answers to a payload that is no login message. On a
    /// server a login message is a request, and a request is answered: the
    /// answer is a failure that says so. On a client it is a response, and
    /// nothing is answered.
    pub fn handle_undecodable(&self) -> (answer: Option<BizResult<LoginRespData>>)
        ensures
            self.server_flg ==> (answer matches Some(result) && result.wf() && result.is_failure(
                "不支持的login数据类型!"@,
            )),
            !self.server_flg ==> answer is None,
    {
        if self.server_flg {
            Some(BizResult::failure("不支持的login数据类型!".to_owned()))
        } else {
            None
        }
    }

    /// Routes a login message that `address` sent.
    ///
    /// A request is answered, whatever happens. It goes to the server's
    /// module, and what the module returns is the answer, in an envelope.
    /// Where the handler has no server's module, or the body is not a
    /// request, the answer is a failure that says so. No module runs then.
    ///
    /// A response is not answered. It goes to the client's module, which is
    /// left as it promises to be after that response. A response whose body
    /// is not a response is a `SerializationError`, and a response to a
    /// handler without client's module an `UnknownCommand`. No module runs
    /// then.
    pub fn handle_login(&mut self, address: PeerAddress, login: BizLoginData) -> (answer: Result<
        Option<BizResult<LoginRespData>>,
        ErrorKind,
    >)
        ensures
            login.login_type == LoginTypeEnum::Req ==> {
                &&& answer matches Ok(Some(result))
                &&& result.wf()
                &&& login_matches(login) && old(self).server is Some ==> (exists|
                    decision: Result<LoginRespData, String>,
                |
                    #[trigger] old(self).server->0.may_decide(
                        login.data->ReqData_0,
                        address,
                        decision,
                        &final(self).server->0,
                    ) && result == BizResult::<LoginRespData>::of_result(decision))
                &&& !login_matches(login) ==> result.is_failure("不支持的login数据类型!"@)
                &&& login_matches(login) && old(self).server is None ==> result.is_failure(
                    "ServerLoginModule is None!"@,
                )
                &&& !(login_matches(login) && old(self).server is Some)
                    ==> *final(self) == *old(self)
                &&& final(self).client == old(self).client
            },
            login.login_type == LoginTypeEnum::Resp ==> {
                &&& answer == (if !login_matches(login) {
                    Err::<Option<BizResult<LoginRespData>>, ErrorKind>(
                        ErrorKind::SerializationError,
                    )
                } else if old(self).client is None {
                    Err(ErrorKind::UnknownCommand)
                } else {
                    Ok(None)
                })
                &&& answer is Err ==> *final(self) == *old(self)
                &&& login_matches(login) && old(self).client is Some ==> old(
                    self,
                ).client->0.may_note(login.data->RespData_0, &final(self).client->0)
                &&& final(self).server == old(self).server
            },
            final(self).server_flg == old(self).server_flg,
            final(self).server is Some <==> old(self).server is Some,
            final(self).client is Some <==> old(self).client is Some,
    {
        let ghost mut decided: Option<Result<LoginRespData, String>> = None;
        let answer = match login.login_type {
            LoginTypeEnum::Req => match login.data {
                LoginDataEnum::ReqData(req) => match &mut self.server {
                    Some(server) => {
                        let resp = server.handle_login_req(req, address);
                        proof {
                            decided = Some(resp);
                        }
                        Ok(Some(BizResult::from_result(resp)))
                    },
                    None => Ok(Some(BizResult::failure("ServerLoginModule is None!".to_owned()))),
                },
                LoginDataEnum::RespData(_) => Ok(
                    Some(BizResult::failure("不支持的login数据类型!".to_owned())),
                ),
            },
            LoginTypeEnum::Resp => match login.data {
                LoginDataEnum::RespData(resp) => match &mut self.client {
                    Some(client) => {
                        client.handle_login_biz_resp(resp);
                        Ok(None)
                    },
                    None => Err(ErrorKind::UnknownCommand),
                },
                LoginDataEnum::ReqData(_) => Err(ErrorKind::SerializationError),
            },
        };
        proof {
            if decided is Some {
                assert(old(self).server->0.may_decide(
                    login.data->ReqData_0,
                    address,
                    decided->0,
                    &self.server->0,
                ));
            }
        }
        answer
    }
}

} // verus!
