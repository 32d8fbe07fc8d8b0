//! The client's side of login: it keeps the account that the server
//! confirmed.

use vstd::prelude::*;
use vstd::string::StringExecFns;

use crate::base::RchatCommand;
use crate::errors_define::r_error;
use crate::login_module::{
    BizResult, ClientLoginModule, DefaultLoginHandler, LoginRespData, ServerLoginModule,
};
use crate::protocol_factory::HandleProtocolFactory;

verus! {

/// The client's login module. It remembers the account of the last login
/// that the server confirmed, and knows where on disk that account is kept.
pub struct DefaultClientLoginModule {
    /// The directory in which accounts are kept.
    save_path: String,
    /// The account of the last confirmed login.
    cache_account_info: Option<LoginRespData>,
}

/// The file in which the directory `path` keeps `account`.
pub open spec fn account_file_of(path: Seq<char>, account: Seq<char>) -> Seq<char> {
    path + "/"@ + account
}

fn copy_account(data: &LoginRespData) -> (copy: LoginRespData)
    ensures
        copy == *data,
{
    LoginRespData {
        user_id: data.user_id,
        account: data.account.clone(),
        token: data.token.clone(),
    }
}

impl DefaultClientLoginModule {
    /// The directory in which accounts are kept.
    pub closed spec fn save_path(self) -> String {
        self.save_path
    }

    /// The account of the last confirmed login.
    pub closed spec fn cache_account_info(self) -> Option<LoginRespData> {
        self.cache_account_info
    }

    /// A module that keeps accounts in `save_path` and remembers none yet.
    pub fn new(save_path: String) -> (module: Self)
        ensures
            module.save_path() == save_path,
            module.cache_account_info() is None,
    {
        DefaultClientLoginModule { save_path, cache_account_info: None }
    }

    /// Whether the answer `resp` confirms a login: it is a success and
    /// carries the account. Such an answer is remembered, and is what the
    /// client keeps on disk.
    pub open spec fn is_confirmed(resp: BizResult<LoginRespData>) -> bool {
        resp.is_success && resp.data is Some
    }

    /// Whether the answer `resp` confirms a login.
    pub fn confirms(resp: &BizResult<LoginRespData>) -> (confirmed: bool)
        ensures
            confirmed == Self::is_confirmed(*resp),
    {
        resp.is_success && resp.data.is_some()
    }

    /// Remembers `resp` as the account that is logged in.
    pub fn handle_login_resp(&mut self, resp: LoginRespData)
        ensures
            final(self).cache_account_info() == Some(resp),
            final(self).save_path() == old(self).save_path(),
    {
        self.cache_account_info = Some(resp);
    }

    /// The account that is logged in, if there is one.
    pub fn get_login_cache_info(&self) -> (info: Option<LoginRespData>)
        ensures
            info == self.cache_account_info(),
    {
        match &self.cache_account_info {
            None => None,
            Some(t) => Some(copy_account(t)),
        }
    }

    /// Whether the token of the account that is logged in has run out. No
    /// token runs out yet. Without an account the question is a `LoginFail`.
    pub fn check_token_timeout(&self) -> (timeout: Result<bool, r_error>)
        ensures
            self.cache_account_info() is Some ==> timeout == Ok::<bool, r_error>(false),
            self.cache_account_info() is None ==> (timeout matches Err(r_error::LoginFail(msg))
                && msg@ == "账户信息为空!"@),
    {
        match &self.cache_account_info {
            None => Err(r_error::LoginFail("账户信息为空!".to_owned())),
            Some(_) => Ok(false),
        }
    }

    /// The file in which `account` is kept.
    pub fn account_file(&self, account: &String) -> (file_name: String)
        ensures
            file_name@ == account_file_of(self.save_path()@, account@),
    {
        let mut file_name = self.save_path.clone();
        file_name.append("/");
        file_name.append(account.as_str());
        file_name
    }
}

impl ClientLoginModule for DefaultClientLoginModule {
    /// The module remembers the account of a login that succeeded; a login
    /// that failed changes nothing. Where it keeps accounts never changes.
    open spec fn may_note(&self, resp: BizResult<LoginRespData>, after: &Self) -> bool {
        &&& after.save_path() == self.save_path()
        &&& after.cache_account_info() == (if Self::is_confirmed(resp) {
            resp.data
        } else {
            self.cache_account_info()
        })
    }

    /// Remembers the account of a login that succeeded; a login that failed
    /// changes nothing.
    fn handle_login_biz_resp(&mut self, resp: BizResult<LoginRespData>) {
        if Self::confirms(&resp) {
            match resp.data {
                Some(data) => self.handle_login_resp(data),
                None => {},
            }
        }
    }
}

/// The login handler of a client: it has the client's module and no
/// server's.
pub fn create_default_client_login_handler<SM: ServerLoginModule, CM: ClientLoginModule>(
    client_login: CM,
) -> (handler: DefaultLoginHandler<SM, CM>)
    ensures
        !handler.server_flg,
        handler.server is None,
        handler.client == Some(client_login),
{
    DefaultLoginHandler::new(false, None, Some(client_login))
}

/// The table of handlers of a client: `login_handler` for the login command,
/// and nothing else.
pub fn create_factory<H>(login_handler: H) -> (factory: HandleProtocolFactory<H>)
    ensures
        factory.handlers() == Map::<RchatCommand, H>::empty().insert(
            RchatCommand::Login,
            login_handler,
        ),
{
    let mut factory = HandleProtocolFactory::new();
    let _ = factory.registry_handler(RchatCommand::Login, login_handler);
    factory
}

} // verus!
