//! The server's side of login: it turns what the account store found into
//! the answer to a login request, and keeps track of who is logged in from
//! where.

use std::collections::HashMap;
use vstd::prelude::*;

use crate::address::PeerAddress;
use crate::base::RchatCommand;
use crate::login_module::LoginRespData;
use crate::protocol_factory::HandleProtocolFactory;

verus! {

/// An account as the account store keeps it.
#[derive(Debug, Clone, PartialEq, Eq)]
pub struct UserInfo {
    pub id: i32,
    pub name: String,
    pub pwd: String,
}

/// The address under which `account` stands in `logins`: that of the first
/// entry for the account.
spec fn address_in(logins: Seq<(String, PeerAddress)>, account: Seq<char>) -> Option<
    PeerAddress,
>
    decreases logins.len(),
{
    if logins.len() == 0 {
        None
    } else if logins[0].0@ == account {
        Some(logins[0].1)
    } else {
        address_in(logins.drop_first(), account)
    }
}

/// Entries for other accounts at the front do not matter.
proof fn lemma_address_in_skip(logins: Seq<(String, PeerAddress)>, account: Seq<char>, n: int)
    requires
        0 <= n <= logins.len(),
        forall|j: int| 0 <= j < n ==> logins[j].0@ != account,
    ensures
        address_in(logins, account) == address_in(logins.skip(n), account),
    decreases n,
{
    if n > 0 {
        lemma_address_in_skip(logins.drop_first(), account, n - 1);
        assert(logins.drop_first().skip(n - 1) =~= logins.skip(n));
    } else {
        assert(logins.skip(0) =~= logins);
    }
}

/// Changing the address of the first entry for an account changes what the
/// account stands under, and nothing else.
proof fn lemma_address_in_update(
    logins: Seq<(String, PeerAddress)>,
    at: int,
    address: PeerAddress,
    account: Seq<char>,
)
    requires
        0 <= at < logins.len(),
        forall|j: int| 0 <= j < at ==> logins[j].0@ != logins[at].0@,
    ensures
        address_in(logins.update(at, (logins[at].0, address)), account) == (if account
            == logins[at].0@ {
            Some(address)
        } else {
            address_in(logins, account)
        }),
    decreases at,
{
    let after = logins.update(at, (logins[at].0, address));
    if at > 0 {
        lemma_address_in_update(logins.drop_first(), at - 1, address, account);
        assert(after.drop_first() =~= logins.drop_first().update(
            at - 1,
            (logins[at].0, address),
        ));
    } else {
        assert(after.drop_first() =~= logins.drop_first());
    }
}

/// An entry at the end counts for its account only where the account has no
/// entry before it.
proof fn lemma_address_in_push(
    logins: Seq<(String, PeerAddress)>,
    entry: (String, PeerAddress),
    account: Seq<char>,
)
    ensures
        address_in(logins.push(entry), account) == (if address_in(logins, account) is Some {
            address_in(logins, account)
        } else if account == entry.0@ {
            Some(entry.1)
        } else {
            None
        }),
    decreases logins.len(),
{
    let after = logins.push(entry);
    if logins.len() > 0 {
        lemma_address_in_push(logins.drop_first(), entry, account);
        assert(after.drop_first() =~= logins.drop_first().push(entry));
    } else {
        assert(after.drop_first() =~= logins);
    }
}

/// Whether no account occurs twice among the entries.
spec fn distinct_accounts(logins: Seq<(String, PeerAddress)>) -> bool {
    forall|i: int, j: int| 0 <= i < j < logins.len() ==> logins[i].0@ != logins[j].0@
}

/// The server's login module. It keeps, for each account that logged in, the
/// address that the login came from: one entry for an account, which a later
/// login of the account overwrites.
pub struct DefaultServerLoginModule {
    login_cache: Vec<(String, PeerAddress)>,
}

impl DefaultServerLoginModule {
    /// Whether the module is in order: no account has two entries. Every
    /// module that [`Self::init`] made and that this module's functions
    /// worked on is.
    pub closed spec fn wf(self) -> bool {
        distinct_accounts(self.login_cache@)
    }

    /// The address that `account` last logged in from, if it logged in.
    pub closed spec fn login_address(self, account: Seq<char>) -> Option<PeerAddress> {
        address_in(self.login_cache@, account)
    }

    /// A module in which nobody is logged in.
    pub fn init() -> (module: Self)
        ensures
            module.wf(),
            forall|account: Seq<char>| module.login_address(account) is None,
    {
        DefaultServerLoginModule { login_cache: Vec::new() }
    }

    /// The place of the entry of `account`.
    fn find(&self, account: &String) -> (at: Option<usize>)
        ensures
            at matches Some(i) ==> i < self.login_cache.len() && self.login_cache[i as int].0@
                == account@ && self.login_address(account@) == Some(self.login_cache[i as int].1),
            at is None ==> self.login_address(account@) is None,
            forall|j: int|
                0 <= j < (if at is Some {
                    at->0 as int
                } else {
                    self.login_cache.len() as int
                }) ==> self.login_cache[j].0@ != account@,
    {
        let mut i: usize = 0;
        while i < self.login_cache.len()
            invariant
                i <= self.login_cache.len(),
                forall|j: int| 0 <= j < i ==> self.login_cache[j].0@ != account@,
            decreases self.login_cache.len() - i,
        {
            if self.login_cache[i].0 == *account {
                proof {
                    lemma_address_in_skip(self.login_cache@, account@, i as int);
                }
                return Some(i);
            }
            i += 1;
        }
        proof {
            lemma_address_in_skip(self.login_cache@, account@, i as int);
        }
        None
    }

    /// Notes that `account` is logged in from `address`; an earlier address
    /// of the account is forgotten.
    pub fn update_cache(&mut self, address: PeerAddress, account: String)
        requires
            old(self).wf(),
        ensures
            final(self).wf(),
            forall|other: Seq<char>|
                final(self).login_address(other) == (if other == account@ {
                    Some(address)
                } else {
                    old(self).login_address(other)
                }),
    {
        let ghost logins = self.login_cache@;
        match self.find(&account) {
            Some(at) => {
                proof {
                    assert forall|other: Seq<char>|
                        address_in(
                            logins.update(at as int, (logins[at as int].0, address)),
                            other,
                        ) == (if other == account@ {
                            Some(address)
                        } else {
                            address_in(logins, other)
                        }) by {
                        lemma_address_in_update(logins, at as int, address, other);
                    }
                }
                self.login_cache[at].1 = address;
                proof {
                    assert(self.login_cache@ =~= logins.update(
                        at as int,
                        (logins[at as int].0, address),
                    ));
                }
            },
            None => {
                proof {
                    assert forall|other: Seq<char>|
                        address_in(logins.push((account, address)), other) == (if other
                            == account@ {
                            Some(address)
                        } else {
                            address_in(logins, other)
                        }) by {
                        lemma_address_in_push(logins, (account, address), other);
                    }
                }
                self.login_cache.push((account, address));
            },
        }
    }

    /// The address that `account` last logged in from, if it logged in.
    pub fn find_address_by_account_from_cache(&self, account: &String) -> (address: Option<
        PeerAddress,
    >)
        ensures
            address == self.login_address(account@),
    {
        match self.find(account) {
            Some(at) => Some(self.login_cache[at].1),
            None => None,
        }
    }

    /// Decides on a login request from `address`, given what the account
    /// store `found` for the request's account and password. An account that
    /// was found is logged in: the answer names it, with a token, and the
    /// module notes where it logged in from. Where no account was found, or
    /// the store failed, the login is refused with a message and nothing is
    /// noted.
    pub fn handle_login_req(
        &mut self,
        found: Result<Option<UserInfo>, String>,
        address: PeerAddress,
    ) -> (answer: Result<LoginRespData, String>)
        requires
            old(self).wf(),
        ensures
            final(self).wf(),
            match found {
                Ok(Some(model)) => {
                    &&& answer matches Ok(resp)
                    &&& resp.user_id == model.id
                    &&& resp.account == model.name
                    &&& resp.token@ == "token"@
                    &&& forall|other: Seq<char>|
                        final(self).login_address(other) == (if other == model.name@ {
                            Some(address)
                        } else {
                            old(self).login_address(other)
                        })
                },
                Ok(None) => {
                    &&& answer matches Err(msg)
                    &&& msg@ == "login fail : account of password err !"@
                    &&& *final(self) == *old(self)
                },
                Err(e) => answer == Err::<LoginRespData, String>(e) && *final(self) == *old(self),
            },
    {
        match found {
            Ok(t) => {
                match t {
                    Some(model) => {
                        let token = "token".to_owned();
                        let resp = LoginRespData {
                            user_id: model.id,
                            account: model.name.clone(),
                            token,
                        };
                        self.update_cache(address, model.name);
                        Ok(resp)
                    },
                    None => Err("login fail : account of password err !".to_owned()),
                }
            },
            Err(e) => Err(e),
        }
    }
}

/// The server's handler of login requests. It keeps, for each user that
/// logged in, the address that the login came from.
pub struct ServerLoginHandler {
    login_record: HashMap<i32, PeerAddress>,
}

impl ServerLoginHandler {
    /// The addresses by the user that logged in from them.
    pub closed spec fn login_record(self) -> Map<i32, PeerAddress> {
        self.login_record@
    }

    /// A handler for which nobody is logged in.
    pub fn new() -> (handler: Self)
        ensures
            handler.login_record() == Map::<i32, PeerAddress>::empty(),
    {
        ServerLoginHandler { login_record: HashMap::new() }
    }

    /// Notes that the user `uid` is logged in from `address`. Returns
    /// whether the note was made, which it always is.
    pub fn create_login_record(&mut self, uid: i32, address: PeerAddress) -> (noted: bool)
        ensures
            noted,
            final(self).login_record() == old(self).login_record().insert(uid, address),
    {
        broadcast use vstd::std_specs::hash::group_hash_axioms;

        self.login_record.insert(uid, address);
        true
    }

    /// Decides on a login request from `address`, given the account that the
    /// account store `found` for the request's account and password, if any.
    /// An account that was found is logged in: the answer names it, with a
    /// token, and the handler notes where the user logged in from. Where no
    /// account was found, nothing is answered and nothing is noted.
    pub fn handle_login(&mut self, found: Option<UserInfo>, address: PeerAddress) -> (answer:
        Option<LoginRespData>)
        ensures
            match found {
                Some(t) => {
                    &&& answer matches Some(data)
                    &&& data.user_id == t.id
                    &&& data.account == t.name
                    &&& data.token@ == "1234"@
                    &&& final(self).login_record() == old(self).login_record().insert(
                        t.id,
                        address,
                    )
                },
                None => answer is None && final(self).login_record() == old(self).login_record(),
            },
    {
        match found {
            None => None,
            Some(t) => {
                let data = LoginRespData { user_id: t.id, account: t.name, token: "1234".to_owned() };
                if !self.create_login_record(t.id, address) {
                    return None;
                }
                Some(data)
            },
        }
    }
}

/// The table of handlers of a server: one handler each for login, chat and
/// peer-to-peer messages.
pub fn create_factory<H>(login: H, chat: H, p2p: H) -> (factory: HandleProtocolFactory<H>)
    ensures
        factory.handlers() == Map::<RchatCommand, H>::empty().insert(
            RchatCommand::Login,
            login,
        ).insert(RchatCommand::Chat, chat).insert(RchatCommand::P2p, p2p),
{
    let mut factory = HandleProtocolFactory::new();
    let _ = factory.registry_handler(RchatCommand::Login, login);
    let _ = factory.registry_handler(RchatCommand::Chat, chat);
    let _ = factory.registry_handler(RchatCommand::P2p, p2p);
    factory
}

} // verus!
