//! The user store: credential records of the collaborating user collection,
//! looked up only to authorize deletion. Comparison is exact on both fields.

use vstd::prelude::*;
use vstd::string::*;

use crate::store::str_eq;

verus! {

/// One credential record: a username and password pair.
pub struct Credential {
    pub username: String,
    pub password: String,
}

/// The mathematical image of one credential record.
pub ghost struct Account {
    pub username: Seq<char>,
    pub password: Seq<char>,
}

impl View for Credential {
    type V = Account;

    open spec fn view(&self) -> Account {
        Account { username: self.username@, password: self.password@ }
    }
}

/// Some record of `us` matches `(u, p)` exactly.
pub open spec fn has_credential(us: Seq<Account>, u: Seq<char>, p: Seq<char>) -> bool {
    exists|i: int|
        0 <= i < us.len() && (#[trigger] us[i]).username == u && us[i].password == p
}

/// The collection of credential records.
pub struct UserStore {
    users: Vec<Credential>,
}

impl View for UserStore {
    type V = Seq<Account>;

    closed spec fn view(&self) -> Seq<Account> {
        self.users@.map_values(|c: Credential| c@)
    }
}

impl UserStore {
    /// An empty user store.
    pub fn new() -> (s: UserStore)
        ensures
            s@ == Seq::<Account>::empty(),
    {
        let s = UserStore { users: Vec::new() };
        proof {
            assert(s@ =~= Seq::<Account>::empty());
        }
        s
    }

    /// Append a credential record.
    pub fn add_user(&mut self, c: Credential)
        ensures
            final(self)@ == old(self)@.push(c@),
    {
        let ghost cv = c@;
        let ghost pre = self@;
        self.users.push(c);
        proof {
            assert(self@ =~= pre.push(cv));
        }
    }

    /// Exact-match credential lookup; no side effects.
    pub fn find_credential(&self, username: &str, password: &str) -> (r: Option<Credential>)
        ensures
            r is Some <==> has_credential(self@, username@, password@),
            r matches Some(c) ==> c.username@ == username@ && c.password@ == password@,
    {
        let n = self.users.len();
        let mut i: usize = 0;
        while i < n
            invariant
                n == self.users.len(),
                i <= n,
                forall|j: int|
                    0 <= j < i ==> !((#[trigger] self@[j]).username == username@
                        && self@[j].password == password@),
            decreases n - i,
        {
            if str_eq(self.users[i].username.as_str(), username) && str_eq(
                self.users[i].password.as_str(),
                password,
            ) {
                proof {
                    assert(self@[i as int].username == username@ && self@[i as int].password
                        == password@);
                    assert(has_credential(self@, username@, password@));
                }
                return Some(
                    Credential {
                        username: self.users[i].username.clone(),
                        password: self.users[i].password.clone(),
                    },
                );
            }
            i += 1;
        }
        None
    }
}

} // verus!
