//! The credential gate: validates a login/password pair against the
//! known credentials, registering an unknown login on first contact.
//! The table models the external credential store; the caller owns
//! carrying registrations through to durable storage.
use vstd::prelude::*;
use vstd::string::StringExecFns;

use crate::kv::{distinct_keys, find_key, kv_map, lemma_kv_map};
use crate::strings::str_eq;

verus! {

/// The known credentials: one entry per login name.
pub struct CredentialTable {
    entries: Vec<(String, String)>,
}

impl View for CredentialTable {
    type V = Map<Seq<char>, Seq<char>>;

    /// The table as a map from login name to password.
    closed spec fn view(&self) -> Map<Seq<char>, Seq<char>> {
        kv_map(self.entries@)
    }
}

impl CredentialTable {
    /// The table never holds a login name twice.
    pub closed spec fn wf(&self) -> bool {
        distinct_keys(self.entries@)
    }

    /// A fresh table with no known credentials.
    pub fn new() -> (r: CredentialTable)
        ensures
            r.wf(),
            r@ == Map::<Seq<char>, Seq<char>>::empty(),
    {
        CredentialTable { entries: Vec::new() }
    }

    /// Loads one known credential pair, as read back from the
    /// external store; a login already present is left as it was.
    pub fn load_entry(&mut self, login: String, password: String) -> (loaded: bool)
        requires
            old(self).wf(),
        ensures
            final(self).wf(),
            loaded == !old(self)@.contains_key(login@),
            loaded ==> final(self)@ == old(self)@.insert(login@, password@),
            !loaded ==> final(self)@ == old(self)@,
    {
        proof {
            lemma_kv_map(self.entries@);
        }
        match find_key(&self.entries, login.as_str()) {
            Some(_) => false,
            None => {
                self.entries.push((login, password));
                proof {
                    assert(self.entries@.drop_last() =~= old(self).entries@);
                }
                true
            },
        }
    }

    /// The credential gate. An unknown login is registered with the
    /// offered password and accepted; a known login is accepted
    /// exactly when the offered password equals the stored one, and
    /// the stored one is never changed.
    pub fn validate_or_register(&mut self, login: &str, password: &str) -> (accepted: bool)
        requires
            old(self).wf(),
        ensures
            final(self).wf(),
            !old(self)@.contains_key(login@) ==> accepted && final(self)@ == old(self)@.insert(
                login@,
                password@,
            ),
            old(self)@.contains_key(login@) ==> final(self)@ == old(self)@ && accepted == (old(
                self,
            )@[login@] == password@),
            (final(self)@, accepted) == gate_outcome(old(self)@, login@, password@),
    {
        proof {
            lemma_kv_map(self.entries@);
        }
        match find_key(&self.entries, login) {
            Some(i) => str_eq(self.entries[i].1.as_str(), password),
            None => {
                self.entries.push((String::from_str(login), String::from_str(password)));
                proof {
                    assert(self.entries@.drop_last() =~= old(self).entries@);
                }
                true
            },
        }
    }

    /// Whether a login name already has a stored password.
    pub fn contains(&self, login: &str) -> (r: bool)
        requires
            self.wf(),
        ensures
            r == self@.contains_key(login@),
    {
        proof {
            lemma_kv_map(self.entries@);
        }
        match find_key(&self.entries, login) {
            Some(_) => true,
            None => false,
        }
    }
}

/// The law of the credential gate over its model: registering an
/// unknown login stores the offered pair and accepts it, and from
/// then on an offer for that login is accepted exactly when its
/// password matches the stored one, whatever else the table holds.
pub proof fn lemma_credential_gate(
    m: Map<Seq<char>, Seq<char>>,
    login: Seq<char>,
    password: Seq<char>,
    later: Seq<char>,
)
    requires
        !m.contains_key(login),
    ensures
        gate_outcome(m, login, password) == (m.insert(login, password), true),
        gate_outcome(m.insert(login, password), login, later) == (
            m.insert(login, password),
            later == password,
        ),
{
}

/// What `validate_or_register` does to a table in state `m`: the new
/// state and the verdict.
pub open spec fn gate_outcome(m: Map<Seq<char>, Seq<char>>, login: Seq<char>, password: Seq<char>) -> (
    Map<Seq<char>, Seq<char>>,
    bool,
) {
    if m.contains_key(login) {
        (m, m[login] == password)
    } else {
        (m.insert(login, password), true)
    }
}

} // verus!
