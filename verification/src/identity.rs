//! Jira accountId -> Nostr pubkey identity map.
//!
//! Mapped assignees and reporters become a `p` tag on the item. Unmapped
//! people never become a `p` tag.

use vstd::prelude::*;
use vstd::hash_map::StringHashMap;

verus! {

/// One person's mapping.
#[derive(Debug, Clone)]
pub struct Person {
    /// Nostr public key (hex or npub).
    pub pubkey: String,
    /// Display name.
    pub display: String,
}

/// The full identity map, keyed by Jira accountId.
pub struct IdentityMap {
    people: StringHashMap<Person>,
}

impl View for IdentityMap {
    type V = Map<Seq<char>, Person>;

    closed spec fn view(&self) -> Map<Seq<char>, Person> {
        self.people@
    }
}

impl IdentityMap {
    /// An empty identity map.
    pub fn new() -> (m: Self)
        ensures
            m@ == Map::<Seq<char>, Person>::empty(),
    {
        IdentityMap { people: StringHashMap::new() }
    }

    /// Map `account_id` to `person`, replacing an earlier mapping of it.
    pub fn insert(&mut self, account_id: String, person: Person)
        ensures
            final(self)@ == old(self)@.insert(account_id@, person),
    {
        self.people.insert(account_id, person);
    }

    /// Resolve a Jira accountId to a Nostr pubkey, if mapped.
    pub fn pubkey(&self, account_id: &str) -> (r: Option<&str>)
        ensures
            match r {
                Some(pk) => self@.contains_key(account_id@) && pk@ == self@[account_id@].pubkey@,
                None => !self@.contains_key(account_id@),
            },
    {
        match self.people.get(account_id) {
            Some(p) => Some(p.pubkey.as_str()),
            None => None,
        }
    }

    /// Resolve a Jira accountId to a display name, if known.
    pub fn display(&self, account_id: &str) -> (r: Option<&str>)
        ensures
            match r {
                Some(d) => self@.contains_key(account_id@) && d@ == self@[account_id@].display@,
                None => !self@.contains_key(account_id@),
            },
    {
        match self.people.get(account_id) {
            Some(p) => Some(p.display.as_str()),
            None => None,
        }
    }
}

impl Default for IdentityMap {
    fn default() -> (m: Self)
        ensures
            m@ == Map::<Seq<char>, Person>::empty(),
    {
        IdentityMap::new()
    }
}

/// A person mapped under an accountId is found under it: its pubkey and its
/// display name, and an accountId mapped later does not disturb another one.
pub proof fn lemma_identity_read_after_write(
    m: Map<Seq<char>, Person>,
    account_id: Seq<char>,
    person: Person,
    other: Seq<char>,
)
    requires
        other != account_id,
    ensures
        m.insert(account_id, person).contains_key(account_id),
        m.insert(account_id, person)[account_id].pubkey == person.pubkey,
        m.insert(account_id, person)[account_id].display == person.display,
        m.insert(account_id, person).contains_key(other) == m.contains_key(other),
        m.contains_key(other) ==> m.insert(account_id, person)[other] == m[other],
{
}

} // verus!
