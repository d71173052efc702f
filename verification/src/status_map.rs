//! Jira status -> Buzz workflow-state map.
//!
//! Current state only; transition history is not replayed.

use vstd::prelude::*;
use vstd::hash_map::StringHashMap;

verus! {

/// Maps a Jira status name to a Buzz workflow state.
pub struct StatusMap {
    states: StringHashMap<String>,
}

impl View for StatusMap {
    type V = Map<Seq<char>, Seq<char>>;

    closed spec fn view(&self) -> Map<Seq<char>, Seq<char>> {
        Map::new(|k: Seq<char>| self.states@.contains_key(k), |k: Seq<char>| self.states@[k]@)
    }
}

impl StatusMap {
    /// An empty status map.
    pub fn new() -> (m: Self)
        ensures
            m@ == Map::<Seq<char>, Seq<char>>::empty(),
    {
        let m = StatusMap { states: StringHashMap::new() };
        assert(m@ =~= Map::<Seq<char>, Seq<char>>::empty());
        m
    }

    /// Map the Jira status `jira_status` to the workflow state `state`.
    pub fn insert(&mut self, jira_status: String, state: String)
        ensures
            final(self)@ == old(self)@.insert(jira_status@, state@),
    {
        let ghost k = jira_status@;
        let ghost v = state@;
        self.states.insert(jira_status, state);
        assert(self@ =~= old(self)@.insert(k, v));
    }

    /// Resolve a Jira status to a Buzz workflow state, if mapped.
    pub fn state(&self, jira_status: &str) -> (r: Option<&str>)
        ensures
            match r {
                Some(s) => self@.contains_key(jira_status@) && s@ == self@[jira_status@],
                None => !self@.contains_key(jira_status@),
            },
    {
        match self.states.get(jira_status) {
            Some(s) => Some(s.as_str()),
            None => None,
        }
    }
}

impl Default for StatusMap {
    fn default() -> (m: Self)
        ensures
            m@ == Map::<Seq<char>, Seq<char>>::empty(),
    {
        StatusMap::new()
    }
}

/// A status mapped to a state resolves to that state, and mapping one status
/// leaves the resolution of every other status unchanged.
pub proof fn lemma_status_read_after_write(
    m: Map<Seq<char>, Seq<char>>,
    jira_status: Seq<char>,
    state: Seq<char>,
    other: Seq<char>,
)
    requires
        other != jira_status,
    ensures
        m.insert(jira_status, state).contains_key(jira_status),
        m.insert(jira_status, state)[jira_status] == state,
        m.insert(jira_status, state).contains_key(other) == m.contains_key(other),
        m.contains_key(other) ==> m.insert(jira_status, state)[other] == m[other],
{
}

} // verus!
