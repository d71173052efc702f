//! Importer configuration.

use vstd::prelude::*;
use vstd::hash_map::StringHashMap;

verus! {

/// Top-level importer config. Paths are carried as strings.
pub struct Config {
    /// Products to migrate: Jira project key -> Buzz channel id.
    pub products: Vec<ProductMap>,
    /// JQL selecting the open items to migrate. Default excludes Done.
    pub selection_jql: String,
    /// Path to the Jira accountId -> Nostr pubkey identity map.
    pub identity_map: String,
    /// Path to the Jira status -> Buzz workflow-state map.
    pub status_map: String,
    /// Relay base URL.
    pub relay_url: String,
    /// Dedup read strategy.
    pub dedup: DedupMode,
    /// Transport for emit and dedup.
    pub transport: Transport,
    /// Concurrency and backoff.
    pub throttle: Throttle,
    /// When true, compute and log payloads but emit nothing.
    pub dry_run: bool,
    /// Append-only ledger path (idempotency and resume).
    pub ledger: String,
    /// Workflow-state name -> Buzz workflow UUID, for status seeding.
    pub workflow_ids: StringHashMap<String>,
}

impl Config {
    /// A config with the given settings and no workflow ids.
    pub fn new(
        products: Vec<ProductMap>,
        selection_jql: String,
        identity_map: String,
        status_map: String,
        relay_url: String,
        dedup: DedupMode,
        transport: Transport,
        throttle: Throttle,
        dry_run: bool,
        ledger: String,
    ) -> (c: Config)
        ensures
            c.products == products,
            c.selection_jql == selection_jql,
            c.identity_map == identity_map,
            c.status_map == status_map,
            c.relay_url == relay_url,
            c.dedup == dedup,
            c.transport == transport,
            c.throttle == throttle,
            c.dry_run == dry_run,
            c.ledger == ledger,
            c.workflow_ids@ == Map::<Seq<char>, String>::empty(),
    {
        Config {
            products,
            selection_jql,
            identity_map,
            status_map,
            relay_url,
            dedup,
            transport,
            throttle,
            dry_run,
            ledger,
            workflow_ids: StringHashMap::new(),
        }
    }

    /// Record the Buzz workflow UUID of a workflow-state name.
    pub fn set_workflow_id(&mut self, state: String, id: String)
        ensures
            final(self).workflow_ids@ == old(self).workflow_ids@.insert(state@, id),
            final(self).products == old(self).products,
            final(self).selection_jql == old(self).selection_jql,
            final(self).identity_map == old(self).identity_map,
            final(self).status_map == old(self).status_map,
            final(self).relay_url == old(self).relay_url,
            final(self).dedup == old(self).dedup,
            final(self).transport == old(self).transport,
            final(self).throttle == old(self).throttle,
            final(self).dry_run == old(self).dry_run,
            final(self).ledger == old(self).ledger,
    {
        self.workflow_ids.insert(state, id);
    }
}

/// One product's Jira project -> Buzz channel mapping.
#[derive(Debug, Clone)]
pub struct ProductMap {
    /// Jira project key, e.g. "UFX".
    pub jira: String,
    /// Buzz channel id the items root into.
    pub channel: String,
}

/// Dedup read strategy. Relay REQ is the default; Postgres is a fallback only.
#[derive(Debug, Clone, Copy, PartialEq, Eq, Structural)]
pub enum DedupMode {
    /// Relay REQ with `kinds` + `#t` filter.
    Req,
    /// Direct read-only Postgres containment query.
    Postgres,
}

impl Default for DedupMode {
    fn default() -> (d: Self)
        ensures
            d == DedupMode::Req,
    {
        DedupMode::Req
    }
}

/// Emit and dedup transport.
#[derive(Debug, Clone, Copy, PartialEq, Eq, Structural)]
pub enum Transport {
    /// HTTP bridge: `POST /events`, `POST /query`, `POST /count`.
    Http,
    /// WebSocket.
    Ws,
}

impl Default for Transport {
    fn default() -> (t: Self)
        ensures
            t == Transport::Http,
    {
        Transport::Http
    }
}

/// Concurrency and backoff knobs.
#[derive(Debug, Clone, Copy, PartialEq, Eq, Structural)]
pub struct Throttle {
    pub concurrency: usize,
    pub backoff_ms: u64,
    pub max_retries: u32,
}

impl Default for Throttle {
    fn default() -> (t: Self)
        ensures
            t.concurrency == 2,
            t.backoff_ms == 500,
            t.max_retries == 5,
    {
        Throttle { concurrency: 2, backoff_ms: 500, max_retries: 5 }
    }
}

/// The selection JQL used when the config names none: every item not in the
/// Done category, oldest first.
pub fn default_selection_jql() -> (s: String)
    ensures
        s@ == "statusCategory != Done ORDER BY created ASC"@,
{
    String::from_str("statusCategory != Done ORDER BY created ASC")
}

/// The ledger path used when the config names none.
pub fn default_ledger() -> (s: String)
    ensures
        s@ == "import-ledger.jsonl"@,
{
    String::from_str("import-ledger.jsonl")
}

/// Configs are dry runs unless they say otherwise.
pub fn default_true() -> (b: bool)
    ensures
        b,
{
    true
}

} // verus!
