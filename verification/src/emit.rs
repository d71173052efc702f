//! Load stage: sign and emit events, and dedup via the relay.
//!
//! Events are `Kind::Custom(9)` stream messages signed by the single import
//! key. Transport is the HTTP bridge: `POST /events` to emit, `POST /query` to
//! dedup, each authenticated with a NIP-98 `Authorization` header. Dedup
//! queries must include `kinds`: an open-ended REQ is refused by the relay.
//! This module holds the encodings, signing and decisions; the network round
//! trips are made by the program around the library.

use vstd::prelude::*;

use crate::error::{result_view, ExitCode, ImportError};
use crate::text::{copy_opt, decimal, opt_view, prefixed, spec_decimal, spec_has_prefix, spec_hex_lower};
use crate::transform::{tag_view, tags_view, ItemPayload, RawTag};
use base64::Engine;
use vstd::utf8::encode_utf8;
use sha2::Digest;

verus! {

/// Kind of the stream messages that carry items and replies.
pub const MESSAGE_KIND: u16 = 9;

/// Kind of the NIP-98 HTTP authorization events.
pub const NIP98_KIND: u16 = 27235;

/// Result of emitting one item's payloads.
#[derive(Debug, Clone)]
pub struct EmitOutcome {
    /// The root event id (the Buzz item id).
    pub item_id: String,
    pub comments: usize,
    pub attachments: usize,
    pub seeded_state: Option<String>,
}

#[verifier::external_type_specification]
#[verifier::external_body]
pub struct ExKeys(nostr::Keys);

#[verifier::external_type_specification]
#[verifier::external_body]
pub struct ExNostrTag(nostr::Tag);

#[verifier::external_type_specification]
#[verifier::external_body]
pub struct ExEvent(nostr::Event);

#[verifier::external_type_specification]
#[verifier::external_body]
pub struct ExKeyError(nostr::key::Error);

#[verifier::external_type_specification]
#[verifier::external_body]
pub struct ExTagError(nostr::event::tag::Error);

#[verifier::external_type_specification]
#[verifier::external_body]
pub struct ExBuilderError(nostr::event::builder::Error);

#[verifier::external_type_specification]
#[verifier::external_body]
pub struct ExJsonValue(serde_json::Value);

#[verifier::external_type_specification]
#[verifier::external_body]
pub struct ExJsonError(serde_json::Error);

/// The strings a Nostr tag holds, in order.
pub uninterp spec fn nostr_tag_parts(t: nostr::Tag) -> Seq<Seq<char>>;

/// Whether `nostr::Keys::parse` accepts a secret: a valid secp256k1 secret key
/// written in hex or bech32. Its source decides this from the text alone.
pub uninterp spec fn spec_secret_key_parses(secret: Seq<char>) -> bool;

/// The public key (lowercase hex) of the secret key written in `secret`.
pub uninterp spec fn spec_secret_pubkey(secret: Seq<char>) -> Seq<char>;

/// Calls `nostr::Keys::parse`: parses a secret key (hex or bech32) into keys.
/// Whether it succeeds is the named verdict on the text, and the keys' public
/// key is the one derived from that secret.
#[verifier::external_body]
fn parse_keys(secret: &str) -> (r: Result<nostr::Keys, nostr::key::Error>)
    ensures
        r is Ok <==> spec_secret_key_parses(secret@),
        r matches Ok(k) ==> spec_keys_pubkey(k) == spec_secret_pubkey(secret@),
{
    nostr::Keys::parse(secret)
}

/// Calls `nostr::Tag::parse`. Its source fails exactly on an empty list and
/// otherwise keeps the given strings, in order, as the tag.
#[verifier::external_body]
fn parse_tag(parts: &Vec<String>) -> (r: Result<nostr::Tag, nostr::event::tag::Error>)
    ensures
        r is Err <==> parts@.len() == 0,
        r matches Ok(t) ==> nostr_tag_parts(t) == tag_view(*parts),
{
    nostr::Tag::parse(parts.iter().map(String::as_str))
}

/// The public key of a key pair, as lowercase hex.
pub uninterp spec fn spec_keys_pubkey(keys: nostr::Keys) -> Seq<char>;

/// The kind number of an event.
pub uninterp spec fn spec_event_kind(event: nostr::Event) -> u16;

/// The content of an event.
pub uninterp spec fn spec_event_content(event: nostr::Event) -> Seq<char>;

/// The tags of an event, each as its strings, in order.
pub uninterp spec fn spec_event_tags(event: nostr::Event) -> Seq<Seq<Seq<char>>>;

/// The author public key of an event, as lowercase hex.
pub uninterp spec fn spec_event_pubkey(event: nostr::Event) -> Seq<char>;

/// The id of an event, as lowercase hex.
pub uninterp spec fn spec_event_id(event: nostr::Event) -> Seq<char>;

/// The JSON text of an event.
pub uninterp spec fn spec_event_json(event: nostr::Event) -> Seq<char>;

/// The event's id is the hash of its content fields and its signature is a
/// valid Schnorr signature of that id by its author (what `Event::verify`
/// checks).
pub uninterp spec fn spec_event_verifies(event: nostr::Event) -> bool;

/// A `p` tag naming `pubkey`.
pub open spec fn spec_is_author_p_tag(t: Seq<Seq<char>>, pubkey: Seq<char>) -> bool {
    t.len() >= 2 && t[0] == "p"@ && t[1] == pubkey
}

/// The tags an event signed by `pubkey` keeps: all but `p` tags naming the
/// author, in order.
pub open spec fn spec_signed_tags(tags: Seq<Seq<Seq<char>>>, pubkey: Seq<char>) -> Seq<
    Seq<Seq<char>>,
> {
    tags.filter(|t: Seq<Seq<char>>| !spec_is_author_p_tag(t, pubkey))
}

/// The strings of each of a list of Nostr tags.
pub open spec fn nostr_tags_parts(tags: Seq<nostr::Tag>) -> Seq<Seq<Seq<char>>> {
    tags.map_values(|t: nostr::Tag| nostr_tag_parts(t))
}

/// Calls `EventBuilder::new(Kind::Custom(kind), content).tags(tags).sign_with_keys(keys)`.
/// Its source always succeeds (the event id it computes is checked against
/// itself, the signature is not re-verified) and gives an event of that kind
/// and content, authored by the keys' public key, carrying the given tags
/// except `p` tags that name the author (self-tagging is off by default), with
/// its id computed from those fields and signed by the keys. The timestamp
/// (the current time) and the signature's bytes (fresh randomness) are not
/// stated.
#[verifier::external_body]
fn sign_event(kind: u16, content: &str, tags: Vec<nostr::Tag>, keys: &nostr::Keys) -> (r: Result<
    nostr::Event,
    nostr::event::builder::Error,
>)
    ensures
        r is Ok,
        r matches Ok(ev) ==> spec_event_kind(ev) == kind && spec_event_content(ev) == content@
            && spec_event_pubkey(ev) == spec_keys_pubkey(*keys) && spec_event_tags(ev)
            == spec_signed_tags(nostr_tags_parts(tags@), spec_keys_pubkey(*keys))
            && spec_event_verifies(ev),
{
    nostr::EventBuilder::new(nostr::Kind::Custom(kind), content).tags(tags).sign_with_keys(keys)
}

/// Calls `serde_json::to_string` on an event (what nostr's `JsonUtil::as_json`
/// does). An event serializes as strings, numbers and lists only, so this
/// succeeds; the text is the named JSON of the event.
#[verifier::external_body]
fn event_json(event: &nostr::Event) -> (r: Result<String, serde_json::Error>)
    ensures
        r is Ok,
        r matches Ok(j) ==> j@ == spec_event_json(*event),
{
    serde_json::to_string(event)
}

/// Calls `EventId::to_hex` on an event's id: 32 bytes as 64 hex digits.
#[verifier::external_body]
fn event_id_hex(event: &nostr::Event) -> (r: String)
    ensures
        r@ == spec_event_id(*event),
        r@.len() == 64,
{
    event.id.to_hex()
}

/// Calls `uuid::Uuid::new_v4` and renders it hyphenated (36 characters).
#[verifier::external_body]
fn new_nonce() -> (r: String)
    ensures
        r@.len() == 36,
{
    uuid::Uuid::new_v4().to_string()
}

/// The SHA-256 digest of a byte string.
pub uninterp spec fn spec_sha256(data: Seq<u8>) -> Seq<u8>;

/// Calls `sha2::Sha256::digest`; the digest is 32 bytes.
#[verifier::external_body]
fn sha256(data: &[u8]) -> (r: Vec<u8>)
    ensures
        r@ == spec_sha256(data@),
        r@.len() == 32,
{
    sha2::Sha256::digest(data).to_vec()
}

/// Calls `hex::encode`, which writes each byte as two lowercase hex digits.
#[verifier::external_body]
fn hex_encode(data: &[u8]) -> (r: String)
    ensures
        r@ == spec_hex_lower(data@),
{
    hex::encode(data)
}

/// The character of a 6-bit value in the standard base64 alphabet
/// (`A-Z`, `a-z`, `0-9`, `+`, `/`).
pub open spec fn spec_base64_char(n: int) -> char {
    if n < 26 {
        (65 + n) as char
    } else if n < 52 {
        (97 + n - 26) as char
    } else if n < 62 {
        (48 + n - 52) as char
    } else if n == 62 {
        '+'
    } else {
        '/'
    }
}

/// Standard base64 with `=` padding: each group of three bytes becomes four
/// characters, and a final group of one or two bytes is padded to four.
pub open spec fn spec_base64(data: Seq<u8>) -> Seq<char>
    decreases data.len(),
{
    if data.len() == 0 {
        seq![]
    } else if data.len() == 1 {
        seq![
            spec_base64_char((data[0] as int) / 4),
            spec_base64_char(((data[0] as int) % 4) * 16),
            '=',
            '=',
        ]
    } else if data.len() == 2 {
        seq![
            spec_base64_char((data[0] as int) / 4),
            spec_base64_char(((data[0] as int) % 4) * 16 + (data[1] as int) / 16),
            spec_base64_char(((data[1] as int) % 16) * 4),
            '=',
        ]
    } else {
        seq![
            spec_base64_char((data[0] as int) / 4),
            spec_base64_char(((data[0] as int) % 4) * 16 + (data[1] as int) / 16),
            spec_base64_char(((data[1] as int) % 16) * 4 + (data[2] as int) / 64),
            spec_base64_char((data[2] as int) % 64),
        ] + spec_base64(data.subrange(3, data.len() as int))
    }
}

/// Calls `base64::engine::general_purpose::STANDARD.encode`, which writes the
/// standard, padded base64 of its input.
#[verifier::external_body]
fn base64_encode(data: &[u8]) -> (r: String)
    ensures
        r@ == spec_base64(data@),
{
    base64::engine::general_purpose::STANDARD.encode(data)
}

/// The reason phrase the HTTP crate knows for a status code, if any.
pub uninterp spec fn spec_canonical_reason(code: u16) -> Option<Seq<char>>;

/// Calls `reqwest::StatusCode::from_u16(code)` and its `canonical_reason`.
#[verifier::external_body]
fn canonical_reason(code: u16) -> (r: Option<String>)
    requires
        100 <= code <= 999,
    ensures
        opt_view(r) == spec_canonical_reason(code),
{
    reqwest::StatusCode::from_u16(code).ok().and_then(|s| s.canonical_reason()).map(
        str::to_string,
    )
}

/// What the `/events` reply says: its `accepted` flag when that is a JSON
/// boolean, and its `event_id` when that is a JSON string.
#[derive(Debug)]
pub struct EventsReply {
    pub accepted: Option<bool>,
    pub event_id: Option<String>,
}

/// The `accepted` flag and `event_id` read from an `/events` reply text, or
/// none when the text is not JSON.
pub uninterp spec fn spec_events_reply(text: Seq<char>) -> Option<(Option<bool>, Option<Seq<char>>)>;

/// Calls `serde_json::from_str::<serde_json::Value>` and reads the
/// `accepted` boolean and `event_id` string out of the value.
#[verifier::external_body]
fn parse_events_reply(text: &str) -> (r: Result<EventsReply, serde_json::Error>)
    ensures
        match r {
            Ok(rep) => spec_events_reply(text@) == Some((rep.accepted, opt_view(rep.event_id))),
            Err(_) => spec_events_reply(text@) is None,
        },
{
    let v: serde_json::Value = serde_json::from_str(text)?;
    Ok(EventsReply {
        accepted: v.get("accepted").and_then(serde_json::Value::as_bool),
        event_id: v.get("event_id").and_then(serde_json::Value::as_str).map(str::to_string),
    })
}

/// The events a `/query` reply matched, and the `id` string of each (none
/// for an event without a string `id`).
#[derive(Debug)]
pub struct QueryReply {
    pub events: Vec<serde_json::Value>,
    pub ids: Vec<Option<String>>,
}

/// The values of the JSON array a `/query` reply text holds, in order, or
/// none when the text is not a JSON array.
pub uninterp spec fn spec_query_events(text: Seq<char>) -> Option<Seq<serde_json::Value>>;

/// The `id` string of a JSON event value, if it has one.
pub uninterp spec fn spec_json_id(event: serde_json::Value) -> Option<Seq<char>>;

impl QueryReply {
    /// Each id is the `id` string of the event at the same place.
    pub open spec fn ids_match(&self) -> bool {
        &&& self.events@.len() == self.ids@.len()
        &&& forall|i: int|
            0 <= i < self.ids@.len() ==> opt_view(#[trigger] self.ids@[i]) == spec_json_id(
                self.events@[i],
            )
    }
}

/// Calls `serde_json::from_str::<Vec<serde_json::Value>>` on a `/query`
/// reply (the named array of values) and reads each event's `id` string (the
/// named id of that value).
#[verifier::external_body]
fn parse_query_reply(text: &str) -> (r: Result<QueryReply, serde_json::Error>)
    ensures
        match r {
            Ok(q) => q.events@.len() == q.ids@.len() && (forall|i: int|
                0 <= i < q.ids@.len() ==> opt_view(#[trigger] q.ids@[i]) == spec_json_id(
                    q.events@[i],
                )) && spec_query_events(text@) == Some(q.events@),
            Err(_) => spec_query_events(text@) is None,
        },
{
    let events: Vec<serde_json::Value> = serde_json::from_str(text)?;
    let ids = events
        .iter()
        .map(|v| v.get("id").and_then(serde_json::Value::as_str).map(str::to_string))
        .collect();
    Ok(QueryReply { events, ids })
}

/// Calls `ToString::to_string` on a JSON error (its `Display` text).
#[verifier::external_body]
fn json_error_text(e: &serde_json::Error) -> (r: String) {
    e.to_string()
}

/// Calls `ToString::to_string` on a key error (its `Display` text).
#[verifier::external_body]
fn key_error_text(e: &nostr::key::Error) -> (r: String) {
    e.to_string()
}

/// Calls `ToString::to_string` on a tag error (its `Display` text).
#[verifier::external_body]
fn tag_error_text(e: &nostr::event::tag::Error) -> (r: String) {
    e.to_string()
}


} // verus!

verus! {

/// `s` without its trailing slashes.
pub open spec fn spec_trim_slashes(s: Seq<char>) -> Seq<char>
    decreases s.len(),
{
    if s.len() > 0 && s.last() == '/' {
        spec_trim_slashes(s.drop_last())
    } else {
        s
    }
}

/// Trimming keeps a prefix of the URL, drops only slashes, leaves no slash at
/// the end, and trimming again changes nothing.
pub proof fn lemma_trim_slashes(s: Seq<char>)
    ensures
        spec_trim_slashes(s).len() <= s.len(),
        s.subrange(0, spec_trim_slashes(s).len() as int) == spec_trim_slashes(s),
        forall|i: int| spec_trim_slashes(s).len() <= i < s.len() ==> s[i] == '/',
        spec_trim_slashes(s).len() == 0 || spec_trim_slashes(s).last() != '/',
        spec_trim_slashes(spec_trim_slashes(s)) == spec_trim_slashes(s),
    decreases s.len(),
{
    if s.len() > 0 && s.last() == '/' {
        lemma_trim_slashes(s.drop_last());
        let t = spec_trim_slashes(s.drop_last());
        assert(s.drop_last().subrange(0, t.len() as int) =~= s.subrange(0, t.len() as int));
        assert forall|i: int| t.len() <= i < s.len() implies s[i] == '/' by {
            if i < s.len() - 1 {
                assert(s.drop_last()[i] == s[i]);
            }
        }
    } else {
        assert(s.subrange(0, s.len() as int) =~= s);
    }
}

/// The relay base URL without trailing slashes, so that routes can be appended.
pub fn normalize_relay_url(url: &str) -> (r: String)
    ensures
        r@ == spec_trim_slashes(url@),
{
    let n = url.unicode_len();
    let mut end = n;
    assert(url@.take(n as int) =~= url@);
    loop
        invariant
            end <= n,
            n == url@.len(),
            spec_trim_slashes(url@) == spec_trim_slashes(url@.take(end as int)),
        ensures
            end <= n,
            spec_trim_slashes(url@) == url@.take(end as int),
        decreases end,
    {
        if end == 0 {
            assert(url@.take(0) =~= Seq::<char>::empty());
            break;
        }
        if url.get_char(end - 1) != '/' {
            assert(url@.take(end as int).last() == url@[end - 1]);
            break;
        }
        assert(url@.take(end as int).drop_last() =~= url@.take(end - 1));
        end = end - 1;
    }
    let r = String::from_str(url.substring_char(0, end));
    assert(url@.subrange(0, end as int) =~= url@.take(end as int));
    r
}

/// The URL of the relay's event-submission route.
pub fn events_url(relay_url: &str) -> (u: String)
    ensures
        u@ == relay_url@ + "/events"@,
{
    String::from_str(relay_url).concat("/events")
}

/// The URL of the relay's one-shot query route.
pub fn query_url(relay_url: &str) -> (u: String)
    ensures
        u@ == relay_url@ + "/query"@,
{
    String::from_str(relay_url).concat("/query")
}

/// The relay filter that finds an already-imported item: stream messages
/// (`kinds` is mandatory) tagged `jira:<KEY>`, at most one.
#[derive(Debug)]
pub struct DedupFilter {
    pub kinds: Vec<u16>,
    pub hashtag: String,
    pub limit: u32,
}

/// The hashtag that identifies the item imported from a Jira key.
pub open spec fn spec_dedup_tag(jira_key: Seq<char>) -> Seq<char> {
    "jira:"@ + jira_key
}

/// The dedup filter for a Jira key: `{ "kinds":[9], "#t":["jira:<KEY>"], "limit":1 }`.
pub fn dedup_filter(jira_key: &str) -> (f: DedupFilter)
    ensures
        f.kinds@ == seq![MESSAGE_KIND],
        f.hashtag@ == spec_dedup_tag(jira_key@),
        f.limit == 1,
{
    let mut kinds: Vec<u16> = Vec::new();
    kinds.push(MESSAGE_KIND);
    assert(kinds@ =~= seq![MESSAGE_KIND]);
    DedupFilter { kinds, hashtag: prefixed("jira:", jira_key), limit: 1 }
}

/// A tag whose first element is `h` (the channel tag).
pub open spec fn spec_is_h_tag(t: Seq<Seq<char>>) -> bool {
    t.len() > 0 && t[0] == "h"@
}

/// Index `i` holds the first channel tag.
pub open spec fn spec_first_h(tags: Seq<Seq<Seq<char>>>, i: int) -> bool {
    &&& 0 <= i < tags.len()
    &&& spec_is_h_tag(tags[i])
    &&& forall|j: int| 0 <= j < i ==> !spec_is_h_tag(#[trigger] tags[j])
}

/// The NIP-10 tag that marks a reply's root event.
pub open spec fn spec_root_ref(root_id: Seq<char>) -> Seq<Seq<char>> {
    seq!["e"@, root_id, ""@, "root"@]
}

fn is_h_tag(t: &RawTag) -> (b: bool)
    ensures
        b == spec_is_h_tag(tag_view(*t)),
{
    if t.len() == 0 {
        return false;
    }
    let h = String::from_str("h");
    t[0] == h
}

/// Reply tags: the channel `h` tag (copied from the root) and a NIP-10 `e`
/// tag referencing the root event. Fails when the root has no channel tag.
pub fn reply_tags(root_tags: &Vec<RawTag>, root_id: &str) -> (r: Result<Vec<RawTag>, ImportError>)
    ensures
        match r {
            Ok(tags) => exists|i: int|
                spec_first_h(tags_view(root_tags@), i) && tags_view(tags@) == seq![
                    tags_view(root_tags@)[i],
                    spec_root_ref(root_id@),
                ],
            Err(e) => e@ == (ExitCode::Other, "root tags missing h (channel) tag"@) && forall|i: int|
                0 <= i < root_tags@.len() ==> !spec_is_h_tag(#[trigger] tags_view(root_tags@)[i]),
        },
{
    let mut i: usize = 0;
    while i < root_tags.len()
        invariant
            i <= root_tags@.len(),
            forall|j: int| 0 <= j < i ==> !spec_is_h_tag(#[trigger] tags_view(root_tags@)[j]),
        decreases root_tags@.len() - i,
    {
        if is_h_tag(&root_tags[i]) {
            let h = root_tags[i].clone();
            let mut e: RawTag = Vec::new();
            e.push(String::from_str("e"));
            e.push(String::from_str(root_id));
            e.push(String::new());
            e.push(String::from_str("root"));
            let mut tags: Vec<RawTag> = Vec::new();
            tags.push(h);
            tags.push(e);
            proof {
                reveal_strlit("");
                assert(""@ =~= Seq::<char>::empty());
                assert(e@[2]@ == Seq::<char>::empty());
            }
            assert(tag_view(e) =~= spec_root_ref(root_id@));
            assert(tag_view(h) =~= tags_view(root_tags@)[i as int]);
            assert(tags_view(tags@) =~= seq![tags_view(root_tags@)[i as int], spec_root_ref(root_id@)]);
            assert(spec_first_h(tags_view(root_tags@), i as int));
            return Ok(tags);
        }
        i = i + 1;
    }
    Err(ImportError::Other(String::from_str("root tags missing h (channel) tag")))
}

/// Parse raw string-vector tags into Nostr tags. Fails, naming the tag
/// error, exactly when one of them is empty.
pub fn parse_tags(raw: &Vec<RawTag>) -> (r: Result<Vec<nostr::Tag>, ImportError>)
    ensures
        r is Ok <==> forall|i: int| 0 <= i < raw@.len() ==> (#[trigger] raw@[i])@.len() > 0,
        r matches Ok(ts) ==> ts@.len() == raw@.len() && forall|i: int|
            0 <= i < raw@.len() ==> nostr_tag_parts(#[trigger] ts@[i]) == tag_view(raw@[i]),
        r matches Err(e) ==> e@.0 == ExitCode::Other && spec_has_prefix(e@.1, "invalid tag: "@),
{
    let mut out: Vec<nostr::Tag> = Vec::new();
    let mut i: usize = 0;
    while i < raw.len()
        invariant
            i <= raw@.len(),
            out@.len() == i,
            forall|j: int| 0 <= j < i ==> (#[trigger] raw@[j])@.len() > 0,
            forall|j: int| 0 <= j < i ==> nostr_tag_parts(#[trigger] out@[j]) == tag_view(raw@[j]),
        decreases raw@.len() - i,
    {
        match parse_tag(&raw[i]) {
            Ok(t) => {
                out.push(t);
            },
            Err(e) => {
                let m = prefixed("invalid tag: ", tag_error_text(&e).as_str());
                assert(m@.subrange(0, "invalid tag: "@.len() as int) =~= "invalid tag: "@);
                return Err(ImportError::Other(m));
            },
        }
        i = i + 1;
    }
    Ok(out)
}

/// Build and sign a stream-message event from raw tags with the import key.
/// A tag that is empty is refused before anything is signed; otherwise the
/// event is kind 9 with the given content and tags (less `p` tags naming the
/// author), authored by the import key.
pub fn build_event(keys: &nostr::Keys, content: &str, raw_tags: &Vec<RawTag>) -> (r: Result<
    nostr::Event,
    ImportError,
>)
    ensures
        r is Ok <==> forall|i: int| 0 <= i < raw_tags@.len() ==> (#[trigger] raw_tags@[i])@.len() > 0,
        r matches Ok(ev) ==> spec_event_kind(ev) == MESSAGE_KIND && spec_event_content(ev)
            == content@ && spec_event_pubkey(ev) == spec_keys_pubkey(*keys) && spec_event_tags(ev)
            == spec_signed_tags(tags_view(raw_tags@), spec_keys_pubkey(*keys)) && spec_event_verifies(
            ev,
        ),
        r matches Err(e) ==> e@.0 == ExitCode::Other && spec_has_prefix(e@.1, "invalid tag: "@),
{
    let tags = parse_tags(raw_tags)?;
    assert(nostr_tags_parts(tags@) =~= tags_view(raw_tags@));
    match sign_event(MESSAGE_KIND, content, tags, keys) {
        Ok(ev) => Ok(ev),
        Err(_) => {
            // Signing with keys does not fail.
            assert(false);
            Err(ImportError::Other(String::from_str("invalid tag: ")))
        },
    }
}

/// The id of a signed event, as lowercase hex.
pub fn event_id(event: &nostr::Event) -> (id: String)
    ensures
        id@ == spec_event_id(*event),
        id@.len() == 64,
{
    event_id_hex(event)
}

/// Parse the import key from its secret (hex or bech32).
pub fn import_keys(secret: &str) -> (r: Result<nostr::Keys, ImportError>)
    ensures
        r is Ok <==> spec_secret_key_parses(secret@),
        r matches Ok(k) ==> spec_keys_pubkey(k) == spec_secret_pubkey(secret@),
        r matches Err(e) ==> e@.0 == ExitCode::Auth && spec_has_prefix(
            e@.1,
            "invalid BUZZ_PRIVATE_KEY: "@,
        ),
{
    match parse_keys(secret) {
        Ok(k) => Ok(k),
        Err(e) => {
            let m = prefixed("invalid BUZZ_PRIVATE_KEY: ", key_error_text(&e).as_str());
            assert(m@.subrange(0, "invalid BUZZ_PRIVATE_KEY: "@.len() as int)
                =~= "invalid BUZZ_PRIVATE_KEY: "@);
            Err(ImportError::Auth(m))
        },
    }
}

/// The tags of a NIP-98 authorization event: the URL, the method, a nonce,
/// and the hex SHA-256 of the body when there is one.
pub open spec fn spec_nip98_tags(
    url: Seq<char>,
    method: Seq<char>,
    nonce: Seq<char>,
    payload_hash: Option<Seq<char>>,
) -> Seq<Seq<Seq<char>>> {
    seq![seq!["u"@, url], seq!["method"@, method], seq!["nonce"@, nonce]] + match payload_hash {
        Some(h) => seq![seq!["payload"@, h]],
        None => seq![],
    }
}

fn pair_tag(kind: &str, value: &str) -> (t: RawTag)
    ensures
        tag_view(t) == seq![kind@, value@],
        t@.len() == 2,
{
    let mut t: RawTag = Vec::new();
    t.push(String::from_str(kind));
    t.push(String::from_str(value));
    assert(tag_view(t) =~= seq![kind@, value@]);
    t
}

/// The raw tags of a NIP-98 authorization event.
pub fn nip98_tags(url: &str, method: &str, nonce: &str, payload_hash: Option<&str>) -> (tags: Vec<
    RawTag,
>)
    ensures
        tags_view(tags@) == spec_nip98_tags(
            url@,
            method@,
            nonce@,
            match payload_hash {
                Some(h) => Some(h@),
                None => None,
            },
        ),
        forall|i: int| 0 <= i < tags@.len() ==> (#[trigger] tags@[i])@.len() == 2,
{
    let mut tags: Vec<RawTag> = Vec::new();
    tags.push(pair_tag("u", url));
    tags.push(pair_tag("method", method));
    tags.push(pair_tag("nonce", nonce));
    if let Some(h) = payload_hash {
        tags.push(pair_tag("payload", h));
    }
    assert(tags@[0]@.len() == 2 && tags@[1]@.len() == 2 && tags@[2]@.len() == 2);
    assert(tags_view(tags@) =~= spec_nip98_tags(
        url@,
        method@,
        nonce@,
        match payload_hash {
            Some(h) => Some(h@),
            None => None,
        },
    ));
    tags
}

/// The `Authorization` header value for a signed NIP-98 event serialized as `json`.
pub fn nip98_header(json: &str) -> (h: String)
    ensures
        h@ == "Nostr "@ + spec_base64(encode_utf8(json@)),
{
    let b64 = base64_encode(json.as_bytes());
    String::from_str("Nostr ").concat(b64.as_str())
}

/// The bytes of an optional request body.
pub open spec fn body_view(body: Option<&[u8]>) -> Option<Seq<u8>> {
    match body {
        Some(b) => Some(b@),
        None => None,
    }
}

/// The hex SHA-256 of a request body, when there is one.
pub open spec fn spec_payload_hash(body: Option<Seq<u8>>) -> Option<Seq<char>> {
    match body {
        Some(b) => Some(spec_hex_lower(spec_sha256(b))),
        None => None,
    }
}

/// Build a NIP-98 `Authorization: Nostr <base64>` header for an HTTP request:
/// the base64 of the JSON of a kind-27235 event with empty content and the
/// tags of `nip98_tags` (a fresh 36-character nonce, and the hex SHA-256 of
/// the body when there is one), signed with the import key.
pub fn nip98_auth(keys: &nostr::Keys, method: &str, url: &str, body: Option<&[u8]>) -> (r: Result<
    String,
    ImportError,
>)
    ensures
        r is Ok,
        r matches Ok(h) ==> exists|ev: nostr::Event, nonce: Seq<char>|
            #![trigger spec_event_json(ev), spec_nip98_tags(url@, method@, nonce, spec_payload_hash(body_view(body)))]
            nonce.len() == 36 && spec_event_kind(ev) == NIP98_KIND && spec_event_content(ev) == ""@
                && spec_event_pubkey(ev) == spec_keys_pubkey(*keys) && spec_event_tags(ev)
                == spec_signed_tags(
                spec_nip98_tags(
                    url@,
                    method@,
                    nonce,
                    spec_payload_hash(body_view(body)),
                ),
                spec_keys_pubkey(*keys),
            ) && spec_event_verifies(ev) && h@ == "Nostr "@ + spec_base64(
                encode_utf8(spec_event_json(ev)),
            ),
{
    let nonce = new_nonce();
    let hash: Option<String> = match body {
        Some(b) => Some(hex_encode(sha256(b).as_slice())),
        None => None,
    };
    let raw = nip98_tags(
        url,
        method,
        nonce.as_str(),
        match &hash {
            Some(h) => Some(h.as_str()),
            None => None,
        },
    );
    let ghost hv = spec_payload_hash(body_view(body));
    assert(match &hash {
        Some(h) => Some(h@),
        None => None,
    } == hv);
    let tags = match parse_tags(&raw) {
        Ok(t) => t,
        Err(e) => {
            // Every NIP-98 tag holds two strings, so parsing them cannot fail.
            proof {
                assert forall|i: int| 0 <= i < raw@.len() implies (#[trigger] raw@[i])@.len() > 0 by {
                    assert(raw@[i]@.len() == 2);
                }
            }
            assert(false);
            return Err(e);
        },
    };
    assert(nostr_tags_parts(tags@) =~= tags_view(raw@));
    let event = match sign_event(NIP98_KIND, "", tags, keys) {
        Ok(ev) => ev,
        Err(_) => {
            // Signing with keys does not fail.
            assert(false);
            return Err(ImportError::Auth(String::new()));
        },
    };
    match event_json(&event) {
        Ok(json) => {
            let h = nip98_header(json.as_str());
            assert(spec_event_json(event) == json@);
            Ok(h)
        },
        Err(_) => {
            // An event always serializes.
            assert(false);
            Err(ImportError::Other(String::new()))
        },
    }
}

} // verus!

verus! {

/// How a status code renders: the number, a space, and its reason phrase
/// (or `<unknown status code>`).
pub open spec fn spec_status_line(code: u16) -> Seq<char> {
    spec_decimal(code as nat) + " "@ + match spec_canonical_reason(code) {
        Some(r) => r,
        None => "<unknown status code>"@,
    }
}

/// Render a status code as the HTTP client's `Display` does.
pub fn status_line(code: u16) -> (s: String)
    requires
        100 <= code <= 999,
    ensures
        s@ == spec_status_line(code),
{
    let mut s = decimal(code as u64);
    s.append(" ");
    match canonical_reason(code) {
        Some(r) => s.append(r.as_str()),
        None => s.append("<unknown status code>"),
    }
    s
}

/// A status in the 2xx range.
pub open spec fn spec_is_success(status: u16) -> bool {
    200 <= status < 300
}

/// The error an `/events` response status decides by itself, or none for a
/// success: 409 is a write conflict, 401 and 403 are auth failures, any other
/// non-2xx status is a network error.
pub open spec fn spec_events_status_error(status: u16, text: Seq<char>) -> Option<(ExitCode, Seq<char>)> {
    if status == 409 {
        Some((ExitCode::WriteConflict, text))
    } else if status == 403 || status == 401 {
        Some((ExitCode::Auth, text))
    } else if !spec_is_success(status) {
        Some((ExitCode::Network, "POST /events "@ + spec_status_line(status) + ": "@ + text))
    } else {
        None
    }
}

/// How the relay's status decides an `/events` outcome: only 401 and 403 are
/// auth failures, only 409 is a write conflict, every other status outside
/// 2xx is a network error naming the status line and the reply, and a 2xx
/// status leaves the outcome to the reply body.
pub proof fn lemma_events_status_kinds(status: u16, text: Seq<char>)
    ensures
        (spec_events_status_error(status, text) matches Some(e) && e.0 == ExitCode::Auth) <==> (
        status == 401 || status == 403),
        (spec_events_status_error(status, text) matches Some(e) && e.0 == ExitCode::WriteConflict)
            <==> status == 409,
        spec_events_status_error(status, text) is None <==> 200 <= status < 300,
        !(200 <= status < 300) && status != 401 && status != 403 && status != 409
            ==> spec_events_status_error(status, text) == Some(
            (ExitCode::Network, "POST /events "@ + spec_status_line(status) + ": "@ + text),
        ),
{
}

/// What a successful `/events` reply means: `accepted: false` is a write
/// conflict; otherwise the accepted event's id as the relay reports it, or
/// the sent event's own id when the reply names none.
pub open spec fn spec_events_reply_outcome(
    text: Seq<char>,
    accepted: Option<bool>,
    event_id: Option<Seq<char>>,
    own_id: Seq<char>,
) -> Result<Seq<char>, (ExitCode, Seq<char>)> {
    if accepted == Some(false) {
        Err((ExitCode::WriteConflict, text))
    } else {
        Ok(
            match event_id {
                Some(id) => if id.len() > 0 {
                    id
                } else {
                    own_id
                },
                None => own_id,
            },
        )
    }
}

/// Decide the outcome of a successful `/events` reply, given what its JSON
/// says, or the parse error's text when it is not JSON.
pub fn events_reply_outcome(text: &str, reply: Result<EventsReply, String>, own_id: &str) -> (r: Result<
    String,
    ImportError,
>)
    ensures
        result_view(r, |s: String| s@) == match reply {
            Ok(rep) => spec_events_reply_outcome(text@, rep.accepted, opt_view(rep.event_id), own_id@),
            Err(m) => Err((ExitCode::Other, "parse /events response: "@ + m@)),
        },
{
    match reply {
        Ok(rep) => {
            if rep.accepted == Some(false) {
                Err(ImportError::WriteConflict(String::from_str(text)))
            } else {
                match rep.event_id {
                    Some(id) => {
                        if !id.as_str().is_empty() {
                            Ok(id)
                        } else {
                            Ok(String::from_str(own_id))
                        }
                    },
                    None => Ok(String::from_str(own_id)),
                }
            }
        },
        Err(m) => Err(ImportError::Other(prefixed("parse /events response: ", m.as_str()))),
    }
}

/// Decide the outcome of a `POST /events` response to sending `event`, from
/// its status and body: the accepted event's id (the relay's, or the event's
/// own when the reply names none), or the error the status or reply calls for.
pub fn events_response(status: u16, text: &str, event: &nostr::Event) -> (r: Result<String, ImportError>)
    requires
        100 <= status <= 999,
    ensures
        r matches Ok(id) ==> id@.len() > 0,
        (r matches Err(e) && e@.0 == ExitCode::Auth) <==> (status == 401 || status == 403),
        !(200 <= status < 300) && status != 401 && status != 403 && status != 409 ==> (r matches Err(
            e,
        ) && e@ == (ExitCode::Network, "POST /events "@ + spec_status_line(status) + ": "@ + text@)),
        match spec_events_status_error(status, text@) {
            Some(e) => result_view(r, |s: String| s@) == Err::<Seq<char>, _>(e),
            None => match spec_events_reply(text@) {
                Some((accepted, event_id)) => result_view(r, |s: String| s@)
                    == spec_events_reply_outcome(text@, accepted, event_id, spec_event_id(*event)),
                None => (r matches Err(e) && e@.0 == ExitCode::Other && spec_has_prefix(
                    e@.1,
                    "parse /events response: "@,
                )),
            },
        },
{
    if status == 409 {
        return Err(ImportError::WriteConflict(String::from_str(text)));
    }
    if status == 403 || status == 401 {
        return Err(ImportError::Auth(String::from_str(text)));
    }
    if !(200 <= status && status < 300) {
        let mut m = String::from_str("POST /events ");
        m.append(status_line(status).as_str());
        m.append(": ");
        m.append(text);
        return Err(ImportError::Network(m));
    }
    let reply = match parse_events_reply(text) {
        Ok(rep) => Ok(rep),
        Err(e) => Err(json_error_text(&e)),
    };
    let own_id = event_id_hex(event);
    let r = events_reply_outcome(text, reply, own_id.as_str());
    proof {
        if spec_events_reply(text@) is None {
            let m = r->Err_0@.1;
            assert(m.subrange(0, "parse /events response: "@.len() as int)
                =~= "parse /events response: "@);
        }
    }
    r
}

/// Decide the outcome of a `POST /query` response: the matched events and
/// their ids, a network error for a non-2xx status, or an error when the body
/// is not a JSON array of events.
pub fn query_response(status: u16, text: &str) -> (r: Result<QueryReply, ImportError>)
    requires
        100 <= status <= 999,
    ensures
        !spec_is_success(status) ==> (r matches Err(e) && e@ == (
            ExitCode::Network,
            "POST /query "@ + spec_status_line(status) + ": "@ + text@,
        )),
        spec_is_success(status) ==> match spec_query_events(text@) {
            Some(events) => (r matches Ok(q) && q.events@ == events && q.ids_match()),
            None => (r matches Err(e) && e@.0 == ExitCode::Other && spec_has_prefix(
                e@.1,
                "parse /query response: "@,
            )),
        },
{
    if !(200 <= status && status < 300) {
        let mut m = String::from_str("POST /query ");
        m.append(status_line(status).as_str());
        m.append(": ");
        m.append(text);
        return Err(ImportError::Network(m));
    }
    match parse_query_reply(text) {
        Ok(q) => Ok(q),
        Err(e) => {
            let m = prefixed("parse /query response: ", json_error_text(&e).as_str());
            assert(m@.subrange(0, "parse /query response: "@.len() as int)
                =~= "parse /query response: "@);
            Err(ImportError::Other(m))
        },
    }
}

/// The first event a dedup query matched, if any (the filter asks for one).
pub fn first_event(reply: QueryReply) -> (r: Option<serde_json::Value>)
    ensures
        r is Some <==> reply.events@.len() > 0,
        r matches Some(v) ==> v == reply.events@[0],
{
    let mut events = reply.events;
    if events.len() == 0 {
        None
    } else {
        Some(events.remove(0))
    }
}

/// The id of the already-imported item a dedup query found: the `id` of its
/// first matched event, if there is one and it has a string `id`.
pub fn existing_item_id(reply: &QueryReply) -> (r: Option<String>)
    ensures
        opt_view(r) == (if reply.ids@.len() > 0 {
            opt_view(reply.ids@[0])
        } else {
            None
        }),
        reply.ids_match() ==> opt_view(r) == (if reply.events@.len() > 0 {
            spec_json_id(reply.events@[0])
        } else {
            None
        }),
{
    if reply.ids.len() == 0 {
        None
    } else {
        copy_opt(&reply.ids[0])
    }
}

/// The id a dedup finds is the id of the first event the query matched, the
/// same event the item lookup returns; none when nothing matched.
pub proof fn lemma_existing_id_is_first_event_id(reply: QueryReply)
    requires
        reply.ids_match(),
    ensures
        (if reply.ids@.len() > 0 {
            opt_view(reply.ids@[0])
        } else {
            None
        }) == (if reply.events@.len() > 0 {
            spec_json_id(reply.events@[0])
        } else {
            None
        }),
{
}

/// The counts recorded after an item was emitted: one consolidated reply when
/// it has a history, its attachment count, and the state it seeds.
pub fn outcome_for(payload: &ItemPayload, item_id: String) -> (o: EmitOutcome)
    ensures
        o.item_id == item_id,
        o.comments == (if payload.history_reply is Some {
            1usize
        } else {
            0usize
        }),
        o.attachments == payload.attachments@.len(),
        o.seeded_state == payload.seed_state,
{
    EmitOutcome {
        item_id,
        comments: if payload.history_reply.is_some() {
            1
        } else {
            0
        },
        attachments: payload.attachments.len(),
        seeded_state: copy_opt(&payload.seed_state),
    }
}

/// What to emit after the root event: nothing without a history, else the
/// history body with the reply tags of the root.
pub fn reply_plan(payload: &ItemPayload, item_id: &str) -> (r: Result<
    Option<(String, Vec<RawTag>)>,
    ImportError,
>)
    ensures
        payload.history_reply is None ==> r matches Ok(None),
        payload.history_reply matches Some(body) ==> match r {
            Ok(Some((b, tags))) => b == body && exists|i: int|
                spec_first_h(tags_view(payload.root_tags@), i) && tags_view(tags@) == seq![
                    tags_view(payload.root_tags@)[i],
                    spec_root_ref(item_id@),
                ],
            Ok(None) => false,
            Err(e) => e@ == (ExitCode::Other, "root tags missing h (channel) tag"@) && forall|i: int|
                0 <= i < payload.root_tags@.len() ==> !spec_is_h_tag(
                    #[trigger] tags_view(payload.root_tags@)[i],
                ),
        },
{
    match &payload.history_reply {
        None => Ok(None),
        Some(body) => {
            let tags = reply_tags(&payload.root_tags, item_id)?;
            Ok(Some((body.clone(), tags)))
        },
    }
}


/// The signed reply that follows an item's root event: none without a
/// history; else a kind-9 event holding the history, tagged with the root's
/// first channel tag and an `e` tag naming the root `item_id`, authored by the
/// import key. Fails when the root has no channel tag.
pub fn reply_event(keys: &nostr::Keys, payload: &ItemPayload, item_id: &str) -> (r: Result<
    Option<nostr::Event>,
    ImportError,
>)
    ensures
        payload.history_reply is None ==> r matches Ok(None),
        payload.history_reply matches Some(body) ==> match r {
            Ok(Some(ev)) => exists|i: int|
                spec_first_h(tags_view(payload.root_tags@), i) && spec_event_kind(ev) == MESSAGE_KIND
                    && spec_event_content(ev) == body@ && spec_event_pubkey(ev) == spec_keys_pubkey(
                    *keys,
                ) && spec_event_tags(ev) == spec_signed_tags(
                    seq![tags_view(payload.root_tags@)[i], spec_root_ref(item_id@)],
                    spec_keys_pubkey(*keys),
                ) && spec_event_verifies(ev),
            Ok(None) => false,
            Err(e) => e@ == (ExitCode::Other, "root tags missing h (channel) tag"@) && forall|i: int|
                0 <= i < payload.root_tags@.len() ==> !spec_is_h_tag(
                    #[trigger] tags_view(payload.root_tags@)[i],
                ),
        },
{
    match reply_plan(payload, item_id)? {
        None => Ok(None),
        Some((body, tags)) => {
            let ghost i = choose|i: int|
                spec_first_h(tags_view(payload.root_tags@), i) && tags_view(tags@) == seq![
                    tags_view(payload.root_tags@)[i],
                    spec_root_ref(item_id@),
                ];
            assert(tags_view(tags@).len() == 2);
            assert forall|k: int| 0 <= k < tags@.len() implies (#[trigger] tags@[k])@.len() > 0 by {
                assert(tag_view(tags@[k]) == tags_view(tags@)[k]);
                assert(tag_view(tags@[k]).len() == tags@[k]@.len());
            }
            match build_event(keys, body.as_str(), &tags) {
                Ok(ev) => Ok(Some(ev)),
                Err(e) => Err(e),
            }
        },
    }
}
} // verus!

verus! {

/// The dedup filter of a Jira key looks for exactly the `jira:<KEY>` tag that
/// the transform puts on the item's root, so an imported item is found again.
pub proof fn lemma_dedup_finds_root_tag(
    issue: crate::jira::JiraIssue,
    channel: Seq<char>,
    type_lower: Seq<char>,
    identity: Map<Seq<char>, crate::identity::Person>,
)
    ensures
        crate::transform::spec_root_tags(issue, channel, type_lower, identity).contains(
            crate::transform::t_tag(spec_dedup_tag(issue.key@)),
        ),
{
    crate::transform::lemma_root_tags_carry_required(issue, channel, type_lower, identity);
}

/// Every root tag of a built item holds two strings, so signing a built
/// item's root event never refuses a tag.
pub proof fn lemma_built_root_tags_signable(
    issue: crate::jira::JiraIssue,
    channel: Seq<char>,
    type_lower: Seq<char>,
    identity: Map<Seq<char>, crate::identity::Person>,
)
    ensures
        forall|i: int|
            0 <= i < crate::transform::spec_root_tags(issue, channel, type_lower, identity).len()
                ==> (#[trigger] crate::transform::spec_root_tags(
                issue,
                channel,
                type_lower,
                identity,
            )[i]).len() == 2,
{
    let tags = crate::transform::spec_root_tags(issue, channel, type_lower, identity);
    let base = crate::transform::spec_base_tags(issue, channel, type_lower);
    let epic = crate::transform::spec_epic_tags(issue);
    let labels = crate::transform::spec_label_tags(issue.labels@);
    let comps = crate::transform::spec_label_tags(issue.components@);
    let a = crate::transform::spec_assignee_tags(issue, identity);
    let r = crate::transform::spec_reporter_tags(issue, identity);
    assert(tags =~= base + epic + labels + comps + a + r);
    assert forall|i: int| 0 <= i < tags.len() implies (#[trigger] tags[i]).len() == 2 by {
        let n0 = base.len() as int;
        let n1 = n0 + epic.len();
        let n2 = n1 + labels.len();
        let n3 = n2 + comps.len();
        let n4 = n3 + a.len();
        if i < n0 {
            assert(tags[i] == base[i]);
        } else if i < n1 {
            assert(tags[i] == epic[i - n0]);
        } else if i < n2 {
            assert(tags[i] == labels[i - n1]);
        } else if i < n3 {
            assert(tags[i] == comps[i - n2]);
        } else if i < n4 {
            assert(tags[i] == a[i - n3]);
        } else {
            assert(tags[i] == r[i - n4]);
        }
    }
}

/// The first channel tag of every built item is its own `h` tag, at the
/// front, so replies to it always find their channel and never fail.
pub proof fn lemma_built_root_has_channel(
    issue: crate::jira::JiraIssue,
    channel: Seq<char>,
    type_lower: Seq<char>,
    identity: Map<Seq<char>, crate::identity::Person>,
)
    ensures
        spec_first_h(crate::transform::spec_root_tags(issue, channel, type_lower, identity), 0),
        crate::transform::spec_root_tags(issue, channel, type_lower, identity)[0] == seq![
            "h"@,
            channel,
        ],
{
    crate::transform::lemma_root_tags_carry_required(issue, channel, type_lower, identity);
}

} // verus!
