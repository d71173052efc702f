//! Transform stage: Jira issue -> Buzz event payloads.
//!
//! Deterministic: the same issue always produces the same logical payloads, so
//! re-runs are stable and dedup works. Every item carries `jira:<KEY>`,
//! `type:`, `epic:` (the epic key, or `none` when the issue has no epic),
//! `region:` and the NIP-29 `h` channel tag, plus `label:` tags and a `p` tag
//! for a mapped assignee and for a mapped reporter. The original date is an
//! `orig-created:` tag, never the event timestamp.

use vstd::prelude::*;

use crate::identity::{IdentityMap, Person};
use crate::jira::{JiraAttachment, JiraComment, JiraIssue};
use crate::status_map::StatusMap;
use crate::text::{
    has_prefix, opt_view, prefixed, spec_has_prefix, spec_lowercase, spec_uppercase,
    to_lowercase, to_uppercase,
};

verus! {

/// A Nostr tag as a flat string vector (e.g. `["t","jira:UFX-1"]`).
pub type RawTag = Vec<String>;

/// The full set of payloads to emit for one migrated item.
#[derive(Debug, Clone)]
pub struct ItemPayload {
    /// Root event content (body).
    pub root_body: String,
    /// Root event tags.
    pub root_tags: Vec<RawTag>,
    /// One consolidated "Imported Jira history" reply body, if there are comments.
    pub history_reply: Option<String>,
    /// Attachments to upload and reference.
    pub attachments: Vec<AttachmentRef>,
    /// Buzz workflow state to seed (from the status map), if resolvable.
    pub seed_state: Option<String>,
}

/// An attachment to re-upload and reference from a reply.
#[derive(Debug, Clone)]
pub struct AttachmentRef {
    pub filename: String,
    pub mime_type: String,
    pub source_url: String,
}

/// The mathematical content of an item payload.
pub struct ItemView {
    pub root_body: Seq<char>,
    pub root_tags: Seq<Seq<Seq<char>>>,
    pub history_reply: Option<Seq<char>>,
    pub attachments: Seq<(Seq<char>, Seq<char>, Seq<char>)>,
    pub seed_state: Option<Seq<char>>,
}

/// The view of one tag.
pub open spec fn tag_view(t: RawTag) -> Seq<Seq<char>> {
    t@.map_values(|s: String| s@)
}

/// The views of a sequence of tags.
pub open spec fn tags_view(ts: Seq<RawTag>) -> Seq<Seq<Seq<char>>> {
    ts.map_values(|t: RawTag| tag_view(t))
}

/// The view of one attachment reference: file name, MIME type, source URL.
pub open spec fn attachment_ref_view(a: AttachmentRef) -> (Seq<char>, Seq<char>, Seq<char>) {
    (a.filename@, a.mime_type@, a.source_url@)
}

impl View for ItemPayload {
    type V = ItemView;

    open spec fn view(&self) -> ItemView {
        ItemView {
            root_body: self.root_body@,
            root_tags: tags_view(self.root_tags@),
            history_reply: opt_view(self.history_reply),
            attachments: self.attachments@.map_values(|a: AttachmentRef| attachment_ref_view(a)),
            seed_state: opt_view(self.seed_state),
        }
    }
}

/// Region from the epic name: `MVP LDN...` is EMEA, everything else Asia.
pub open spec fn spec_region(epic_name: Option<Seq<char>>) -> Seq<char> {
    match epic_name {
        Some(name) => if spec_has_prefix(name, "MVP LDN"@) {
            "EMEA"@
        } else {
            "Asia"@
        },
        None => "Asia"@,
    }
}

/// A `t` (hashtag) tag with the given value.
pub open spec fn t_tag(value: Seq<char>) -> Seq<Seq<char>> {
    seq!["t"@, value]
}

/// The `label:` tags of a list of labels, in order.
pub open spec fn spec_label_tags(labels: Seq<String>) -> Seq<Seq<Seq<char>>> {
    labels.map_values(|l: String| t_tag("label:"@ + l@))
}

/// The five tags every item carries: channel, key, type, region, original date.
pub open spec fn spec_base_tags(issue: JiraIssue, channel: Seq<char>, type_lower: Seq<char>) -> Seq<
    Seq<Seq<char>>,
> {
    seq![
        seq!["h"@, channel],
        t_tag("jira:"@ + issue.key@),
        t_tag("type:"@ + type_lower),
        t_tag("region:"@ + spec_region(opt_view(issue.epic_name))),
        t_tag("orig-created:"@ + issue.created@),
    ]
}

/// The `epic:` tag every item carries.
pub open spec fn spec_epic_tags(issue: JiraIssue) -> Seq<Seq<Seq<char>>> {
    seq![t_tag("epic:"@ + spec_epic_value(issue))]
}

/// What the `epic:` tag names: the epic key, or `none` without an epic.
pub open spec fn spec_epic_value(issue: JiraIssue) -> Seq<char> {
    match issue.epic_key {
        Some(e) => e@,
        None => "none"@,
    }
}

/// The `p` tag, when the assignee is mapped to a pubkey.
pub open spec fn spec_assignee_tags(issue: JiraIssue, identity: Map<Seq<char>, Person>) -> Seq<
    Seq<Seq<char>>,
> {
    match issue.assignee_account_id {
        Some(a) => if identity.contains_key(a@) {
            seq![seq!["p"@, identity[a@].pubkey@]]
        } else {
            seq![]
        },
        None => seq![],
    }
}

/// The reporter is a different account from the assignee.
pub open spec fn spec_reporter_is_other(issue: JiraIssue) -> bool {
    match issue.assignee_account_id {
        Some(a) => match issue.reporter_account_id {
            Some(r) => a@ != r@,
            None => true,
        },
        None => true,
    }
}

/// The `p` tag of the reporter, when the reporter is mapped to a pubkey and
/// is not also the assignee (who already has one).
pub open spec fn spec_reporter_tags(issue: JiraIssue, identity: Map<Seq<char>, Person>) -> Seq<
    Seq<Seq<char>>,
> {
    match issue.reporter_account_id {
        Some(r) => if identity.contains_key(r@) && spec_reporter_is_other(issue) {
            seq![seq!["p"@, identity[r@].pubkey@]]
        } else {
            seq![]
        },
        None => seq![],
    }
}

/// All root tags of an item, in emission order.
pub open spec fn spec_root_tags(
    issue: JiraIssue,
    channel: Seq<char>,
    type_lower: Seq<char>,
    identity: Map<Seq<char>, Person>,
) -> Seq<Seq<Seq<char>>> {
    spec_base_tags(issue, channel, type_lower) + spec_epic_tags(issue) + spec_label_tags(
        issue.labels@,
    ) + spec_label_tags(issue.components@) + spec_assignee_tags(issue, identity)
        + spec_reporter_tags(issue, identity)
}

/// The root body in the workhub house style.
pub open spec fn spec_render_body(issue: JiraIssue, type_upper: Seq<char>) -> Seq<char> {
    "["@ + type_upper + "] "@ + issue.summary@ + "\n\n"@ + issue.description@ + "\n\n---\njira: "@
        + issue.key@ + "\norig-created: "@ + issue.created@
}

/// One comment's block in the consolidated history reply.
pub open spec fn spec_comment_block(c: JiraComment) -> Seq<char> {
    "\n---\norig-author: "@ + c.author_display@ + " - "@ + c.created@ + "\n"@ + c.body@ + "\n"@
}

/// The blocks of a list of comments, in order.
pub open spec fn spec_comment_blocks(cs: Seq<JiraComment>) -> Seq<char>
    decreases cs.len(),
{
    if cs.len() == 0 {
        seq![]
    } else {
        spec_comment_blocks(cs.drop_last()) + spec_comment_block(cs.last())
    }
}

/// The consolidated history reply: none without comments.
pub open spec fn spec_history_reply(issue: JiraIssue) -> Option<Seq<char>> {
    if issue.comments@.len() == 0 {
        None
    } else {
        Some("Imported Jira history - "@ + issue.key@ + "\n"@ + spec_comment_blocks(issue.comments@))
    }
}

/// The attachment references of an issue, one per attachment, in order.
pub open spec fn spec_attachments(atts: Seq<JiraAttachment>) -> Seq<(Seq<char>, Seq<char>, Seq<char>)> {
    atts.map_values(|a: JiraAttachment| (a.filename@, a.mime_type@, a.content_url@))
}

/// The workflow state to seed: the mapped state of the issue's status.
pub open spec fn spec_seed_state(issue: JiraIssue, status: Map<Seq<char>, Seq<char>>) -> Option<
    Seq<char>,
> {
    if status.contains_key(issue.status@) {
        Some(status[issue.status@])
    } else {
        None
    }
}

/// The payloads of one issue, given the case-mapped issue type.
pub open spec fn spec_item(
    issue: JiraIssue,
    channel: Seq<char>,
    type_lower: Seq<char>,
    type_upper: Seq<char>,
    identity: Map<Seq<char>, Person>,
    status: Map<Seq<char>, Seq<char>>,
) -> ItemView {
    ItemView {
        root_body: spec_render_body(issue, type_upper),
        root_tags: spec_root_tags(issue, channel, type_lower, identity),
        history_reply: spec_history_reply(issue),
        attachments: spec_attachments(issue.attachments@),
        seed_state: spec_seed_state(issue, status),
    }
}

/// Classify region from the epic name (`MVP LDN...` -> EMEA, else Asia).
pub fn region_for(epic_name: Option<&str>) -> (r: &'static str)
    ensures
        r@ == spec_region(match epic_name {
            Some(n) => Some(n@),
            None => None,
        }),
{
    match epic_name {
        Some(name) => {
            if has_prefix(name, "MVP LDN") {
                "EMEA"
            } else {
                "Asia"
            }
        },
        None => "Asia",
    }
}

fn pair(kind: &str, value: String) -> (t: RawTag)
    ensures
        tag_view(t) == seq![kind@, value@],
{
    let mut t: RawTag = Vec::new();
    t.push(String::from_str(kind));
    t.push(value);
    assert(tag_view(t) =~= seq![kind@, value@]);
    t
}

fn push_label_tags(tags: &mut Vec<RawTag>, labels: &Vec<String>)
    ensures
        tags_view(final(tags)@) == tags_view(old(tags)@) + spec_label_tags(labels@),
{
    let ghost start = tags_view(tags@);
    let mut i: usize = 0;
    while i < labels.len()
        invariant
            i <= labels@.len(),
            tags_view(tags@) == start + spec_label_tags(labels@.take(i as int)),
        decreases labels@.len() - i,
    {
        let t = pair("t", prefixed("label:", labels[i].as_str()));
        let ghost before = tags@;
        tags.push(t);
        assert(labels@.take(i + 1) =~= labels@.take(i as int).push(labels@[i as int]));
        assert(tags@ =~= before.push(t));
        assert(tags_view(tags@) =~= tags_view(before).push(tag_view(t)));
        assert(spec_label_tags(labels@.take(i + 1)) =~= spec_label_tags(labels@.take(i as int)).push(
            t_tag("label:"@ + labels@[i as int]@),
        ));
        i = i + 1;
    }
    assert(labels@.take(labels@.len() as int) =~= labels@);
}

fn root_tags(
    issue: &JiraIssue,
    channel_id: &str,
    type_lower: &str,
    identity: &IdentityMap,
) -> (tags: Vec<RawTag>)
    ensures
        tags_view(tags@) == spec_root_tags(*issue, channel_id@, type_lower@, identity@),
{
    let region = region_for(
        match &issue.epic_name {
            Some(n) => Some(n.as_str()),
            None => None,
        },
    );
    let mut tags: Vec<RawTag> = Vec::new();
    tags.push(pair("h", String::from_str(channel_id)));
    tags.push(pair("t", prefixed("jira:", issue.key.as_str())));
    tags.push(pair("t", prefixed("type:", type_lower)));
    tags.push(pair("t", prefixed("region:", region)));
    tags.push(pair("t", prefixed("orig-created:", issue.created.as_str())));
    assert(region@ == spec_region(opt_view(issue.epic_name)));
    assert(tags_view(tags@) =~= spec_base_tags(*issue, channel_id@, type_lower@));
    let epic = match &issue.epic_key {
        Some(e) => e.as_str(),
        None => "none",
    };
    let ghost before = tags@;
    let t = pair("t", prefixed("epic:", epic));
    tags.push(t);
    assert(tags_view(tags@) =~= tags_view(before).push(tag_view(t)));
    assert(tags_view(tags@) =~= spec_base_tags(*issue, channel_id@, type_lower@) + spec_epic_tags(
        *issue,
    ));
    push_label_tags(&mut tags, &issue.labels);
    push_label_tags(&mut tags, &issue.components);
    let ghost mid = tags@;
    if let Some(acct) = &issue.assignee_account_id {
        if let Some(pk) = identity.pubkey(acct.as_str()) {
            let t = pair("p", String::from_str(pk));
            tags.push(t);
            assert(tags_view(tags@) =~= tags_view(mid).push(tag_view(t)));
        }
    }
    assert(tags_view(tags@) =~= tags_view(mid) + spec_assignee_tags(*issue, identity@));
    let ghost mid2 = tags@;
    if let Some(rep) = &issue.reporter_account_id {
        let other = match &issue.assignee_account_id {
            Some(a) => !(*a == *rep),
            None => true,
        };
        if other {
            if let Some(pk) = identity.pubkey(rep.as_str()) {
                let t = pair("p", String::from_str(pk));
                tags.push(t);
                assert(tags_view(tags@) =~= tags_view(mid2).push(tag_view(t)));
            }
        }
    }
    assert(tags_view(tags@) =~= tags_view(mid2) + spec_reporter_tags(*issue, identity@));
    tags
}

/// Render the root body in the workhub house-style format.
fn render_body(issue: &JiraIssue, type_upper: &str) -> (s: String)
    ensures
        s@ == spec_render_body(*issue, type_upper@),
{
    let mut s = String::from_str("[");
    s.append(type_upper);
    s.append("] ");
    s.append(issue.summary.as_str());
    s.append("\n\n");
    s.append(issue.description.as_str());
    s.append("\n\n---\njira: ");
    s.append(issue.key.as_str());
    s.append("\norig-created: ");
    s.append(issue.created.as_str());
    s
}

fn history_reply(issue: &JiraIssue) -> (r: Option<String>)
    ensures
        opt_view(r) == spec_history_reply(*issue),
{
    if issue.comments.len() == 0 {
        return None;
    }
    let mut out = String::from_str("Imported Jira history - ");
    out.append(issue.key.as_str());
    out.append("\n");
    let ghost header = out@;
    let mut i: usize = 0;
    while i < issue.comments.len()
        invariant
            i <= issue.comments@.len(),
            out@ == header + spec_comment_blocks(issue.comments@.take(i as int)),
        decreases issue.comments@.len() - i,
    {
        let c = &issue.comments[i];
        out.append("\n---\norig-author: ");
        out.append(c.author_display.as_str());
        out.append(" - ");
        out.append(c.created.as_str());
        out.append("\n");
        out.append(c.body.as_str());
        out.append("\n");
        assert(issue.comments@.take(i + 1).drop_last() =~= issue.comments@.take(i as int));
        i = i + 1;
    }
    assert(issue.comments@.take(issue.comments@.len() as int) =~= issue.comments@);
    Some(out)
}

fn attachment_refs(atts: &Vec<JiraAttachment>) -> (r: Vec<AttachmentRef>)
    ensures
        r@.map_values(|a: AttachmentRef| attachment_ref_view(a)) == spec_attachments(atts@),
{
    let mut out: Vec<AttachmentRef> = Vec::new();
    let mut i: usize = 0;
    while i < atts.len()
        invariant
            i <= atts@.len(),
            out@.map_values(|a: AttachmentRef| attachment_ref_view(a)) == spec_attachments(
                atts@.take(i as int),
            ),
        decreases atts@.len() - i,
    {
        let a = &atts[i];
        let ghost before = out@;
        out.push(
            AttachmentRef {
                filename: a.filename.clone(),
                mime_type: a.mime_type.clone(),
                source_url: a.content_url.clone(),
            },
        );
        assert(atts@.take(i + 1) =~= atts@.take(i as int).push(atts@[i as int]));
        assert(out@.map_values(|a: AttachmentRef| attachment_ref_view(a)) =~= before.map_values(
            |a: AttachmentRef| attachment_ref_view(a),
        ).push(attachment_ref_view(out@[i as int])));
        assert(spec_attachments(atts@.take(i + 1)) =~= spec_attachments(atts@.take(i as int)).push(
            (atts@[i as int].filename@, atts@[i as int].mime_type@, atts@[i as int].content_url@),
        ));
        i = i + 1;
    }
    assert(atts@.take(atts@.len() as int) =~= atts@);
    out
}

/// Build the payloads for one issue from its case-mapped issue type: the
/// lowercase form goes into the `type:` tag, the uppercase one into the body.
pub fn assemble_item(
    issue: &JiraIssue,
    channel_id: &str,
    identity: &IdentityMap,
    status: &StatusMap,
    type_lower: &str,
    type_upper: &str,
) -> (p: ItemPayload)
    ensures
        p@ == spec_item(*issue, channel_id@, type_lower@, type_upper@, identity@, status@),
{
    let seed_state = match status.state(issue.status.as_str()) {
        Some(s) => Some(String::from_str(s)),
        None => None,
    };
    let p = ItemPayload {
        root_body: render_body(issue, type_upper),
        root_tags: root_tags(issue, channel_id, type_lower, identity),
        history_reply: history_reply(issue),
        attachments: attachment_refs(&issue.attachments),
        seed_state,
    };
    assert(p@ =~= spec_item(*issue, channel_id@, type_lower@, type_upper@, identity@, status@));
    p
}

/// Build the payloads for one issue, given the channel it roots into.
pub fn build_item(
    issue: &JiraIssue,
    channel_id: &str,
    identity: &IdentityMap,
    status: &StatusMap,
) -> (p: ItemPayload)
    ensures
        p@ == spec_item(
            *issue,
            channel_id@,
            spec_lowercase(issue.issue_type@),
            spec_uppercase(issue.issue_type@),
            identity@,
            status@,
        ),
{
    let lower = to_lowercase(issue.issue_type.as_str());
    let upper = to_uppercase(issue.issue_type.as_str());
    assemble_item(issue, channel_id, identity, status, lower.as_str(), upper.as_str())
}

} // verus!
verus! {

/// Every item's root tags start with its channel `h` tag and carry its
/// `jira:<KEY>`, `type:`, `epic:`, `region:` and `orig-created:` tags; the
/// original creation date travels as a tag.
pub proof fn lemma_root_tags_carry_required(
    issue: JiraIssue,
    channel: Seq<char>,
    type_lower: Seq<char>,
    identity: Map<Seq<char>, Person>,
)
    ensures
        ({
            let tags = spec_root_tags(issue, channel, type_lower, identity);
            &&& tags.len() >= 6
            &&& tags[0] == seq!["h"@, channel]
            &&& tags.contains(t_tag("epic:"@ + spec_epic_value(issue)))
            &&& tags.contains(t_tag("jira:"@ + issue.key@))
            &&& tags.contains(t_tag("type:"@ + type_lower))
            &&& tags.contains(t_tag("region:"@ + spec_region(opt_view(issue.epic_name))))
            &&& tags.contains(t_tag("orig-created:"@ + issue.created@))
        }),
{
    let tags = spec_root_tags(issue, channel, type_lower, identity);
    let base = spec_base_tags(issue, channel, type_lower);
    assert(tags[0] == base[0]);
    assert(tags[1] == base[1]);
    assert(tags[2] == base[2]);
    assert(tags[3] == base[3]);
    assert(tags[4] == base[4]);
    assert(tags[5] == spec_epic_tags(issue)[0]);
}

/// Labels and components each become a `label:` tag on the root, in order.
pub proof fn lemma_labels_tagged(
    issue: JiraIssue,
    channel: Seq<char>,
    type_lower: Seq<char>,
    identity: Map<Seq<char>, Person>,
    i: int,
)
    requires
        0 <= i < issue.labels@.len(),
    ensures
        spec_root_tags(issue, channel, type_lower, identity).contains(
            t_tag("label:"@ + issue.labels@[i]@),
        ),
{
    let tags = spec_root_tags(issue, channel, type_lower, identity);
    let k = 5 + spec_epic_tags(issue).len() + i;
    assert(tags[k] == spec_label_tags(issue.labels@)[i]);
}

/// After the six tags every item starts with (channel, key, type, region,
/// original date, epic), each label and then each component becomes a
/// `label:` tag, in order: label `i` at place `6 + i`, component `i` right
/// after all labels.
pub proof fn lemma_label_tags_in_order(
    issue: JiraIssue,
    channel: Seq<char>,
    type_lower: Seq<char>,
    identity: Map<Seq<char>, Person>,
)
    ensures
        ({
            let tags = spec_root_tags(issue, channel, type_lower, identity);
            let n = issue.labels@.len() as int;
            &&& tags.len() >= 6 + n + issue.components@.len()
            &&& forall|i: int|
                0 <= i < n ==> tags[6 + i] == t_tag("label:"@ + (#[trigger] issue.labels@[i])@)
            &&& forall|i: int|
                0 <= i < issue.components@.len() ==> tags[6 + n + i] == t_tag(
                    "label:"@ + (#[trigger] issue.components@[i])@,
                )
            &&& forall|i: int|
                0 <= i < issue.components@.len() ==> tags.contains(
                    t_tag("label:"@ + (#[trigger] issue.components@[i])@),
                )
        }),
{
    let tags = spec_root_tags(issue, channel, type_lower, identity);
    let n = issue.labels@.len() as int;
    let front = spec_base_tags(issue, channel, type_lower) + spec_epic_tags(issue);
    let labels = spec_label_tags(issue.labels@);
    let comps = spec_label_tags(issue.components@);
    let rest = spec_assignee_tags(issue, identity) + spec_reporter_tags(issue, identity);
    assert(tags =~= front + labels + comps + rest);
    assert(front.len() == 6);
    assert forall|i: int| 0 <= i < n implies tags[6 + i] == t_tag(
        "label:"@ + (#[trigger] issue.labels@[i])@,
    ) by {
        assert(tags[6 + i] == labels[i]);
    }
    assert forall|i: int| 0 <= i < issue.components@.len() implies tags[6 + n + i] == t_tag(
        "label:"@ + (#[trigger] issue.components@[i])@,
    ) by {
        assert(tags[6 + n + i] == comps[i]);
    }
    assert forall|i: int| 0 <= i < issue.components@.len() implies tags.contains(
        t_tag("label:"@ + (#[trigger] issue.components@[i])@),
    ) by {
        assert(tags[6 + n + i] == comps[i]);
    }
}

/// An item carries a `p` tag exactly when its assignee or its reporter is
/// mapped in the identity map, and those tags name the mapped pubkeys;
/// unmapped people never become a `p` tag.
pub proof fn lemma_p_tag_iff_person_mapped(
    issue: JiraIssue,
    channel: Seq<char>,
    type_lower: Seq<char>,
    identity: Map<Seq<char>, Person>,
)
    ensures
        ({
            let tags = spec_root_tags(issue, channel, type_lower, identity);
            let assignee_mapped = issue.assignee_account_id is Some && identity.contains_key(
                issue.assignee_account_id->0@,
            );
            let reporter_mapped = issue.reporter_account_id is Some && identity.contains_key(
                issue.reporter_account_id->0@,
            );
            &&& (exists|i: int| 0 <= i < tags.len() && #[trigger] tags[i][0] == "p"@) <==> (
            assignee_mapped || reporter_mapped)
            &&& assignee_mapped ==> tags.contains(
                seq!["p"@, identity[issue.assignee_account_id->0@].pubkey@],
            )
            &&& reporter_mapped ==> tags.contains(
                seq!["p"@, identity[issue.reporter_account_id->0@].pubkey@],
            )
        }),
{
    reveal_strlit("p");
    reveal_strlit("t");
    reveal_strlit("h");
    let tags = spec_root_tags(issue, channel, type_lower, identity);
    let front = spec_base_tags(issue, channel, type_lower) + spec_epic_tags(issue) + spec_label_tags(
        issue.labels@,
    ) + spec_label_tags(issue.components@);
    let people = spec_assignee_tags(issue, identity) + spec_reporter_tags(issue, identity);
    assert(tags =~= front + people);
    assert forall|i: int| 0 <= i < front.len() implies front[i][0] != "p"@ by {
        assert(front[i][0] == "t"@ || front[i][0] == "h"@);
        assert(front[i][0][0] != "p"@[0]);
    }
    assert forall|k: int| 0 <= k < people.len() implies people[k][0] == "p"@ by {}
    let assignee_mapped = issue.assignee_account_id is Some && identity.contains_key(
        issue.assignee_account_id->0@,
    );
    let reporter_mapped = issue.reporter_account_id is Some && identity.contains_key(
        issue.reporter_account_id->0@,
    );
    if assignee_mapped {
        let k = front.len() as int;
        assert(tags[k] == seq!["p"@, identity[issue.assignee_account_id->0@].pubkey@]);
        assert(tags[k][0] == "p"@);
    }
    if reporter_mapped {
        if spec_reporter_is_other(issue) {
            let k = tags.len() - 1;
            assert(tags[k] == seq!["p"@, identity[issue.reporter_account_id->0@].pubkey@]);
            assert(tags[k][0] == "p"@);
        } else {
            // The reporter is the assignee, whose tag names the same pubkey.
            let k = front.len() as int;
            assert(issue.assignee_account_id->0@ == issue.reporter_account_id->0@);
            assert(tags[k] == seq!["p"@, identity[issue.reporter_account_id->0@].pubkey@]);
            assert(tags[k][0] == "p"@);
        }
    }
    if !assignee_mapped && !reporter_mapped {
        assert(people.len() == 0);
        assert(tags =~= front);
    }
}

/// The transform is deterministic: equal inputs give equal payloads, so
/// re-runs are stable and dedup by tag works.
pub proof fn lemma_item_deterministic(
    issue1: JiraIssue,
    issue2: JiraIssue,
    channel: Seq<char>,
    identity: Map<Seq<char>, Person>,
    status: Map<Seq<char>, Seq<char>>,
)
    requires
        issue1 == issue2,
    ensures
        spec_item(
            issue1,
            channel,
            spec_lowercase(issue1.issue_type@),
            spec_uppercase(issue1.issue_type@),
            identity,
            status,
        ) == spec_item(
            issue2,
            channel,
            spec_lowercase(issue2.issue_type@),
            spec_uppercase(issue2.issue_type@),
            identity,
            status,
        ),
{
}

/// An item gets a history reply exactly when its issue has comments.
pub proof fn lemma_history_iff_comments(issue: JiraIssue)
    ensures
        spec_history_reply(issue) is Some <==> issue.comments@.len() > 0,
{
}

} // verus!
