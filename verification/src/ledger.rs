//! Append-only ledger for idempotency and resume.
//!
//! One JSON line per item. Reading the ledger keeps, for each Jira key, the
//! entry written last; on restart, items whose stage is `Done` are skipped. The file itself is read and written by the program
//! around the library; this module holds the line splitting and the
//! last-write-wins resolution.

use vstd::prelude::*;

use crate::emit::EmitOutcome;
use crate::text::{copy_opt, is_whitespace, push_char, spec_is_blank, spec_is_whitespace};

verus! {

/// Per-item migration stage.
#[derive(Debug, Clone, Copy, PartialEq, Eq, Structural)]
pub enum Stage {
    Root,
    Comments,
    Attachments,
    State,
    Done,
    Failed,
}

/// One ledger row.
#[derive(Debug, Clone)]
pub struct Entry {
    pub jira: String,
    pub buzz_item: Option<String>,
    pub stage: Stage,
    pub state: Option<String>,
    pub comments: usize,
    pub attachments: usize,
}

impl Entry {
    /// A field-by-field copy of this entry.
    pub fn duplicate(&self) -> (e: Entry)
        ensures
            e == *self,
    {
        Entry {
            jira: self.jira.clone(),
            buzz_item: copy_opt(&self.buzz_item),
            stage: self.stage,
            state: copy_opt(&self.state),
            comments: self.comments,
            attachments: self.attachments,
        }
    }
}

/// Append-only ledger backed by a JSONL file.
pub struct Ledger {
    path: String,
}

impl Ledger {
    /// The path of the ledger file.
    pub closed spec fn spec_path(&self) -> Seq<char> {
        self.path@
    }

    /// Open (or create) a ledger at `path`. Nothing is read until the entries
    /// are loaded, so opening always succeeds.
    pub fn open(path: &str) -> (r: Result<Ledger, crate::error::ImportError>)
        ensures
            r matches Ok(l) && l.spec_path() == path@,
    {
        Ok(Ledger { path: String::from_str(path) })
    }

    /// The path of the ledger file.
    pub fn path(&self) -> (p: &str)
        ensures
            p@ == self.spec_path(),
    {
        self.path.as_str()
    }
}

/// The line without one trailing carriage return.
pub open spec fn spec_strip_cr(line: Seq<char>) -> Seq<char> {
    if line.len() > 0 && line.last() == '\r' {
        line.drop_last()
    } else {
        line
    }
}

/// Reading `text` left to right: the non-blank lines completed by a newline
/// (each without one trailing carriage return), and the unfinished last line.
pub open spec fn spec_line_scan(text: Seq<char>) -> (Seq<Seq<char>>, Seq<char>)
    decreases text.len(),
{
    if text.len() == 0 {
        (seq![], seq![])
    } else {
        let (done, cur) = spec_line_scan(text.drop_last());
        if text.last() == '\n' {
            (
                if spec_is_blank(cur) {
                    done
                } else {
                    done.push(spec_strip_cr(cur))
                },
                seq![],
            )
        } else {
            (done, cur.push(text.last()))
        }
    }
}

/// The non-blank lines of `text`, as `str::lines` splits it (at `\n` or
/// `\r\n`; the final line ending is optional).
pub open spec fn spec_ledger_lines(text: Seq<char>) -> Seq<Seq<char>> {
    let (done, cur) = spec_line_scan(text);
    if spec_is_blank(cur) {
        done
    } else {
        done.push(cur)
    }
}

proof fn lemma_blank_push(s: Seq<char>, c: char)
    ensures
        spec_is_blank(s.push(c)) == (spec_is_blank(s) && spec_is_whitespace(c)),
{
    if spec_is_blank(s) && spec_is_whitespace(c) {
        assert forall|i: int| 0 <= i < s.push(c).len() implies spec_is_whitespace(
            #[trigger] s.push(c)[i],
        ) by {
            if i < s.len() {
                assert(s.push(c)[i] == s[i]);
            }
        }
    }
    if spec_is_blank(s.push(c)) {
        assert(s.push(c)[s.len() as int] == c);
        assert forall|i: int| 0 <= i < s.len() implies spec_is_whitespace(#[trigger] s[i]) by {
            assert(s.push(c)[i] == s[i]);
        }
    }
}

/// The non-blank lines of the ledger text, in file order.
pub fn ledger_lines(text: &str) -> (lines: Vec<String>)
    ensures
        lines@.map_values(|l: String| l@) == spec_ledger_lines(text@),
{
    let mut lines: Vec<String> = Vec::new();
    // The current line is `body` followed by a carriage return when `cr`.
    let mut body = String::new();
    let mut cr = false;
    let mut blank = true;
    let ghost mut seen: Seq<char> = seq![];
    for c in it: text.chars()
        invariant
            it.seq() == text@,
            seen == text@.take(it.index() as int),
            !cr ==> (body@.len() == 0 || body@.last() != '\r'),
            ({
                let (done, cur) = spec_line_scan(seen);
                &&& lines@.map_values(|l: String| l@) == done
                &&& cur == (if cr {
                    body@.push('\r')
                } else {
                    body@
                })
                &&& blank == spec_is_blank(cur)
            }),
    {
        let ghost prev = seen;
        proof {
            seen = text@.take(it.index() + 1);
            assert(seen.drop_last() =~= prev);
            assert(seen.last() == c);
        }
        let ghost (done0, cur0) = spec_line_scan(prev);
        if c == '\n' {
            if !blank {
                let ghost before = lines@;
                lines.push(body);
                proof {
                    if cr {
                        assert(cur0.drop_last() =~= body@);
                    }
                    assert(spec_strip_cr(cur0) == body@);
                    assert(lines@.map_values(|l: String| l@) =~= before.map_values(
                        |l: String| l@,
                    ).push(spec_strip_cr(cur0)));
                }
            }
            body = String::new();
            cr = false;
            blank = true;
            proof {
                assert(spec_is_blank(Seq::<char>::empty()));
            }
        } else {
            proof {
                lemma_blank_push(cur0, c);
            }
            blank = blank && is_whitespace(c);
            if cr {
                push_char(&mut body, '\r');
            }
            if c == '\r' {
                cr = true;
            } else {
                push_char(&mut body, c);
                cr = false;
            }
            proof {
                if c == '\r' {
                    assert(cur0.push(c) =~= body@.push('\r'));
                } else {
                    assert(cur0.push(c) =~= body@);
                }
            }
        }
    }
    proof {
        assert(seen =~= text@);
    }
    if !blank {
        if cr {
            push_char(&mut body, '\r');
        }
        let ghost before = lines@;
        lines.push(body);
        assert(lines@.map_values(|l: String| l@) =~= before.map_values(|l: String| l@).push(
            body@,
        ));
    }
    lines
}

proof fn lemma_line_scan(text: Seq<char>)
    ensures
        forall|i: int|
            0 <= i < spec_line_scan(text).0.len() ==> !spec_is_blank(
                #[trigger] spec_line_scan(text).0[i],
            ) && !spec_line_scan(text).0[i].contains('\n'),
        !spec_line_scan(text).1.contains('\n'),
    decreases text.len(),
{
    if text.len() > 0 {
        lemma_line_scan(text.drop_last());
        let (done, cur) = spec_line_scan(text.drop_last());
        let c = text.last();
        if c == '\n' {
            if !spec_is_blank(cur) {
                let line = spec_strip_cr(cur);
                let k = choose|k: int| 0 <= k < cur.len() && !spec_is_whitespace(#[trigger] cur[k]);
                if cur.len() > 0 && cur.last() == '\r' {
                    assert(k < cur.len() - 1);
                    assert(line[k] == cur[k]);
                }
                assert(!spec_is_blank(line));
                assert(!line.contains('\n')) by {
                    if line.contains('\n') {
                        let j = choose|j: int| 0 <= j < line.len() && line[j] == '\n';
                        assert(cur[j] == '\n');
                    }
                }
                let next = done.push(line);
                assert forall|i: int| 0 <= i < next.len() implies !spec_is_blank(#[trigger] next[i])
                    && !next[i].contains('\n') by {
                    if i < done.len() {
                        assert(next[i] == done[i]);
                    }
                }
            }
            assert(!Seq::<char>::empty().contains('\n'));
        } else {
            assert(!cur.push(c).contains('\n')) by {
                if cur.push(c).contains('\n') {
                    let j = choose|j: int| 0 <= j < cur.push(c).len() && cur.push(c)[j] == '\n';
                    if j < cur.len() {
                        assert(cur[j] == '\n');
                    }
                }
            }
        }
    }
}

/// Every line handed to the entry parser is a single line (no newline inside)
/// that holds something other than white space.
pub proof fn lemma_ledger_lines_nonblank(text: Seq<char>)
    ensures
        forall|i: int|
            0 <= i < spec_ledger_lines(text).len() ==> !spec_is_blank(
                #[trigger] spec_ledger_lines(text)[i],
            ) && !spec_ledger_lines(text)[i].contains('\n'),
{
    lemma_line_scan(text);
    let (done, cur) = spec_line_scan(text);
    if !spec_is_blank(cur) {
        let r = done.push(cur);
        assert forall|i: int| 0 <= i < r.len() implies !spec_is_blank(#[trigger] r[i])
            && !r[i].contains('\n') by {
            if i < done.len() {
                assert(r[i] == done[i]);
            }
        }
    }
}

proof fn lemma_scan_no_newline(a: Seq<char>, b: Seq<char>)
    requires
        !b.contains('\n'),
    ensures
        spec_line_scan(a + b) == (spec_line_scan(a).0, spec_line_scan(a).1 + b),
    decreases b.len(),
{
    if b.len() == 0 {
        assert(a + b =~= a);
        assert(spec_line_scan(a).1 + b =~= spec_line_scan(a).1);
    } else {
        let b0 = b.drop_last();
        assert(!b0.contains('\n')) by {
            if b0.contains('\n') {
                let j = choose|j: int| 0 <= j < b0.len() && b0[j] == '\n';
                assert(b[j] == '\n');
            }
        }
        lemma_scan_no_newline(a, b0);
        assert((a + b).drop_last() =~= a + b0);
        assert((a + b).last() == b.last());
        assert(b.last() != '\n') by {
            assert(b[b.len() - 1] == b.last());
        }
        assert((spec_line_scan(a).1 + b0).push(b.last()) =~= spec_line_scan(a).1 + b);
    }
}

proof fn lemma_scan_congruent(a1: Seq<char>, a2: Seq<char>, b: Seq<char>)
    requires
        spec_line_scan(a1) == spec_line_scan(a2),
    ensures
        spec_line_scan(a1 + b) == spec_line_scan(a2 + b),
    decreases b.len(),
{
    if b.len() == 0 {
        assert(a1 + b =~= a1);
        assert(a2 + b =~= a2);
    } else {
        lemma_scan_congruent(a1, a2, b.drop_last());
        assert((a1 + b).drop_last() =~= a1 + b.drop_last());
        assert((a2 + b).drop_last() =~= a2 + b.drop_last());
        assert((a1 + b).last() == b.last());
        assert((a2 + b).last() == b.last());
    }
}

/// The ledger text made of `lines`, each ended by a newline.
pub open spec fn spec_join_lines(lines: Seq<Seq<char>>) -> Seq<char>
    decreases lines.len(),
{
    if lines.len() == 0 {
        seq![]
    } else {
        spec_join_lines(lines.drop_last()) + lines.last() + seq!['\n']
    }
}

/// A line as the ledger writes one: something besides white space, no
/// newline inside, and no carriage return at its end.
pub open spec fn spec_is_written_line(line: Seq<char>) -> bool {
    &&& !spec_is_blank(line)
    &&& !line.contains('\n')
    &&& line.last() != '\r'
}

proof fn lemma_scan_join(lines: Seq<Seq<char>>)
    requires
        forall|i: int| 0 <= i < lines.len() ==> spec_is_written_line(#[trigger] lines[i]),
    ensures
        spec_line_scan(spec_join_lines(lines)) == (lines, Seq::<char>::empty()),
    decreases lines.len(),
{
    if lines.len() == 0 {
        assert(spec_join_lines(lines) =~= Seq::<char>::empty());
        assert(lines =~= Seq::<Seq<char>>::empty());
    } else {
        let init = lines.drop_last();
        let l = lines.last();
        assert(spec_is_written_line(lines[lines.len() - 1]));
        assert forall|i: int| 0 <= i < init.len() implies spec_is_written_line(#[trigger] init[i]) by {
            assert(init[i] == lines[i]);
        }
        lemma_scan_join(init);
        let prefix = spec_join_lines(init);
        lemma_scan_no_newline(prefix, l);
        assert(Seq::<char>::empty() + l =~= l);
        let text = spec_join_lines(lines);
        assert(text == prefix + l + seq!['\n']);
        assert(text.drop_last() =~= prefix + l);
        assert(text.last() == '\n');
        assert(spec_strip_cr(l) == l);
        assert(init.push(l) =~= lines);
    }
}

/// Read-back: the non-blank lines of a ledger text written one line at a
/// time (each line non-blank, without newline, not ending in a carriage
/// return, and ended by a newline) are those lines, in the order written.
pub proof fn lemma_ledger_lines_read_back(lines: Seq<Seq<char>>)
    requires
        forall|i: int| 0 <= i < lines.len() ==> spec_is_written_line(#[trigger] lines[i]),
    ensures
        spec_ledger_lines(spec_join_lines(lines)) == lines,
{
    lemma_scan_join(lines);
    assert(spec_is_blank(Seq::<char>::empty()));
}

proof fn lemma_scan_blank_lines(before: Seq<char>, blanks: Seq<Seq<char>>)
    requires
        spec_line_scan(before).1.len() == 0,
        forall|i: int|
            0 <= i < blanks.len() ==> spec_is_blank(#[trigger] blanks[i]) && !blanks[i].contains(
                '\n',
            ),
    ensures
        spec_line_scan(before + spec_join_lines(blanks)) == spec_line_scan(before),
    decreases blanks.len(),
{
    if blanks.len() == 0 {
        assert(before + spec_join_lines(blanks) =~= before);
    } else {
        let init = blanks.drop_last();
        let w = blanks.last();
        assert(spec_is_blank(blanks[blanks.len() - 1]) && !blanks[blanks.len() - 1].contains('\n'));
        assert forall|i: int| 0 <= i < init.len() implies spec_is_blank(#[trigger] init[i])
            && !init[i].contains('\n') by {
            assert(init[i] == blanks[i]);
        }
        lemma_scan_blank_lines(before, init);
        let x = before + spec_join_lines(init);
        lemma_scan_no_newline(x, w);
        assert(spec_line_scan(x).1 + w =~= w);
        let y = before + spec_join_lines(blanks);
        assert(y =~= x + w + seq!['\n']);
        assert(y.drop_last() =~= x + w);
        assert(y.last() == '\n');
        assert(spec_line_scan(before).1 =~= Seq::<char>::empty());
    }
}

/// Blank lines do not count, however many: inserting a run of white-space
/// lines at a line start (or removing one) leaves the lines of the ledger
/// text unchanged.
pub proof fn lemma_blank_lines_ignored(before: Seq<char>, blanks: Seq<Seq<char>>, after: Seq<char>)
    requires
        before.len() == 0 || before.last() == '\n',
        forall|i: int|
            0 <= i < blanks.len() ==> spec_is_blank(#[trigger] blanks[i]) && !blanks[i].contains(
                '\n',
            ),
    ensures
        spec_ledger_lines(before + spec_join_lines(blanks) + after) == spec_ledger_lines(
            before + after,
        ),
{
    if before.len() > 0 {
        assert(before.drop_last() + seq![before.last()] =~= before);
    }
    assert(spec_line_scan(before).1.len() == 0);
    lemma_scan_blank_lines(before, blanks);
    lemma_scan_congruent(before + spec_join_lines(blanks), before, after);
}

/// Entry `i` is the last one written for its Jira key.
pub open spec fn spec_is_latest(entries: Seq<Entry>, i: int) -> bool {
    forall|j: int| i < j < entries.len() ==> #[trigger] entries[j].jira@ != entries[i].jira@
}

/// Of the first `n` entries, those that are the last written for their key, in order.
pub open spec fn spec_latest_upto(entries: Seq<Entry>, n: int) -> Seq<Entry>
    decreases n,
{
    if n <= 0 {
        seq![]
    } else if spec_is_latest(entries, n - 1) {
        spec_latest_upto(entries, n - 1).push(entries[n - 1])
    } else {
        spec_latest_upto(entries, n - 1)
    }
}

/// The entries keyed by Jira key, last write wins, in the order they were written.
pub open spec fn spec_latest(entries: Seq<Entry>) -> Seq<Entry> {
    spec_latest_upto(entries, entries.len() as int)
}

/// `e` is, among the first `n` entries, one written last for its key.
pub open spec fn spec_kept_before(entries: Seq<Entry>, e: Entry, n: int) -> bool {
    exists|k: int| 0 <= k < n && spec_is_latest(entries, k) && entries[k] == e
}

proof fn lemma_latest_upto(entries: Seq<Entry>, n: int)
    requires
        0 <= n <= entries.len(),
    ensures
        forall|x: int|
            0 <= x < spec_latest_upto(entries, n).len() ==> spec_kept_before(
                entries,
                #[trigger] spec_latest_upto(entries, n)[x],
                n,
            ),
        forall|k: int|
            0 <= k < n && spec_is_latest(entries, k) ==> #[trigger] spec_latest_upto(
                entries,
                n,
            ).contains(entries[k]),
        forall|x: int, y: int|
            0 <= x < y < spec_latest_upto(entries, n).len() ==> (#[trigger] spec_latest_upto(
                entries,
                n,
            )[x]).jira@ != (#[trigger] spec_latest_upto(entries, n)[y]).jira@,
    decreases n,
{
    if n > 0 {
        lemma_latest_upto(entries, n - 1);
        let prev = spec_latest_upto(entries, n - 1);
        let cur = spec_latest_upto(entries, n);
        assert forall|x: int| 0 <= x < prev.len() implies spec_kept_before(
            entries,
            #[trigger] prev[x],
            n,
        ) by {
            assert(spec_kept_before(entries, prev[x], n - 1));
            let k = choose|k: int|
                0 <= k < n - 1 && spec_is_latest(entries, k) && entries[k] == prev[x];
            assert(0 <= k < n && spec_is_latest(entries, k) && entries[k] == prev[x]);
        }
        if spec_is_latest(entries, n - 1) {
            assert(cur == prev.push(entries[n - 1]));
            assert forall|x: int| 0 <= x < cur.len() implies spec_kept_before(
                entries,
                #[trigger] cur[x],
                n,
            ) by {
                if x < prev.len() {
                    assert(cur[x] == prev[x]);
                } else {
                    assert(cur[x] == entries[n - 1]);
                    assert(0 <= n - 1 < n && spec_is_latest(entries, n - 1) && entries[n - 1]
                        == cur[x]);
                }
            }
            assert forall|k: int| 0 <= k < n && spec_is_latest(entries, k) implies #[trigger] cur.contains(
                entries[k],
            ) by {
                if k < n - 1 {
                    assert(prev.contains(entries[k]));
                    let x = choose|x: int| 0 <= x < prev.len() && prev[x] == entries[k];
                    assert(cur[x] == entries[k]);
                } else {
                    assert(cur[prev.len() as int] == entries[k]);
                }
            }
            assert forall|x: int, y: int| 0 <= x < y < cur.len() implies (#[trigger] cur[x]).jira@
                != (#[trigger] cur[y]).jira@ by {
                if y < prev.len() {
                    assert(cur[x] == prev[x] && cur[y] == prev[y]);
                } else {
                    assert(cur[x] == prev[x]);
                    assert(spec_kept_before(entries, prev[x], n - 1));
                    let k = choose|k: int|
                        0 <= k < n - 1 && spec_is_latest(entries, k) && entries[k] == prev[x];
                    assert(entries[n - 1].jira@ != entries[k].jira@);
                }
            }
        } else {
            assert(cur == prev);
            assert forall|k: int| 0 <= k < n && spec_is_latest(entries, k) implies #[trigger] cur.contains(
                entries[k],
            ) by {
                assert(k < n - 1);
            }
        }
    }
}

/// Last write wins: after resolution every Jira key appears at most once,
/// every entry kept is the last one written for its key, and every entry
/// written last for its key is kept.
pub proof fn lemma_latest_last_write_wins(entries: Seq<Entry>)
    ensures
        forall|x: int, y: int|
            0 <= x < y < spec_latest(entries).len() ==> (#[trigger] spec_latest(entries)[x]).jira@
                != (#[trigger] spec_latest(entries)[y]).jira@,
        forall|x: int|
            0 <= x < spec_latest(entries).len() ==> spec_kept_before(
                entries,
                #[trigger] spec_latest(entries)[x],
                entries.len() as int,
            ),
        forall|k: int|
            0 <= k < entries.len() && spec_is_latest(entries, k) ==> #[trigger] spec_latest(
                entries,
            ).contains(entries[k]),
{
    lemma_latest_upto(entries, entries.len() as int);
}

/// Keep, for each Jira key, only the entry written last (last write wins),
/// in file order.
pub fn latest_entries(entries: &Vec<Entry>) -> (r: Vec<Entry>)
    ensures
        r@ == spec_latest(entries@),
{
    let mut out: Vec<Entry> = Vec::new();
    let n = entries.len();
    let mut i: usize = 0;
    while i < n
        invariant
            n == entries@.len(),
            i <= n,
            out@ == spec_latest_upto(entries@, i as int),
        decreases n - i,
    {
        let mut later = false;
        let mut j: usize = i + 1;
        while j < n
            invariant
                n == entries@.len(),
                i < n,
                i + 1 <= j <= n,
                later == exists|k: int| i < k < j && #[trigger] entries@[k].jira@ == entries@[i as int].jira@,
            decreases n - j,
        {
            if entries[j].jira == entries[i].jira {
                later = true;
            }
            j = j + 1;
        }
        if !later {
            out.push(entries[i].duplicate());
        }
        i = i + 1;
    }
    out
}

/// Some entry for `jira_key` has reached the `Done` stage.
pub open spec fn spec_marks_done(entries: Seq<Entry>, jira_key: Seq<char>) -> bool {
    exists|i: int| 0 <= i < entries.len() && (#[trigger] entries[i]).jira@ == jira_key && entries[i].stage
        == Stage::Done
}

/// An item counts as `Done` by its own rows only: an empty ledger marks
/// nothing; a row for another key (even one that begins with this key) leaves
/// the answer for this key as it was; and a row for this key marks it exactly
/// when that row, or an earlier one, is `Done`.
pub proof fn lemma_marks_done_by_exact_key(entries: Seq<Entry>, e: Entry, key: Seq<char>)
    ensures
        !spec_marks_done(Seq::<Entry>::empty(), key),
        e.jira@ != key ==> spec_marks_done(entries.push(e), key) == spec_marks_done(entries, key),
        spec_marks_done(entries.push(e), e.jira@) == (spec_marks_done(entries, e.jira@) || e.stage
            == Stage::Done),
{
    let all = entries.push(e);
    if spec_marks_done(entries, key) {
        let i = choose|i: int|
            0 <= i < entries.len() && (#[trigger] entries[i]).jira@ == key && entries[i].stage
                == Stage::Done;
        assert(all[i] == entries[i]);
    }
    if spec_marks_done(all, key) && e.jira@ != key {
        let i = choose|i: int|
            0 <= i < all.len() && (#[trigger] all[i]).jira@ == key && all[i].stage == Stage::Done;
        assert(i < entries.len());
        assert(all[i] == entries[i]);
    }
    if spec_marks_done(entries, e.jira@) {
        let i = choose|i: int|
            0 <= i < entries.len() && (#[trigger] entries[i]).jira@ == e.jira@ && entries[i].stage
                == Stage::Done;
        assert(all[i] == entries[i]);
    }
    if e.stage == Stage::Done {
        assert(all[entries.len() as int] == e);
    }
    if spec_marks_done(all, e.jira@) && !(e.stage == Stage::Done) {
        let i = choose|i: int|
            0 <= i < all.len() && (#[trigger] all[i]).jira@ == e.jira@ && all[i].stage
                == Stage::Done;
        assert(i < entries.len());
        assert(all[i] == entries[i]);
    }
}

/// Whether the ledger marks an item `Done`, so that a restart skips it.
pub fn marks_done(entries: &Vec<Entry>, jira_key: &str) -> (b: bool)
    ensures
        b == spec_marks_done(entries@, jira_key@),
        b <==> exists|i: int|
            0 <= i < entries@.len() && (#[trigger] entries@[i]).jira@ == jira_key@ && entries@[i].stage
                == Stage::Done,
{
    let key = String::from_str(jira_key);
    let mut i: usize = 0;
    while i < entries.len()
        invariant
            i <= entries@.len(),
            key@ == jira_key@,
            forall|j: int| 0 <= j < i ==> !((#[trigger] entries@[j]).jira@ == jira_key@ && entries@[j].stage == Stage::Done),
        decreases entries@.len() - i,
    {
        if entries[i].jira == key && entries[i].stage == Stage::Done {
            return true;
        }
        i = i + 1;
    }
    false
}

/// The ledger row recording that an item was fully migrated.
pub fn done_entry(jira_key: &str, outcome: &EmitOutcome) -> (e: Entry)
    ensures
        e.jira@ == jira_key@,
        e.buzz_item == Some(outcome.item_id),
        e.stage == Stage::Done,
        e.state == outcome.seeded_state,
        e.comments == outcome.comments,
        e.attachments == outcome.attachments,
{
    Entry {
        jira: String::from_str(jira_key),
        buzz_item: Some(outcome.item_id.clone()),
        stage: Stage::Done,
        state: copy_opt(&outcome.seeded_state),
        comments: outcome.comments,
        attachments: outcome.attachments,
    }
}

} // verus!
