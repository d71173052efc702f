//! The import run: which step comes next. For each product in order, the
//! open issues are fetched; each issue is checked against the relay and the
//! ledger, emitted only when the relay holds no imported item for it and the
//! ledger does not mark it `Done`, and recorded in the ledger once emitted. A
//! dry run records nothing. The program performs each step and reports what
//! happened.

use vstd::prelude::*;

verus! {

/// The step the program performs next. Indices are into the config's
/// products and the issues fetched for the current product.
#[derive(Debug, Clone, Copy, PartialEq, Eq, Structural)]
pub enum RunStep {
    /// Fetch the open issues of a product.
    Fetch { product: usize },
    /// Ask the relay and the ledger whether an issue was already imported.
    Check { product: usize, issue: usize },
    /// Build and emit an issue's payloads.
    Emit { product: usize, issue: usize },
    /// Append the issue's `Done` row to the ledger.
    Record { product: usize, issue: usize },
    /// Nothing is left to do.
    Finish,
}

/// What the program reports after performing a step.
#[derive(Debug, Clone, Copy, PartialEq, Eq, Structural)]
pub enum RunEvent {
    /// The product's open issues were fetched; this many.
    Fetched { issues: usize },
    /// The relay and the ledger were asked: whether the relay holds an
    /// imported item, and whether the ledger marks the issue `Done`.
    Checked { on_relay: bool, done: bool },
    /// The issue's payloads were emitted.
    Emitted,
    /// The issue's ledger row was appended.
    Recorded,
}

/// Where an import run stands.
#[derive(Debug, Clone, Copy, PartialEq, Eq, Structural)]
pub struct ImportRun {
    /// Number of products to migrate.
    pub products: usize,
    /// Number of issues fetched for the current product.
    pub issues: usize,
    /// The step to perform next.
    pub step: RunStep,
    /// Payloads are computed and logged, nothing is migrated or recorded.
    pub dry_run: bool,
}

/// The step after the current product is done.
pub open spec fn spec_after_product(products: usize, product: usize) -> RunStep {
    if product + 1 < products {
        RunStep::Fetch { product: (product + 1) as usize }
    } else {
        RunStep::Finish
    }
}

/// The step after an issue is done (skipped or recorded).
pub open spec fn spec_after_issue(products: usize, issues: usize, product: usize, issue: usize) -> RunStep {
    if issue + 1 < issues {
        RunStep::Check { product, issue: (issue + 1) as usize }
    } else {
        spec_after_product(products, product)
    }
}

/// The run after `event` is reported for its current step.
pub open spec fn spec_next(run: ImportRun, event: RunEvent) -> ImportRun {
    match (run.step, event) {
        (RunStep::Fetch { product }, RunEvent::Fetched { issues }) => ImportRun {
            issues,
            step: if issues == 0 {
                spec_after_product(run.products, product)
            } else {
                RunStep::Check { product, issue: 0 }
            },
            ..run
        },
        (RunStep::Check { product, issue }, RunEvent::Checked { on_relay, done }) => ImportRun {
            step: if on_relay || done {
                spec_after_issue(run.products, run.issues, product, issue)
            } else {
                RunStep::Emit { product, issue }
            },
            ..run
        },
        (RunStep::Emit { product, issue }, RunEvent::Emitted) => ImportRun {
            step: if run.dry_run {
                spec_after_issue(run.products, run.issues, product, issue)
            } else {
                RunStep::Record { product, issue }
            },
            ..run
        },
        (RunStep::Record { product, issue }, RunEvent::Recorded) => ImportRun {
            step: spec_after_issue(run.products, run.issues, product, issue),
            ..run
        },
        _ => run,
    }
}

impl ImportRun {
    /// Indices of the step are in range.
    pub open spec fn wf(self) -> bool {
        match self.step {
            RunStep::Fetch { product } => product < self.products,
            RunStep::Check { product, issue } => product < self.products && issue < self.issues,
            RunStep::Emit { product, issue } => product < self.products && issue < self.issues,
            RunStep::Record { product, issue } => product < self.products && issue < self.issues,
            RunStep::Finish => true,
        }
    }

    /// `event` is what performing the current step reports.
    pub open spec fn expects(self, event: RunEvent) -> bool {
        match (self.step, event) {
            (RunStep::Fetch { .. }, RunEvent::Fetched { .. }) => true,
            (RunStep::Check { .. }, RunEvent::Checked { .. }) => true,
            (RunStep::Emit { .. }, RunEvent::Emitted) => true,
            (RunStep::Record { .. }, RunEvent::Recorded) => true,
            _ => false,
        }
    }

    /// A run over `products` products, a dry run or not: the first product is
    /// fetched, or the run is finished when there are none.
    pub fn start(products: usize, dry_run: bool) -> (r: ImportRun)
        ensures
            r.wf(),
            r.products == products,
            r.issues == 0,
            r.dry_run == dry_run,
            r.step == (if products == 0 {
                RunStep::Finish
            } else {
                RunStep::Fetch { product: 0 }
            }),
    {
        ImportRun {
            products,
            issues: 0,
            step: if products == 0 {
                RunStep::Finish
            } else {
                RunStep::Fetch { product: 0 }
            },
            dry_run,
        }
    }

    fn after_product(products: usize, product: usize) -> (s: RunStep)
        requires
            product < products,
        ensures
            s == spec_after_product(products, product),
    {
        if product + 1 < products {
            RunStep::Fetch { product: product + 1 }
        } else {
            RunStep::Finish
        }
    }

    fn after_issue(products: usize, issues: usize, product: usize, issue: usize) -> (s: RunStep)
        requires
            product < products,
            issue < issues,
        ensures
            s == spec_after_issue(products, issues, product, issue),
    {
        if issue + 1 < issues {
            RunStep::Check { product, issue: issue + 1 }
        } else {
            Self::after_product(products, product)
        }
    }

    /// The run after the current step reported `event`.
    pub fn advance(self, event: RunEvent) -> (r: ImportRun)
        requires
            self.wf(),
            self.expects(event),
        ensures
            r == spec_next(self, event),
            r.wf(),
    {
        match (self.step, event) {
            (RunStep::Fetch { product }, RunEvent::Fetched { issues }) => ImportRun {
                products: self.products,
                issues,
                step: if issues == 0 {
                    Self::after_product(self.products, product)
                } else {
                    RunStep::Check { product, issue: 0 }
                },
                dry_run: self.dry_run,
            },
            (RunStep::Check { product, issue }, RunEvent::Checked { on_relay, done }) => ImportRun {
                products: self.products,
                issues: self.issues,
                step: if on_relay || done {
                    Self::after_issue(self.products, self.issues, product, issue)
                } else {
                    RunStep::Emit { product, issue }
                },
                dry_run: self.dry_run,
            },
            (RunStep::Emit { product, issue }, RunEvent::Emitted) => ImportRun {
                products: self.products,
                issues: self.issues,
                step: if self.dry_run {
                    Self::after_issue(self.products, self.issues, product, issue)
                } else {
                    RunStep::Record { product, issue }
                },
                dry_run: self.dry_run,
            },
            (RunStep::Record { product, issue }, RunEvent::Recorded) => ImportRun {
                products: self.products,
                issues: self.issues,
                step: Self::after_issue(self.products, self.issues, product, issue),
                dry_run: self.dry_run,
            },
            _ => self,
        }
    }
}

/// Idempotency and resume: an issue is emitted only right after the relay
/// reported no imported item for it and the ledger did not mark it `Done`; an
/// issue found on the relay or marked `Done` is skipped.
pub proof fn lemma_emit_only_when_absent(run: ImportRun, event: RunEvent)
    requires
        run.wf(),
        run.expects(event),
    ensures
        spec_next(run, event).step matches RunStep::Emit { product, issue } ==> run.step
            == (RunStep::Check { product, issue }) && event == (RunEvent::Checked {
            on_relay: false,
            done: false,
        }),
        (event matches RunEvent::Checked { on_relay, done } && (on_relay || done)) ==> !(spec_next(
            run,
            event,
        ).step is Emit),
{
}

/// Outside a dry run every emitted issue is recorded in the ledger next,
/// under the same indices.
pub proof fn lemma_emitted_then_recorded(run: ImportRun)
    requires
        run.wf(),
        run.step is Emit,
        !run.dry_run,
    ensures
        spec_next(run, RunEvent::Emitted).step == (RunStep::Record {
            product: run.step->Emit_product,
            issue: run.step->Emit_issue,
        }),
{
}

/// A dry run never records a ledger row: no step of it is `Record`.
pub proof fn lemma_dry_run_records_nothing(run: ImportRun, event: RunEvent)
    requires
        run.wf(),
        run.dry_run,
        !(run.step is Record),
        run.expects(event),
    ensures
        !(spec_next(run, event).step is Record),
        spec_next(run, event).dry_run,
{
}

/// Issues of a product are visited in order and products one after another:
/// after an issue is done, the next one is checked, or the next product is
/// fetched, or the run finishes after the last product.
pub proof fn lemma_visits_in_order(run: ImportRun, product: usize, issue: usize)
    requires
        run.wf(),
        run.step == (RunStep::Record { product, issue }),
    ensures
        spec_next(run, RunEvent::Recorded).step == (if issue + 1 < run.issues {
            RunStep::Check { product, issue: (issue + 1) as usize }
        } else if product + 1 < run.products {
            RunStep::Fetch { product: (product + 1) as usize }
        } else {
            RunStep::Finish
        }),
{
}

/// How much work is left, ordered lexicographically: products still to
/// start, whether the current product is still to be fetched, and the steps
/// left on its issues.
pub open spec fn spec_work_left(run: ImportRun) -> (int, int, int) {
    match run.step {
        RunStep::Fetch { product } => (run.products - product, 1, 0),
        RunStep::Check { product, issue } => (run.products - product, 0, (run.issues - issue) * 3
            + 2),
        RunStep::Emit { product, issue } => (run.products - product, 0, (run.issues - issue) * 3
            + 1),
        RunStep::Record { product, issue } => (run.products - product, 0, (run.issues - issue)
            * 3),
        RunStep::Finish => (0, 0, 0),
    }
}

/// Lexicographic order on work measures.
pub open spec fn spec_less_work(a: (int, int, int), b: (int, int, int)) -> bool {
    ||| a.0 < b.0
    ||| (a.0 == b.0 && a.1 < b.1)
    ||| (a.0 == b.0 && a.1 == b.1 && a.2 < b.2)
}

/// Every reported step leaves strictly less work (and never negative work),
/// so an import run always finishes.
pub proof fn lemma_run_progresses(run: ImportRun, event: RunEvent)
    requires
        run.wf(),
        run.expects(event),
    ensures
        spec_less_work(spec_work_left(spec_next(run, event)), spec_work_left(run)),
        spec_work_left(spec_next(run, event)).0 >= 0,
        spec_work_left(spec_next(run, event)).2 >= 0,
{
}

/// The run after reporting `events` one by one, from `run`.
pub open spec fn spec_run_after(run: ImportRun, events: Seq<RunEvent>) -> ImportRun
    decreases events.len(),
{
    if events.len() == 0 {
        run
    } else {
        spec_next(spec_run_after(run, events.drop_last()), events.last())
    }
}

/// Each event of `events` is what performing the step reached before it reports.
pub open spec fn spec_legal_trace(run: ImportRun, events: Seq<RunEvent>) -> bool {
    forall|j: int|
        0 <= j < events.len() ==> #[trigger] spec_run_after(run, events.take(j)).expects(events[j])
}

/// Where a step stands in the run's order: by product, then issue, then phase.
pub open spec fn spec_position(run: ImportRun) -> (int, int, int) {
    match run.step {
        RunStep::Fetch { product } => (product as int, -1, 0),
        RunStep::Check { product, issue } => (product as int, issue as int, 0),
        RunStep::Emit { product, issue } => (product as int, issue as int, 1),
        RunStep::Record { product, issue } => (product as int, issue as int, 2),
        RunStep::Finish => (run.products as int, 0, 0),
    }
}

/// Lexicographic order on positions.
pub open spec fn spec_before(a: (int, int, int), b: (int, int, int)) -> bool {
    ||| a.0 < b.0
    ||| (a.0 == b.0 && a.1 < b.1)
    ||| (a.0 == b.0 && a.1 == b.1 && a.2 < b.2)
}

proof fn lemma_step_moves_forward(run: ImportRun, event: RunEvent)
    requires
        run.wf(),
        run.expects(event),
    ensures
        spec_next(run, event).wf(),
        spec_next(run, event).products == run.products,
        spec_next(run, event).dry_run == run.dry_run,
        spec_before(spec_position(run), spec_position(spec_next(run, event))),
{
}

proof fn lemma_trace_moves_forward(run: ImportRun, events: Seq<RunEvent>, j: int, k: int)
    requires
        run.wf(),
        spec_legal_trace(run, events),
        0 <= j < k <= events.len(),
    ensures
        spec_run_after(run, events.take(k)).wf(),
        spec_run_after(run, events.take(k)).products == run.products,
        spec_before(
            spec_position(spec_run_after(run, events.take(j))),
            spec_position(spec_run_after(run, events.take(k))),
        ),
    decreases k,
{
    let prev = spec_run_after(run, events.take(k - 1));
    assert(events.take(k).drop_last() =~= events.take(k - 1));
    assert(events.take(k).last() == events[k - 1]);
    if k - 1 > j {
        lemma_trace_moves_forward(run, events, j, k - 1);
    } else {
        lemma_trace_wf(run, events, k - 1);
    }
    assert(prev.expects(events[k - 1]));
    lemma_step_moves_forward(prev, events[k - 1]);
}

proof fn lemma_trace_wf(run: ImportRun, events: Seq<RunEvent>, k: int)
    requires
        run.wf(),
        spec_legal_trace(run, events),
        0 <= k <= events.len(),
    ensures
        spec_run_after(run, events.take(k)).wf(),
        spec_run_after(run, events.take(k)).products == run.products,
    decreases k,
{
    if k == 0 {
        assert(events.take(0) =~= Seq::<RunEvent>::empty());
    } else {
        lemma_trace_wf(run, events, k - 1);
        assert(events.take(k).drop_last() =~= events.take(k - 1));
        assert(events.take(k).last() == events[k - 1]);
        let prev = spec_run_after(run, events.take(k - 1));
        assert(prev.expects(events[k - 1]));
        lemma_step_moves_forward(prev, events[k - 1]);
    }
}

/// Over a whole run: once an issue is checked and found on the relay or
/// marked `Done` in the ledger, it is never emitted later in the run. So a
/// run over a selection that a finished run already imported emits nothing.
pub proof fn lemma_skipped_issue_never_emitted(
    run: ImportRun,
    events: Seq<RunEvent>,
    j: int,
    k: int,
    product: usize,
    issue: usize,
)
    requires
        run.wf(),
        spec_legal_trace(run, events),
        0 <= j < k <= events.len(),
        spec_run_after(run, events.take(j)).step == (RunStep::Check { product, issue }),
        events[j] matches RunEvent::Checked { on_relay, done } && (on_relay || done),
    ensures
        spec_run_after(run, events.take(k)).step != (RunStep::Emit { product, issue }),
{
    lemma_trace_wf(run, events, j);
    let at = spec_run_after(run, events.take(j));
    assert(events.take(j + 1).drop_last() =~= events.take(j));
    assert(events.take(j + 1).last() == events[j]);
    let next = spec_run_after(run, events.take(j + 1));
    assert(next == spec_next(at, events[j]));
    lemma_step_moves_forward(at, events[j]);
    assert(spec_before((product as int, issue as int, 1), spec_position(next)));
    if k > j + 1 {
        lemma_trace_moves_forward(run, events, j + 1, k);
    }
}

/// The product a step works on (the product count once finished).
pub open spec fn spec_current_product(run: ImportRun) -> int {
    spec_position(run).0
}

/// Products are taken one after another: a step stays on its product, or
/// moves to fetching the very next one, and the run finishes only from the
/// last product.
pub proof fn lemma_products_in_turn(run: ImportRun, event: RunEvent)
    requires
        run.wf(),
        run.expects(event),
    ensures
        ({
            let next = spec_next(run, event);
            &&& next.step is Finish ==> spec_current_product(run) + 1 == run.products
            &&& next.step matches RunStep::Fetch { product } ==> product == spec_current_product(run)
                + 1
            &&& !(next.step is Finish) && !(next.step is Fetch) ==> spec_current_product(next)
                == spec_current_product(run)
        }),
{
}

/// Skipping an issue (found on the relay or marked `Done`) moves on exactly
/// as recording it would: to the next issue, else the next product, else the
/// end.
pub proof fn lemma_skip_moves_on_like_record(run: ImportRun, on_relay: bool, done: bool)
    requires
        run.wf(),
        run.step is Check,
        on_relay || done,
    ensures
        spec_next(run, RunEvent::Checked { on_relay, done }).step == spec_next(
            ImportRun {
                step: RunStep::Record {
                    product: run.step->Check_product,
                    issue: run.step->Check_issue,
                },
                ..run
            },
            RunEvent::Recorded,
        ).step,
{
}

/// A product without open issues moves on exactly as finishing the last
/// issue of that product would.
pub proof fn lemma_empty_product_moves_on(run: ImportRun, last: usize)
    requires
        run.wf(),
        run.step is Fetch,
    ensures
        spec_next(run, RunEvent::Fetched { issues: 0 }).step == spec_next(
            ImportRun {
                issues: (last + 1) as usize,
                step: RunStep::Record { product: run.step->Fetch_product, issue: last },
                ..run
            },
            RunEvent::Recorded,
        ).step,
{
}

/// Product `p` was fetched within the first `k` steps of a trace.
pub open spec fn spec_fetched_within(run: ImportRun, events: Seq<RunEvent>, k: int, p: int) -> bool {
    exists|j: int|
        0 <= j <= k && (#[trigger] spec_run_after(run, events.take(j))).step == (RunStep::Fetch {
            product: p as usize,
        })
}

proof fn lemma_fetched_invariant(run: ImportRun, events: Seq<RunEvent>, k: int)
    requires
        run.wf(),
        run.step == (if run.products == 0 {
            RunStep::Finish
        } else {
            RunStep::Fetch { product: 0 }
        }),
        spec_legal_trace(run, events),
        0 <= k <= events.len(),
    ensures
        forall|p: int|
            0 <= p < spec_current_product(spec_run_after(run, events.take(k))) && p < run.products
                ==> spec_fetched_within(run, events, k, p),
        !(spec_run_after(run, events.take(k)).step is Finish) ==> spec_fetched_within(
            run,
            events,
            k,
            spec_current_product(spec_run_after(run, events.take(k))),
        ),
    decreases k,
{
    if k == 0 {
        assert(events.take(0) =~= Seq::<RunEvent>::empty());
        assert(spec_run_after(run, events.take(0)) == run);
        if run.products != 0 {
            assert(spec_run_after(run, events.take(0)).step == (RunStep::Fetch { product: 0 }));
        }
    } else {
        lemma_fetched_invariant(run, events, k - 1);
        lemma_trace_wf(run, events, k - 1);
        let prev = spec_run_after(run, events.take(k - 1));
        let cur = spec_run_after(run, events.take(k));
        assert(events.take(k).drop_last() =~= events.take(k - 1));
        assert(events.take(k).last() == events[k - 1]);
        assert(cur == spec_next(prev, events[k - 1]));
        assert(prev.expects(events[k - 1]));
        lemma_products_in_turn(prev, events[k - 1]);
        lemma_step_moves_forward(prev, events[k - 1]);
        let c = spec_current_product(prev);
        assert forall|p: int| 0 <= p <= c && p < run.products implies spec_fetched_within(
            run,
            events,
            k,
            p,
        ) by {
            if p < c {
                assert(spec_fetched_within(run, events, k - 1, p));
            } else {
                assert(!(prev.step is Finish));
                assert(spec_fetched_within(run, events, k - 1, c));
            }
            let j = choose|j: int|
                0 <= j <= k - 1 && (#[trigger] spec_run_after(run, events.take(j))).step == (
                RunStep::Fetch { product: p as usize });
            assert(0 <= j <= k);
        }
        if cur.step matches RunStep::Fetch { product } {
            assert(spec_run_after(run, events.take(k)).step == (RunStep::Fetch {
                product: spec_current_product(cur) as usize,
            }));
        }
    }
}

/// Every product is fetched: once a run from the start finishes, each
/// product was fetched at some step of it.
pub proof fn lemma_finish_after_every_product(run: ImportRun, events: Seq<RunEvent>, k: int)
    requires
        run.wf(),
        run.step == (if run.products == 0 {
            RunStep::Finish
        } else {
            RunStep::Fetch { product: 0 }
        }),
        spec_legal_trace(run, events),
        0 <= k <= events.len(),
        spec_run_after(run, events.take(k)).step is Finish,
    ensures
        forall|p: int| 0 <= p < run.products ==> spec_fetched_within(run, events, k, p),
{
    lemma_fetched_invariant(run, events, k);
    lemma_trace_wf(run, events, k);
}

} // verus!
