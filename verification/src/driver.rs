//! The ingestion driver: pull, validate, batch, write, acknowledge.
//!
//! Each cycle pulls at most `min(remaining budget, batch cap)` messages,
//! validates every one, flushes the accepted records as one batch — partial
//! or not — and acknowledges their positions only after the append
//! succeeded.  A write failure or a rejection in strict mode stops the
//! driver with nothing of that cycle acknowledged, so a restart redelivers
//! it.  `sim_run` is the specification the executable driver is proved
//! against, cycle by cycle.

use vstd::prelude::*;
use crate::batch::BatchBuilder;
use crate::source::{MessageView, Position, SimSource, views_of};
use crate::table::TableState;
use crate::validate::{RecordView, RejectReason, classify_payload, spec_classify, view_of_opt};

verus! {

/// Whether a cycle survives rejected messages or aborts on the first one.
#[derive(Clone, Copy, PartialEq, Eq, Structural, Debug)]
pub enum Mode {
    Lenient,
    Strict,
}

#[derive(Clone, Copy, PartialEq, Eq, Structural, Debug)]
pub struct DriverConfig {
    /// Total number of messages the run may consume.
    pub total_budget: usize,
    /// Most records a single batch may hold.
    pub batch_cap: usize,
    pub mode: Mode,
}

/// Spec accounting of one driver run.
pub ghost struct RunView {
    /// Records appended to the table, in order.
    pub appended: Seq<RecordView>,
    /// Positions acknowledged, in order.
    pub acked: Seq<Position>,
    /// Messages delivered, a failed final cycle included.
    pub pulled: int,
    /// Messages of completed cycles.
    pub consumed: int,
    /// Messages rejected, with the failed final cycle's included.
    pub rejected: int,
    /// Completed cycles.
    pub cycles: int,
    /// Successful appends.
    pub writes: int,
    /// The run stopped on a fatal error.
    pub failed: bool,
    /// The injected write fault is still pending afterward.
    pub fail_pending: bool,
}

pub open spec fn spec_min(a: int, b: int) -> int {
    if a <= b {
        a
    } else {
        b
    }
}

/// Records accepted out of a window, in delivery order.
pub open spec fn accepted_records(ms: Seq<MessageView>) -> Seq<RecordView>
    decreases ms.len(),
{
    if ms.len() == 0 {
        Seq::empty()
    } else {
        match spec_classify(ms.last().payload) {
            Ok(r) => accepted_records(ms.drop_last()).push(r),
            Err(_) => accepted_records(ms.drop_last()),
        }
    }
}

/// Positions of the accepted messages of a window, in delivery order.
pub open spec fn accepted_positions(ms: Seq<MessageView>) -> Seq<Position>
    decreases ms.len(),
{
    if ms.len() == 0 {
        Seq::empty()
    } else {
        match spec_classify(ms.last().payload) {
            Ok(_) => accepted_positions(ms.drop_last()).push(ms.last().position),
            Err(_) => accepted_positions(ms.drop_last()),
        }
    }
}

/// The rejected messages of a window, each with its reason.
pub open spec fn rejections_of(ms: Seq<MessageView>) -> Seq<(Position, RejectReason)>
    decreases ms.len(),
{
    if ms.len() == 0 {
        Seq::empty()
    } else {
        match spec_classify(ms.last().payload) {
            Ok(_) => rejections_of(ms.drop_last()),
            Err(e) => rejections_of(ms.drop_last()).push((ms.last().position, e)),
        }
    }
}

/// Extending a window by one message extends its partition accordingly.
pub proof fn lemma_partition_step(ms: Seq<MessageView>, i: int)
    requires
        0 <= i < ms.len(),
    ensures
        ({
            let p = ms.subrange(0, i);
            let q = ms.subrange(0, i + 1);
            match spec_classify(ms[i].payload) {
                Ok(r) => accepted_records(q) == accepted_records(p).push(r) && accepted_positions(
                    q,
                ) == accepted_positions(p).push(ms[i].position) && rejections_of(q)
                    == rejections_of(p),
                Err(e) => accepted_records(q) == accepted_records(p) && accepted_positions(q)
                    == accepted_positions(p) && rejections_of(q) == rejections_of(p).push(
                    (ms[i].position, e),
                ),
            }
        }),
{
    assert(ms.subrange(0, i + 1).drop_last() =~= ms.subrange(0, i));
    assert(ms.subrange(0, i + 1).last() == ms[i]);
}

/// Every message of a window is either accepted or rejected, never both.
pub proof fn lemma_partition_counts(ms: Seq<MessageView>)
    ensures
        accepted_records(ms).len() + rejections_of(ms).len() == ms.len(),
        accepted_positions(ms).len() == accepted_records(ms).len(),
    decreases ms.len(),
{
    if ms.len() > 0 {
        lemma_partition_counts(ms.drop_last());
    }
}

/// One driver run over the in-memory source, cycle by cycle: what is
/// appended, what is acknowledged, and how the run ends.
pub open spec fn sim_run(
    msgs: Seq<MessageView>,
    cursor: int,
    remaining: int,
    cap: int,
    mode: Mode,
    fail_pending: bool,
) -> RunView
    decreases remaining,
{
    if remaining <= 0 || cursor >= msgs.len() || cap <= 0 {
        RunView {
            appended: Seq::empty(),
            acked: Seq::empty(),
            pulled: 0,
            consumed: 0,
            rejected: 0,
            cycles: 0,
            writes: 0,
            failed: false,
            fail_pending,
        }
    } else {
        let n = spec_min(remaining, spec_min(cap, msgs.len() - cursor));
        let w = msgs.subrange(cursor, cursor + n);
        let acc = accepted_records(w);
        let rej = rejections_of(w);
        if mode is Strict && rej.len() > 0 {
            RunView {
                appended: Seq::empty(),
                acked: Seq::empty(),
                pulled: n,
                consumed: 0,
                rejected: rej.len() as int,
                cycles: 0,
                writes: 0,
                failed: true,
                fail_pending,
            }
        } else if acc.len() == 0 {
            let rest = sim_run(msgs, cursor + n, remaining - n, cap, mode, fail_pending);
            RunView {
                appended: rest.appended,
                acked: rest.acked,
                pulled: n + rest.pulled,
                consumed: n + rest.consumed,
                rejected: rej.len() + rest.rejected,
                cycles: 1 + rest.cycles,
                writes: rest.writes,
                failed: rest.failed,
                fail_pending: rest.fail_pending,
            }
        } else if fail_pending {
            RunView {
                appended: Seq::empty(),
                acked: Seq::empty(),
                pulled: n,
                consumed: 0,
                rejected: rej.len() as int,
                cycles: 0,
                writes: 0,
                failed: true,
                fail_pending: false,
            }
        } else {
            let rest = sim_run(msgs, cursor + n, remaining - n, cap, mode, false);
            RunView {
                appended: acc + rest.appended,
                acked: accepted_positions(w) + rest.acked,
                pulled: n + rest.pulled,
                consumed: n + rest.consumed,
                rejected: rej.len() + rest.rejected,
                cycles: 1 + rest.cycles,
                writes: 1 + rest.writes,
                failed: rest.failed,
                fail_pending: rest.fail_pending,
            }
        }
    }
}

/// The run's accounting stays within the budget.
pub proof fn lemma_sim_run_bounds(
    msgs: Seq<MessageView>,
    cursor: int,
    remaining: int,
    cap: int,
    mode: Mode,
    fail_pending: bool,
)
    requires
        remaining >= 0,
        0 <= cursor,
    ensures
        ({
            let rv = sim_run(msgs, cursor, remaining, cap, mode, fail_pending);
            0 <= rv.pulled <= remaining && 0 <= rv.consumed <= rv.pulled && rv.appended.len()
                <= rv.consumed && rv.acked.len() == rv.appended.len() && 0 <= rv.rejected
                && rv.rejected + rv.appended.len() <= rv.pulled && 0 <= rv.cycles <= rv.consumed
                && 0 <= rv.writes <= rv.cycles
        }),
    decreases remaining,
{
    if !(remaining <= 0 || cursor >= msgs.len() || cap <= 0) {
        let n = spec_min(remaining, spec_min(cap, msgs.len() - cursor));
        let w = msgs.subrange(cursor, cursor + n);
        assert(w.len() == n);
        lemma_partition_counts(w);
        let acc = accepted_records(w);
        let rej = rejections_of(w);
        if mode is Strict && rej.len() > 0 {
        } else if acc.len() == 0 {
            lemma_sim_run_bounds(msgs, cursor + n, remaining - n, cap, mode, fail_pending);
        } else if fail_pending {
        } else {
            lemma_sim_run_bounds(msgs, cursor + n, remaining - n, cap, mode, false);
        }
    }
}

/// What one driver run reports to its caller.
#[derive(Clone, Copy, PartialEq, Eq, Structural, Debug)]
pub struct RunReport {
    /// Records durably written.
    pub accepted: usize,
    /// Messages rejected during validation.
    pub rejected: usize,
    /// Completed cycles.
    pub cycles: usize,
    /// Successful appends, each one table version.
    pub writes: usize,
    /// The run stopped on a fatal error instead of exhausting its budget.
    pub failed: bool,
}

/// All of a run's effects on source and table, against the interpreter.
pub open spec fn run_post(
    src0: SimSource,
    tbl0: TableState,
    src1: SimSource,
    tbl1: TableState,
    rep: RunReport,
    rv: RunView,
) -> bool {
    src1.msgs@ == src0.msgs@ && src1.acked@ == src0.acked@ + rv.acked && src1.cursor == src0.cursor
        + rv.pulled && tbl1.schema@ == tbl0.schema@ && tbl1.col_idx@ == tbl0.col_idx@
        + rv.appended.map_values(|r: RecordView| r.idx) && tbl1.col_name.deep_view()
        == tbl0.col_name.deep_view() + rv.appended.map_values(|r: RecordView| r.name)
        && tbl1.col_ts@ == tbl0.col_ts@ + rv.appended.map_values(
        |r: RecordView| r.timestamp_micros,
    ) && tbl1.version == tbl0.version + rv.writes && tbl1.fail_next_append == rv.fail_pending
        && rep.accepted == rv.appended.len() && rep.rejected == rv.rejected && rep.cycles
        == rv.cycles && rep.writes == rv.writes && rep.failed == rv.failed
}

/// How one cycle ended.
#[derive(Clone, Copy, PartialEq, Eq, Structural, Debug)]
pub enum CycleStatus {
    /// A batch was written and its positions acknowledged.
    Wrote,
    /// No record was accepted; nothing written, nothing acknowledged.
    NoOp,
    /// The cycle failed; nothing written, nothing acknowledged.
    FailedCycle,
}

/// What one cycle reports.
#[derive(Clone, Copy, PartialEq, Eq, Structural, Debug)]
pub struct CycleResult {
    pub accepted: usize,
    pub rejected: usize,
    pub status: CycleStatus,
}

/// All of one cycle's effects on source and table.
pub open spec fn cycle_post(
    src0: SimSource,
    tbl0: TableState,
    src1: SimSource,
    tbl1: TableState,
    c: CycleResult,
    remaining: int,
    cap: int,
    mode: Mode,
) -> bool {
    let ms = views_of(src0.msgs@);
    let cursor = src0.cursor as int;
    let n = spec_min(remaining, spec_min(cap, ms.len() - cursor));
    let w = ms.subrange(cursor, cursor + n);
    let acc = accepted_records(w);
    let rej = rejections_of(w);
    src1.msgs@ == src0.msgs@ && src1.cursor == cursor + n && tbl1.schema@ == tbl0.schema@ && (if (
    mode is Strict && rej.len() > 0) {
        src1.acked@ == src0.acked@ && tbl1.col_idx@ == tbl0.col_idx@ && tbl1.col_name.deep_view()
            == tbl0.col_name.deep_view() && tbl1.col_ts@ == tbl0.col_ts@ && tbl1.version
            == tbl0.version && tbl1.fail_next_append == tbl0.fail_next_append && c.accepted == 0
            && c.rejected == rej.len() && c.status is FailedCycle
    } else if acc.len() == 0 {
        src1.acked@ == src0.acked@ && tbl1.col_idx@ == tbl0.col_idx@ && tbl1.col_name.deep_view()
            == tbl0.col_name.deep_view() && tbl1.col_ts@ == tbl0.col_ts@ && tbl1.version
            == tbl0.version && tbl1.fail_next_append == tbl0.fail_next_append && c.accepted == 0
            && c.rejected == rej.len() && c.status is NoOp
    } else if tbl0.fail_next_append {
        src1.acked@ == src0.acked@ && tbl1.col_idx@ == tbl0.col_idx@ && tbl1.col_name.deep_view()
            == tbl0.col_name.deep_view() && tbl1.col_ts@ == tbl0.col_ts@ && tbl1.version
            == tbl0.version && !tbl1.fail_next_append && c.accepted == 0 && c.rejected
            == rej.len() && c.status is FailedCycle
    } else {
        src1.acked@ == src0.acked@ + accepted_positions(w) && tbl1.col_idx@ == tbl0.col_idx@
            + acc.map_values(|r: RecordView| r.idx) && tbl1.col_name.deep_view()
            == tbl0.col_name.deep_view() + acc.map_values(|r: RecordView| r.name) && tbl1.col_ts@
            == tbl0.col_ts@ + acc.map_values(|r: RecordView| r.timestamp_micros) && tbl1.version
            == tbl0.version + 1 && !tbl1.fail_next_append && c.accepted == acc.len() && c.rejected
            == rej.len() && c.status is Wrote
    })
}

/// One cycle: pull a window, validate it, flush the accepted records as a
/// batch, append, and acknowledge the batch's positions only afterward.
#[verifier::rlimit(100)]
fn run_one_cycle(
    source: &mut SimSource,
    table: &mut TableState,
    remaining: usize,
    cap: usize,
    mode: Mode,
) -> (c: CycleResult)
    requires
        old(source).wf(),
        old(table).wf(),
        cap >= 1,
        remaining >= 1,
        old(source).cursor < old(source).msgs@.len(),
        old(table).version < 0xffff_ffff_ffff_ffffu64,
    ensures
        final(source).wf(),
        final(table).wf(),
        cycle_post(
            *old(source),
            *old(table),
            *final(source),
            *final(table),
            c,
            remaining as int,
            cap as int,
            mode,
        ),
{
    let ghost ms = views_of(old(source).msgs@);
    let ghost cursor0 = old(source).cursor as int;
    let want = if cap < remaining {
        cap
    } else {
        remaining
    };
    let window = source.pull(want);
    let n = window.len();
    proof {
        assert(n as int == spec_min(remaining as int, spec_min(cap as int, ms.len() - cursor0)));
    }
    let ghost w = ms.subrange(cursor0, cursor0 + n);
    proof {
        assert forall|i: int| 0 <= i < n implies views_of(window@)[i] == w[i] by {
            assert(window@[i]@ == source.msgs@[cursor0 + i]@);
        }
        assert(views_of(window@) =~= w);
    }
    // Validate every message of the window; partition into accepted
    // records with their positions, and a rejection count.
    let mut builder = BatchBuilder::new(cap);
    let mut positions: Vec<Position> = Vec::new();
    let mut rejected: usize = 0;
    let ghost mut recs: Seq<RecordView> = Seq::empty();
    let mut i: usize = 0;
    while i < n
        invariant
            n == window@.len() <= cap,
            i <= n,
            views_of(window@) =~= w,
            recs == accepted_records(w.subrange(0, i as int)),
            positions@ == accepted_positions(w.subrange(0, i as int)),
            rejected == rejections_of(w.subrange(0, i as int)).len(),
            rejected <= i,
            builder.wf(),
            builder.cap == cap,
            builder@.idx == recs.map_values(|r: RecordView| r.idx),
            builder@.names == recs.map_values(|r: RecordView| r.name),
            builder@.ts == recs.map_values(|r: RecordView| r.timestamp_micros),
        decreases n - i,
    {
        proof {
            lemma_partition_step(w, i as int);
            assert(w[i as int] == window@[i as int]@);
            assert(w[i as int].payload == view_of_opt(window@[i as int].payload));
        }
        match classify_payload(&window[i].payload) {
            Ok(rec) => {
                proof {
                    let stepped = recs.push(rec@);
                    assert(stepped.map_values(|r: RecordView| r.idx) =~= recs.map_values(
                        |r: RecordView| r.idx,
                    ).push(rec@.idx));
                    assert(stepped.map_values(|r: RecordView| r.name) =~= recs.map_values(
                        |r: RecordView| r.name,
                    ).push(rec@.name));
                    assert(stepped.map_values(|r: RecordView| r.timestamp_micros)
                        =~= recs.map_values(|r: RecordView| r.timestamp_micros).push(
                        rec@.timestamp_micros,
                    ));
                }
                let position = window[i].position;
                builder.add(rec);
                positions.push(position);
                proof {
                    recs = recs.push(rec@);
                }
            },
            Err(_) => {
                rejected = rejected + 1;
            },
        }
        i = i + 1;
    }
    proof {
        assert(w.subrange(0, n as int) =~= w);
        assert(recs == accepted_records(w));
        assert(positions@ == accepted_positions(w));
        assert(rejected == rejections_of(w).len());
    }
    let strict = match mode {
        Mode::Strict => true,
        Mode::Lenient => false,
    };
    if strict && rejected > 0 {
        // Strict mode aborts the whole cycle on any rejection: nothing is
        // written or acknowledged, so a restart redelivers the window.
        return CycleResult { accepted: 0, rejected, status: CycleStatus::FailedCycle };
    }
    match builder.build() {
        Err(_) => {
            // No accepted records: a no-op cycle, not a failure.
            CycleResult { accepted: 0, rejected, status: CycleStatus::NoOp }
        },
        Ok(batch) => {
            match table.append(&batch) {
                Err(_) => {
                    // The write failed: nothing of this cycle is
                    // acknowledged; a restart will redeliver it.
                    CycleResult { accepted: 0, rejected, status: CycleStatus::FailedCycle }
                },
                Ok(_) => {
                    // Acknowledge-after-write: the batch is durable, so
                    // its positions may now be marked processed.
                    source.acknowledge_all(&positions);
                    let accepted = batch.len();
                    CycleResult { accepted, rejected, status: CycleStatus::Wrote }
                },
            }
        },
    }
}

/// Run ingestion cycles until the budget is exhausted, the log runs dry,
/// or a fatal error stops the driver.
pub fn run_ingestion(source: &mut SimSource, table: &mut TableState, config: DriverConfig) -> (rep:
    RunReport)
    requires
        old(source).wf(),
        old(table).wf(),
        config.batch_cap >= 1,
        old(table).version + config.total_budget <= 0xffff_ffff_ffff_ffffu64,
    ensures
        final(source).wf(),
        final(table).wf(),
        run_post(
            *old(source),
            *old(table),
            *final(source),
            *final(table),
            rep,
            sim_run(
                views_of(old(source).msgs@),
                old(source).cursor as int,
                config.total_budget as int,
                config.batch_cap as int,
                config.mode,
                old(table).fail_next_append,
            ),
        ),
{
    run_cycles(source, table, config.total_budget, config.batch_cap, config.mode)
}

#[verifier::rlimit(100)]
fn run_cycles(
    source: &mut SimSource,
    table: &mut TableState,
    remaining: usize,
    cap: usize,
    mode: Mode,
) -> (rep: RunReport)
    requires
        old(source).wf(),
        old(table).wf(),
        cap >= 1,
        old(table).version + remaining <= 0xffff_ffff_ffff_ffffu64,
    ensures
        final(source).wf(),
        final(table).wf(),
        run_post(
            *old(source),
            *old(table),
            *final(source),
            *final(table),
            rep,
            sim_run(
                views_of(old(source).msgs@),
                old(source).cursor as int,
                remaining as int,
                cap as int,
                mode,
                old(table).fail_next_append,
            ),
        ),
    decreases remaining,
{
    let ghost ms = views_of(old(source).msgs@);
    let ghost cursor0 = old(source).cursor as int;
    let ghost rv = sim_run(
        ms,
        cursor0,
        remaining as int,
        cap as int,
        mode,
        old(table).fail_next_append,
    );
    proof {
        lemma_sim_run_bounds(
            ms,
            cursor0,
            remaining as int,
            cap as int,
            mode,
            old(table).fail_next_append,
        );
    }
    if remaining == 0 || source.cursor >= source.msgs.len() {
        let rep = RunReport { accepted: 0, rejected: 0, cycles: 0, writes: 0, failed: false };
        proof {
            lemma_no_effect(*old(source), *source, *old(table), rep, rv);
        }
        return rep;
    }
    let ghost n = spec_min(remaining as int, spec_min(cap as int, ms.len() - cursor0));
    let ghost w = ms.subrange(cursor0, cursor0 + n);
    let ghost acc = accepted_records(w);
    let ghost rej = rejections_of(w);
    let c = run_one_cycle(source, table, remaining, cap, mode);
    match c.status {
        CycleStatus::FailedCycle => {
            let rep = RunReport {
                accepted: 0,
                rejected: c.rejected,
                cycles: 0,
                writes: 0,
                failed: true,
            };
            proof {
                lemma_map_empty();
                assert(source.acked@ =~= old(source).acked@ + rv.acked);
                assert(table.col_idx@ =~= old(table).col_idx@ + rv.appended.map_values(
                    |r: RecordView| r.idx,
                ));
                assert(table.col_name.deep_view() =~= old(table).col_name.deep_view()
                    + rv.appended.map_values(|r: RecordView| r.name));
                assert(table.col_ts@ =~= old(table).col_ts@ + rv.appended.map_values(
                    |r: RecordView| r.timestamp_micros,
                ));
            }
            rep
        },
        CycleStatus::NoOp => {
            let ghost flag0 = old(table).fail_next_append;
            let rest = run_cycles(source, table, remaining - (cap_min(cap, remaining)), cap, mode);
            let ghost rv_rest = sim_run(ms, cursor0 + n, remaining as int - n, cap as int, mode, flag0);
            proof {
                lemma_sim_run_bounds(ms, cursor0 + n, remaining as int - n, cap as int, mode, flag0);
            }
            let rep = RunReport {
                accepted: rest.accepted,
                rejected: c.rejected + rest.rejected,
                cycles: 1 + rest.cycles,
                writes: rest.writes,
                failed: rest.failed,
            };
            rep
        },
        CycleStatus::Wrote => {
            let rest = run_cycles(source, table, remaining - (cap_min(cap, remaining)), cap, mode);
            let ghost rv_rest = sim_run(ms, cursor0 + n, remaining as int - n, cap as int, mode, false);
            proof {
                lemma_sim_run_bounds(ms, cursor0 + n, remaining as int - n, cap as int, mode, false);
            }
            let rep = RunReport {
                accepted: c.accepted + rest.accepted,
                rejected: c.rejected + rest.rejected,
                cycles: 1 + rest.cycles,
                writes: 1 + rest.writes,
                failed: rest.failed,
            };
            proof {
                let fidx = |r: RecordView| r.idx;
                let fname = |r: RecordView| r.name;
                let fts = |r: RecordView| r.timestamp_micros;
                assert(rv.appended == acc + rv_rest.appended);
                assert(rv.acked == accepted_positions(w) + rv_rest.acked);
                assert((acc + rv_rest.appended).map_values(fidx) =~= acc.map_values(fidx)
                    + rv_rest.appended.map_values(fidx));
                assert((acc + rv_rest.appended).map_values(fname) =~= acc.map_values(fname)
                    + rv_rest.appended.map_values(fname));
                assert((acc + rv_rest.appended).map_values(fts) =~= acc.map_values(fts)
                    + rv_rest.appended.map_values(fts));
                assert(final(source).acked@ =~= old(source).acked@ + rv.acked);
                assert(final(table).col_idx@ =~= old(table).col_idx@ + rv.appended.map_values(
                    fidx,
                ));
                assert(final(table).col_name.deep_view() =~= old(table).col_name.deep_view()
                    + rv.appended.map_values(fname));
                assert(final(table).col_ts@ =~= old(table).col_ts@ + rv.appended.map_values(fts));
                lemma_partition_counts(w);
            }
            rep
        },
    }
}

/// The smaller of two window bounds.
fn cap_min(a: usize, b: usize) -> (r: usize)
    ensures
        r as int == spec_min(a as int, b as int),
{
    if a <= b {
        a
    } else {
        b
    }
}

/// Mapping an empty record sequence yields empty columns.
proof fn lemma_map_empty()
    ensures
        Seq::<RecordView>::empty().map_values(|r: RecordView| r.idx) =~= Seq::<i64>::empty(),
        Seq::<RecordView>::empty().map_values(|r: RecordView| r.name) =~= Seq::<
            Seq<char>,
        >::empty(),
        Seq::<RecordView>::empty().map_values(|r: RecordView| r.timestamp_micros) =~= Seq::<
            i64,
        >::empty(),
{
}

/// A run that moves nothing leaves source and table as they were.
proof fn lemma_no_effect(
    src0: SimSource,
    src1: SimSource,
    tbl: TableState,
    rep: RunReport,
    rv: RunView,
)
    requires
        src1.msgs@ == src0.msgs@,
        src1.acked@ == src0.acked@,
        src1.cursor == src0.cursor,
        rv.appended == Seq::<RecordView>::empty(),
        rv.acked == Seq::<Position>::empty(),
        rv.pulled == 0,
        rv.rejected == 0,
        rv.cycles == 0,
        rv.writes == 0,
        !rv.failed,
        rv.fail_pending == tbl.fail_next_append,
        rep == (RunReport { accepted: 0, rejected: 0, cycles: 0, writes: 0, failed: false }),
    ensures
        run_post(src0, tbl, src1, tbl, rep, rv),
{
    lemma_map_empty();
    assert(src1.acked@ =~= src0.acked@ + rv.acked);
    assert(tbl.col_idx@ =~= tbl.col_idx@ + Seq::<i64>::empty());
    assert(tbl.col_name.deep_view() =~= tbl.col_name.deep_view() + Seq::<Seq<char>>::empty());
    assert(tbl.col_ts@ =~= tbl.col_ts@ + Seq::<i64>::empty());
}

} // verus!
