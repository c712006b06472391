//! The pipeline's cross-cutting guarantees, stated and proved against the
//! driver's specification.

use vstd::prelude::*;
use crate::driver::{
    Mode, accepted_positions, accepted_records, lemma_partition_counts, rejections_of,
    sim_run, spec_min,
};
use crate::source::{MessageView, SimSource};
use crate::validate::spec_classify;
use vstd::seq_lib::lemma_multiset_commutative;

verus! {

/// Every message of the window is accepted, none rejected.
pub proof fn lemma_all_valid_window(w: Seq<MessageView>)
    requires
        forall|i: int| 0 <= i < w.len() ==> spec_classify(w[i].payload) is Ok,
    ensures
        accepted_records(w).len() == w.len(),
        rejections_of(w).len() == 0,
    decreases w.len(),
{
    if w.len() > 0 {
        lemma_all_valid_window(w.drop_last());
    }
}

/// Round trip: a run over well-formed messages only, with no write fault
/// pending, appends one row per consumed message and rejects nothing; it
/// consumes the whole budget or the whole log, whichever ends first.
pub proof fn lemma_round_trip(
    msgs: Seq<MessageView>,
    cursor: int,
    remaining: int,
    cap: int,
    mode: Mode,
)
    requires
        0 <= cursor <= msgs.len(),
        cap >= 1,
        remaining >= 0,
        forall|i: int| cursor <= i < msgs.len() ==> spec_classify(msgs[i].payload) is Ok,
    ensures
        ({
            let rv = sim_run(msgs, cursor, remaining, cap, mode, false);
            rv.appended.len() == spec_min(remaining, msgs.len() - cursor) && rv.rejected == 0
                && !rv.failed && rv.acked.len() == rv.appended.len() && rv.consumed
                == rv.appended.len() && rv.fail_pending == false
        }),
    decreases remaining,
{
    if !(remaining <= 0 || cursor >= msgs.len() || cap <= 0) {
        let n = spec_min(remaining, spec_min(cap, msgs.len() - cursor));
        let w = msgs.subrange(cursor, cursor + n);
        lemma_all_valid_window(w);
        lemma_partition_counts(w);
        lemma_round_trip(msgs, cursor + n, remaining - n, cap, mode);
    }
}

/// Rejection accounting, over one cycle's window: lenient mode writes
/// exactly the accepted records and reports exactly the rejections;
/// strict mode with any rejection writes nothing, acknowledges nothing,
/// and reports the run failed.
pub proof fn lemma_rejection_accounting(msgs: Seq<MessageView>, cursor: int, remaining: int, cap:
    int, mode: Mode)
    requires
        0 <= cursor,
        1 <= remaining,
        remaining <= cap,
        cursor + remaining <= msgs.len(),
    ensures
        ({
            let w = msgs.subrange(cursor, cursor + remaining);
            let rv = sim_run(msgs, cursor, remaining, cap, mode, false);
            (mode is Lenient ==> rv.appended == accepted_records(w) && rv.acked
                == accepted_positions(w) && rv.rejected == rejections_of(w).len() && !rv.failed)
                && ((mode is Strict && rejections_of(w).len() > 0) ==> rv.failed
                && rv.appended.len() == 0 && rv.acked.len() == 0 && rv.rejected == rejections_of(
                w,
            ).len())
        }),
{
    let n = spec_min(remaining, spec_min(cap, msgs.len() - cursor));
    assert(n == remaining);
    let w = msgs.subrange(cursor, cursor + remaining);
    let acc = accepted_records(w);
    let rej = rejections_of(w);
    lemma_partition_counts(w);
    let rest = sim_run(msgs, cursor + n, 0, cap, mode, false);
    if !(mode is Strict && rej.len() > 0) {
        if acc.len() == 0 {
            assert(accepted_positions(w).len() == 0);
            assert(sim_run(msgs, cursor, remaining, cap, mode, false).appended =~= acc);
            assert(sim_run(msgs, cursor, remaining, cap, mode, false).acked =~= accepted_positions(
                w,
            ));
        } else {
            assert(acc + rest.appended =~= acc);
            assert(accepted_positions(w) + rest.acked =~= accepted_positions(w));
        }
    }
}

/// Acknowledge-after-write: while a write fault is pending, a run
/// acknowledges no position, appends no row, and commits no version.
pub proof fn lemma_ack_after_write(
    msgs: Seq<MessageView>,
    cursor: int,
    remaining: int,
    cap: int,
    mode: Mode,
)
    requires
        remaining >= 0,
        0 <= cursor,
    ensures
        ({
            let rv = sim_run(msgs, cursor, remaining, cap, mode, true);
            rv.acked.len() == 0 && rv.appended.len() == 0 && rv.writes == 0
        }),
    decreases remaining,
{
    if !(remaining <= 0 || cursor >= msgs.len() || cap <= 0) {
        let n = spec_min(remaining, spec_min(cap, msgs.len() - cursor));
        let w = msgs.subrange(cursor, cursor + n);
        let acc = accepted_records(w);
        let rej = rejections_of(w);
        if !(mode is Strict && rej.len() > 0) && acc.len() == 0 {
            lemma_ack_after_write(msgs, cursor + n, remaining - n, cap, mode);
        }
    }
}

/// After a failed cycle none of its window is acknowledged, so the first
/// unacknowledged message — where a restart resumes delivery — is exactly
/// the window's start: the same messages are delivered again.
pub proof fn lemma_restart_redelivers(s: SimSource, c0: int, n: int)
    requires
        s.wf(),
        0 <= c0 < s.msgs@.len(),
        s.prefix_acked(c0),
        !s.acked@.contains(s.msgs@[c0].position),
        0 <= n <= s.msgs@.len(),
        s.prefix_acked(n),
        n == s.msgs@.len() || !s.acked@.contains(s.msgs@[n as int].position),
    ensures
        n == c0,
{
    if n < c0 {
        assert(s.acked@.contains(s.msgs@[n as int].position));
        assert(false);
    }
    if n > c0 {
        assert(s.acked@.contains(s.msgs@[c0].position));
        assert(false);
    }
}

/// Table appends are additive and order-independent across batches: the
/// rows' multiset is the same whichever of two batches lands first, so a
/// redelivered batch adds duplicate rows without disturbing existing ones.
pub proof fn lemma_append_order_independent<T>(base: Seq<T>, b1: Seq<T>, b2: Seq<T>)
    ensures
        ((base + b1) + b2).to_multiset() =~= ((base + b2) + b1).to_multiset(),
{
    lemma_multiset_commutative(base + b1, b2);
    lemma_multiset_commutative(base, b1);
    lemma_multiset_commutative(base + b2, b1);
    lemma_multiset_commutative(base, b2);
    assert(((base + b1) + b2).to_multiset() =~= base.to_multiset().add(
        b1.to_multiset().add(b2.to_multiset()),
    ));
    assert(((base + b2) + b1).to_multiset() =~= base.to_multiset().add(
        b2.to_multiset().add(b1.to_multiset()),
    ));
}

} // verus!
