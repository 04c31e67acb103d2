//! The laws the protocol keeps, stated over the mathematical models and
//! proved once and for all. The law about a finalized peek's result
//! multiset stands beside the accumulation itself, in the trace module.

use vstd::prelude::*;
use crate::expr::ExprV;
use crate::dataflow::{DataflowV, spec_df_name};
use crate::registry::{
    df_contains, in_contains, tr_contains, tr_find, df_remove, in_remove, tr_remove,
    lemma_df_first_props, lemma_in_first_props, lemma_tr_first_props, lemma_df_first_at,
    lemma_in_first_at, lemma_tr_first_at, lemma_df_remove_unique, lemma_in_remove_unique,
    lemma_tr_remove_unique,
};
use crate::trace::TraceDataV;
use crate::trace::Frontier;
use crate::worker::{
    WorkerModel, PendingPeekV, DataflowCommand, PeekWhen, spec_is_final, spec_kept,
    spec_create_dataflow, spec_drop_all, spec_drop_one, spec_get_key, spec_transient_df,
    spec_temp_name, spec_pending_peek, spec_insert_command, spec_apply_input,
    spec_names_unique, lemma_drop_all_frame,
};
use crate::system::{spec_dispatch_worker, spec_step_deliveries};

verus! {

/// Law: a pending peek whose trace's upper frontier is at or below its
/// timestamp is not yet final, and a sweep keeps it pending.
pub proof fn lemma_pending_stays(
    ts: Seq<(ExprV, TraceDataV)>,
    ps: Seq<PendingPeekV>,
    i: int,
)
    requires
        0 <= i < ps.len(),
        tr_find(ts, ps[i].expr) matches Some(td) && td.upper.spec_less_equal(ps[i].timestamp),
    ensures
        spec_kept(ts, ps).contains(ps[i]),
    decreases ps.len(),
{
    if i == 0 {
        assert(!spec_is_final(ts, ps[0]));
        assert(spec_kept(ts, ps)[0] == ps[0]);
    } else {
        assert(ps.drop_first()[i - 1] == ps[i]);
        lemma_pending_stays(ts, ps.drop_first(), i - 1);
        let sub = spec_kept(ts, ps.drop_first());
        let pre = if !spec_is_final(ts, ps[0]) {
            seq![ps[0]]
        } else {
            Seq::<PendingPeekV>::empty()
        };
        assert(spec_kept(ts, ps) == pre + sub);
        let k = choose|k: int| 0 <= k < sub.len() && sub[k] == ps[i];
        assert((pre + sub)[pre.len() + k] == ps[i]);
    }
}

/// Law: the input time never decreases, and a dispatched command moves it
/// by the same amount on every worker: by one for an insertion, not at all
/// otherwise.
pub proof fn lemma_dispatch_input_time(w: WorkerModel, w0: WorkerModel, cmd: DataflowCommand)
    requires
        cmd matches DataflowCommand::Insert(..) ==> w.input_time < u64::MAX,
    ensures
        spec_dispatch_worker(w, w0, cmd).input_time == (match cmd {
            DataflowCommand::Insert(..) => (w.input_time + 1) as u64,
            _ => w.input_time,
        }),
        spec_dispatch_worker(w, w0, cmd).input_time >= w.input_time,
{
    match cmd {
        DataflowCommand::DropDataflows(ds) => {
            lemma_drop_all_frame(w, ds.deep_view());
        }
        _ => {}
    }
}

/// Law: workers that agree on the input time before a command agree after
/// it: the command history alone determines the time, on every worker.
pub proof fn lemma_input_time_agrees(
    w1: WorkerModel,
    w2: WorkerModel,
    w0: WorkerModel,
    cmd: DataflowCommand,
)
    requires
        w1.input_time == w2.input_time,
        cmd matches DataflowCommand::Insert(..) ==> w1.input_time < u64::MAX,
    ensures
        spec_dispatch_worker(w1, w0, cmd).input_time == spec_dispatch_worker(
            w2,
            w0,
            cmd,
        ).input_time,
{
    lemma_dispatch_input_time(w1, w0, cmd);
    lemma_dispatch_input_time(w2, w0, cmd);
}

/// Law: the peeks every worker intakes form one total order. A worker's
/// intake history is the log prefix of its sequencer position; draining
/// appends exactly the remaining suffix, so every worker's full intake
/// sequence is the log itself, identical across workers.
pub proof fn lemma_intake_total_order(w: WorkerModel, log: Seq<PendingPeekV>)
    requires
        0 <= w.seq_pos <= log.len(),
    ensures
        log.take(w.seq_pos) + log.skip(w.seq_pos) == log,
{
    assert(log.take(w.seq_pos) + log.skip(w.seq_pos) =~= log);
}

/// Law: the rows an insertion leaves in the traces are the same function
/// of the registries on every worker: a worker's index, and the number of
/// workers, do not enter. Only worker 0 emits; the engine broadcast gives
/// every worker the same rows.
pub proof fn lemma_insert_worker_independent(
    w1: WorkerModel,
    w2: WorkerModel,
    w0: WorkerModel,
    name: String,
    rows: Vec<crate::repr::Row>,
)
    requires
        w1.traces == w2.traces,
        w1.dataflows == w2.dataflows,
    ensures
        spec_dispatch_worker(w1, w0, DataflowCommand::Insert(name, rows)).traces
            == spec_dispatch_worker(w2, w0, DataflowCommand::Insert(name, rows)).traces,
{
    let m1 = spec_insert_command(w1);
    let m2 = spec_insert_command(w2);
    assert(m1.traces == m2.traces);
    assert(m1.dataflows == m2.dataflows);
    assert(spec_apply_input(m1, name@, rows.deep_view(), w0.input_time).traces
        == spec_apply_input(m2, name@, rows.deep_view(), w0.input_time).traces);
}

/// Law: installing a fresh dataflow and then dropping it returns the
/// registries — dataflows, inputs and traces — to their prior state, and
/// touches nothing else.
pub proof fn lemma_create_then_drop(m: WorkerModel, d: DataflowV)
    requires
        !df_contains(m.dataflows, spec_df_name(d)),
        !in_contains(m.inputs, spec_df_name(d)),
        !tr_contains(m.traces, spec_get_key(d)),
    ensures
        spec_drop_all(spec_create_dataflow(m, d), seq![d]) == m,
{
    let name = spec_df_name(d);
    let c = spec_create_dataflow(m, d);
    assert(seq![d].drop_first() =~= Seq::<DataflowV>::empty());
    assert(seq![d][0] == d);
    assert(spec_drop_all(spec_drop_one(c, d), seq![d].drop_first()) == spec_drop_one(c, d));
    assert(spec_drop_all(c, seq![d]) == spec_drop_one(c, d));
    lemma_df_first_props(m.dataflows, name);
    assert(c.dataflows == m.dataflows.push(d));
    lemma_df_first_at(c.dataflows, name, m.dataflows.len() as int);
    assert(df_remove(c.dataflows, name) =~= m.dataflows);
    lemma_in_first_props(m.inputs, name);
    match d {
        DataflowV::Source { .. } => {
            lemma_in_first_at(c.inputs, name, m.inputs.len() as int);
            assert(in_remove(c.inputs, name) =~= m.inputs);
        }
        _ => {
            assert(c.inputs == m.inputs);
            assert(in_remove(c.inputs, name) == m.inputs);
        }
    }
    lemma_tr_first_props(m.traces, spec_get_key(d));
    match d {
        DataflowV::Sink { .. } => {
            assert(c.traces == m.traces);
        }
        _ => {
            lemma_tr_first_at(c.traces, spec_get_key(d), m.traces.len() as int);
            assert(tr_remove(c.traces, spec_get_key(d)) =~= m.traces);
        }
    }
    assert(spec_drop_one(c, d) =~= m);
}

/// Law: a transient peek at an explicit timestamp is the explicit
/// create-peek-drop sequence for a fresh view name, apart from the
/// drop-after-peek marker: both install the same view, both sequence a
/// peek of the same expression at the same verbatim timestamp for the same
/// connection, and the post-delivery drop returns the registries to their
/// prior state — exactly what the explicit drop does.
pub proof fn lemma_transient_equiv(m: WorkerModel, e: ExprV, t: u64, uuid: u128)
    requires
        !df_contains(m.dataflows, spec_temp_name(m.transient_view_counter)),
        !in_contains(m.inputs, spec_temp_name(m.transient_view_counter)),
        !tr_contains(m.traces, spec_get_key(spec_transient_df(m, e))),
    ensures
        ({
            let d = spec_transient_df(m, e);
            let created = spec_create_dataflow(m, d);
            let transient = spec_pending_peek(created, uuid, d, PeekWhen::AtTimestamp(t), true);
            let explicit = spec_pending_peek(created, uuid, d, PeekWhen::AtTimestamp(t), false);
            &&& transient.expr == explicit.expr
            &&& transient.timestamp == t
            &&& explicit.timestamp == t
            &&& transient.connection_uuid == explicit.connection_uuid
            &&& transient.drop_after_peek == Some(d)
            &&& explicit.drop_after_peek == None::<DataflowV>
            &&& spec_drop_all(created, seq![d]) == m
        }),
{
    lemma_create_then_drop(m, spec_transient_df(m, e));
}


/// Law: a dropped dataflow's name is gone. Under the uniqueness invariant
/// of the registries, dropping removes the name from the dataflow and
/// input registries, and the trace key of a non-sink from the trace
/// registry — whether the drop was explicit or queued by a retired
/// transient peek.
pub proof fn lemma_drop_removes_name(m: WorkerModel, d: DataflowV)
    requires
        spec_names_unique(m),
    ensures
        !df_contains(spec_drop_one(m, d).dataflows, spec_df_name(d)),
        !in_contains(spec_drop_one(m, d).inputs, spec_df_name(d)),
        !(d matches DataflowV::Sink { .. }) ==> !tr_contains(
            spec_drop_one(m, d).traces,
            spec_get_key(d),
        ),
{
    lemma_df_remove_unique(m.dataflows, spec_df_name(d));
    lemma_in_remove_unique(m.inputs, spec_df_name(d));
    match d {
        DataflowV::Sink { .. } => {}
        _ => {
            lemma_tr_remove_unique(m.traces, spec_get_key(d));
        }
    }
}

/// Law: a peek at the maximum timestamp never becomes final against a
/// trace that can still receive updates, so a sweep keeps it pending and
/// nothing is ever delivered for it; shutdown discards it with the worker.
pub proof fn lemma_max_timestamp_stays_pending(
    ts: Seq<(ExprV, TraceDataV)>,
    ps: Seq<PendingPeekV>,
    i: int,
)
    requires
        0 <= i < ps.len(),
        ps[i].timestamp == u64::MAX,
        tr_find(ts, ps[i].expr) matches Some(td) && td.upper is At,
    ensures
        !spec_is_final(ts, ps[i]),
        spec_kept(ts, ps).contains(ps[i]),
{
    lemma_pending_stays(ts, ps, i);
}


/// Law: the deliveries of a sweep depend only on the traces, the pending
/// peeks and the sequencer position — never on the worker's index or on
/// how many workers there are. Every worker of the pool therefore computes
/// the same results, and the pool hands exactly one copy of them, worker
/// 0's, to the configured sink.
pub proof fn lemma_step_deliveries_worker_independent(
    w1: WorkerModel,
    w2: WorkerModel,
    log: Seq<PendingPeekV>,
)
    requires
        w1.traces == w2.traces,
        w1.pending_peeks == w2.pending_peeks,
        w1.seq_pos == w2.seq_pos,
    ensures
        spec_step_deliveries(w1, log) == spec_step_deliveries(w2, log),
{
}

} // verus!
