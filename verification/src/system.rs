//! The worker pool: N symmetric workers sharing one total order of peeks.
//!
//! Commands reach every worker; the sequencer log models the engine-wide
//! total-order broadcast that only worker 0 pushes into and every worker
//! drains. The engine's own work — moving emitted rows into traces and
//! advancing frontiers — enters through the broadcast events below, which
//! apply uniformly to every worker.

use vstd::prelude::*;
use crate::repr::{Row, RowV};
use crate::expr::Expr;
use crate::registry::{tr_find, tr_contains};
use crate::trace::Frontier;
use crate::worker::{
    WorkerState, WorkerModel, PendingPeek, PendingPeekV, DataflowCommand, CommandMeta,
    CommandEffects, spec_init_worker, spec_command_ok, spec_create_dataflow, spec_drop_all,
    spec_insert_command, spec_shutdown, spec_apply_input, spec_apply_trace, spec_advance_trace,
    spec_pending_peek, spec_transient_df, spec_peeks_ok, spec_kept, spec_deliveries,
    spec_retire_drops, spec_after_intake, spec_retire, spec_names_unique, lemma_unique_create,
    lemma_unique_drop_all, lemma_unique_insert, lemma_unique_apply_trace,
    lemma_unique_advance_trace, dual_dataflow, dual_rows,
};

verus! {

/// The mathematical state of the pool.
#[verifier::ext_equal]
pub struct SystemModel {
    pub workers: Seq<WorkerModel>,
    pub log: Seq<PendingPeekV>,
}

/// The pool of workers and the sequencer's total order of peeks.
#[derive(Debug)]
pub struct SystemState {
    pub workers: Vec<WorkerState>,
    pub log: Vec<PendingPeek>,
}

impl View for SystemState {
    type V = SystemModel;

    open spec fn view(&self) -> SystemModel {
        SystemModel { workers: self.workers.deep_view(), log: self.log.deep_view() }
    }
}

/// The pool is well formed: at least one worker, each knowing its index.
pub open spec fn spec_sys_wf(m: SystemModel) -> bool {
    &&& m.workers.len() >= 1
    &&& forall|i: int| 0 <= i < m.workers.len() ==> (#[trigger] m.workers[i]).index == i
}

/// Every worker accepts the command.
pub open spec fn spec_sys_command_ok(m: SystemModel, cmd: DataflowCommand) -> bool {
    forall|i: int| 0 <= i < m.workers.len() ==> spec_command_ok(#[trigger] m.workers[i], cmd)
}

/// The state of one worker after a command was dispatched to the pool:
/// its own transition, followed by the engine broadcasting worker 0's
/// emitted rows into every worker's trace.
pub open spec fn spec_dispatch_worker(
    w: WorkerModel,
    w0: WorkerModel,
    cmd: DataflowCommand,
) -> WorkerModel {
    match cmd {
        DataflowCommand::CreateDataflow(d) => spec_create_dataflow(w, d.deep_view()),
        DataflowCommand::DropDataflows(ds) => spec_drop_all(w, ds.deep_view()),
        DataflowCommand::PeekExisting { .. } => w,
        DataflowCommand::PeekTransient { relation_expr, .. } => (WorkerModel {
            transient_view_counter: (w.transient_view_counter + 1) as u64,
            ..spec_create_dataflow(w, spec_transient_df(w, relation_expr.deep_view()))
        }),
        DataflowCommand::Insert(name, rows) => spec_apply_input(
            spec_insert_command(w),
            name@,
            rows.deep_view(),
            w0.input_time,
        ),
        DataflowCommand::Tail(_) => w,
        DataflowCommand::Shutdown => spec_shutdown(w),
    }
}

/// What a command appends to the sequencer log: the peek worker 0
/// sequenced, if any.
pub open spec fn spec_dispatch_log(w0: WorkerModel, cmd: DataflowCommand, uuid: u128) -> Seq<
    PendingPeekV,
> {
    match cmd {
        DataflowCommand::PeekExisting { dataflow, when } => if w0.index == 0 {
            seq![spec_pending_peek(w0, uuid, dataflow.deep_view(), when, false)]
        } else {
            Seq::empty()
        },
        DataflowCommand::PeekTransient { relation_expr, when } => if w0.index == 0 {
            let d = spec_transient_df(w0, relation_expr.deep_view());
            seq![spec_pending_peek(spec_create_dataflow(w0, d), uuid, d, when, true)]
        } else {
            Seq::empty()
        },
        _ => Seq::empty(),
    }
}

impl SystemState {
    /// A pool of `num_workers` fresh workers and an empty sequencer log.
    pub fn new(num_workers: usize) -> (s: SystemState)
        requires
            num_workers >= 1,
        ensures
            s@.workers.len() == num_workers as int,
            forall|i: int| 0 <= i < num_workers as int ==> s@.workers[i] == spec_init_worker(i),
            s@.log == Seq::<PendingPeekV>::empty(),
            spec_sys_wf(s@),
    {
        let mut workers: Vec<WorkerState> = Vec::new();
        let mut i: usize = 0;
        while i < num_workers
            invariant
                i <= num_workers,
                workers@.len() == i,
                forall|j: int|
                    0 <= j < i as int ==> workers.deep_view()[j] == spec_init_worker(j),
            decreases num_workers - i,
        {
            let ghost pre = workers.deep_view();
            let w = WorkerState::new(i);
            workers.push(w);
            assert(workers.deep_view() =~= pre.push(spec_init_worker(i as int)));
            i += 1;
        }
        let s = SystemState { workers, log: Vec::new() };
        assert(s@.log =~= Seq::<PendingPeekV>::empty());
        proof {
            assert forall|j: int| 0 <= j < s@.workers.len() implies (
            #[trigger] s@.workers[j]).index == j by {
                assert(s@.workers[j] == spec_init_worker(j));
            }
        }
        s
    }

    /// Dispatch one command to every worker, in index order, then let the
    /// engine broadcast worker 0's emitted rows into every worker's trace
    /// and append worker 0's sequenced peek to the total order.
    pub fn dispatch(&mut self, cmd: &DataflowCommand, meta: &CommandMeta)
        requires
            spec_sys_wf(old(self)@),
            spec_sys_command_ok(old(self)@, *cmd),
        ensures
            final(self)@.workers.len() == old(self)@.workers.len(),
            forall|i: int|
                0 <= i < old(self)@.workers.len() ==> final(self)@.workers[i]
                    == spec_dispatch_worker(
                    old(self)@.workers[i],
                    old(self)@.workers[0],
                    *cmd,
                ),
            final(self)@.log == old(self)@.log + spec_dispatch_log(
                old(self)@.workers[0],
                *cmd,
                meta.connection_uuid,
            ),
            spec_sys_wf(final(self)@),
            forall|i: int|
                0 <= i < old(self)@.workers.len() && spec_names_unique(
                    #[trigger] old(self)@.workers[i],
                ) ==> spec_names_unique(final(self)@.workers[i]),
    {
        let ghost om = old(self)@;
        let n = self.workers.len();
        let mut emitted: Option<(String, Vec<Row>, u64)> = None;
        let mut sequenced: Option<PendingPeek> = None;
        let mut i: usize = 0;
        while i < n
            invariant
                spec_sys_wf(om),
                spec_sys_command_ok(om, *cmd),
                n == self.workers@.len(),
                om.workers.len() == n,
                i <= n,
                self@.log == om.log,
                forall|j: int|
                    i as int <= j < n ==> self@.workers[j] == om.workers[j],
                forall|j: int|
                    0 <= j < i as int ==> #[trigger] self@.workers[j] == spec_handle_model(
                        om.workers[j],
                        *cmd,
                    ),
                emitted.deep_view() == (if i > 0 {
                    spec_emitted(om.workers[0], *cmd)
                } else {
                    None::<(Seq<char>, Seq<RowV>, u64)>
                }),
                sequenced.deep_view() == (if i > 0 {
                    spec_sequenced(om.workers[0], *cmd, meta.connection_uuid)
                } else {
                    None::<PendingPeekV>
                }),
            decreases n - i,
        {
            let ghost prews = self.workers.deep_view();
            let w = &mut self.workers[i];
            assert(w@ == om.workers[i as int]);
            let eff = w.handle_command(cmd, meta);
            assert(w@ == spec_handle_model(om.workers[i as int], *cmd));
            assert(self.workers.deep_view() =~= prews.update(
                i as int,
                self.workers.deep_view()[i as int],
            ));
            if i == 0 {
                let CommandEffects { sequenced: s, emitted: e } = eff;
                emitted = e;
                sequenced = s;
                proof {
                    assert(om.workers[0].index == 0);
                }
            } else {
                proof {
                    assert(om.workers[i as int].index == i as int);
                }
            }
            i += 1;
        }
        match &emitted {
            Some(tuple) => {
                let name = &tuple.0;
                let rows = &tuple.1;
                let t = tuple.2;
                let mut k: usize = 0;
                while k < n
                    invariant
                        spec_sys_wf(om),
                        n == self.workers@.len(),
                        om.workers.len() == n,
                        k <= n,
                        self@.log == om.log,
                        emitted matches Some(e) && e.deep_view() == (name@, rows.deep_view(), t),
                        emitted.deep_view() == spec_emitted(om.workers[0], *cmd),
                        forall|j: int|
                            k as int <= j < n ==> #[trigger] self@.workers[j]
                                == spec_handle_model(om.workers[j], *cmd),
                        forall|j: int|
                            0 <= j < k as int ==> #[trigger] self@.workers[j] == spec_apply_input(
                                spec_handle_model(om.workers[j], *cmd),
                                name@,
                                rows.deep_view(),
                                t,
                            ),
                    decreases n - k,
                {
                    let ghost prews = self.workers.deep_view();
                    assert(self@.workers[k as int] == spec_handle_model(
                        om.workers[k as int],
                        *cmd,
                    ));
                    assert(prews[k as int] == spec_handle_model(om.workers[k as int], *cmd));
                    let w = &mut self.workers[k];
                    assert(w@ == spec_handle_model(om.workers[k as int], *cmd));
                    w.apply_input_rows(name, rows, t);
                    assert(w@ == spec_apply_input(
                        spec_handle_model(om.workers[k as int], *cmd),
                        name@,
                        rows.deep_view(),
                        t,
                    ));
                    assert(self.workers.deep_view() =~= prews.update(
                        k as int,
                        self.workers.deep_view()[k as int],
                    ));
                    k += 1;
                }
            }
            None => {}
        }
        match sequenced {
            Some(p) => {
                let ghost prelog = self.log.deep_view();
                let ghost pv = p.deep_view();
                self.log.push(p);
                assert(self.log.deep_view() =~= prelog.push(pv));
            }
            None => {}
        }
        proof {
            assert forall|i2: int| 0 <= i2 < om.workers.len() implies self@.workers[i2]
                == spec_dispatch_worker(om.workers[i2], om.workers[0], *cmd) by {
                lemma_dispatch_worker_shape(om.workers[i2], om.workers[0], *cmd);
            }
            assert(self@.log =~= om.log + spec_dispatch_log(
                om.workers[0],
                *cmd,
                meta.connection_uuid,
            ));
            assert forall|i2: int| 0 <= i2 < self@.workers.len() implies (
            #[trigger] self@.workers[i2]).index == i2 by {
                lemma_dispatch_worker_shape(om.workers[i2], om.workers[0], *cmd);
            }
            assert forall|i2: int|
                0 <= i2 < om.workers.len() && spec_names_unique(
                    #[trigger] om.workers[i2],
                ) implies spec_names_unique(self@.workers[i2]) by {
                lemma_unique_dispatch(om.workers[i2], om.workers[0], *cmd);
            }
        }
    }
}

/// A dispatched command preserves the uniqueness invariant on every worker.
proof fn lemma_unique_dispatch(w: WorkerModel, w0: WorkerModel, cmd: DataflowCommand)
    requires
        spec_names_unique(w),
        spec_command_ok(w, cmd),
    ensures
        spec_names_unique(spec_dispatch_worker(w, w0, cmd)),
{
    match cmd {
        DataflowCommand::CreateDataflow(d) => {
            lemma_unique_create(w, d.deep_view());
        }
        DataflowCommand::DropDataflows(ds) => {
            lemma_unique_drop_all(w, ds.deep_view());
        }
        DataflowCommand::PeekTransient { relation_expr, .. } => {
            lemma_unique_create(w, spec_transient_df(w, relation_expr.deep_view()));
        }
        DataflowCommand::Insert(name, rows) => {
            lemma_unique_insert(w);
            let m1 = spec_insert_command(w);
            match crate::registry::df_find(m1.dataflows, name@) {
                Some(d) => {
                    lemma_unique_apply_trace(
                        m1,
                        crate::worker::spec_get_key(d),
                        rows.deep_view(),
                        w0.input_time,
                    );
                }
                None => {}
            }
        }
        _ => {}
    }
}

/// One worker's transition for a whole pool step: drain the sequencer,
/// then sweep the pending peeks once.
pub open spec fn spec_step_worker(w: WorkerModel, log: Seq<PendingPeekV>) -> WorkerModel {
    spec_retire(spec_after_intake(w, log))
}

/// The deliveries one pool step produces at one worker.
pub open spec fn spec_step_deliveries(w: WorkerModel, log: Seq<PendingPeekV>) -> Seq<
    (u128, Seq<RowV>),
> {
    spec_deliveries(w.traces, w.pending_peeks + log.skip(w.seq_pos))
}

/// A worker can take the log's remainder and sweep: the traces of the
/// broadcast peeks are installed, and every final peek accumulates
/// non-negative multiplicities.
pub open spec fn spec_can_step(w: WorkerModel, log: Seq<PendingPeekV>) -> bool {
    &&& 0 <= w.seq_pos <= log.len()
    &&& forall|k: int|
        w.seq_pos <= k < log.len() ==> tr_contains(w.traces, (#[trigger] log[k]).expr)
    &&& spec_peeks_ok(w.traces, w.pending_peeks + log.skip(w.seq_pos))
}

impl SystemState {
    /// One scheduling round after the engine made progress: every worker
    /// drains the sequencer, then sweeps its pending peeks, retiring the
    /// final ones. Every worker computes the same results over the same
    /// traces; the returned deliveries are the single copy handed to the
    /// configured sink.
    pub fn step(&mut self) -> (deliveries: Vec<(u128, Vec<Row>)>)
        requires
            spec_sys_wf(old(self)@),
            forall|i: int|
                0 <= i < old(self)@.workers.len() ==> spec_can_step(
                    #[trigger] old(self)@.workers[i],
                    old(self)@.log,
                ),
        ensures
            final(self)@.workers.len() == old(self)@.workers.len(),
            final(self)@.log == old(self)@.log,
            forall|i: int|
                0 <= i < old(self)@.workers.len() ==> final(self)@.workers[i]
                    == spec_step_worker(old(self)@.workers[i], old(self)@.log),
            deliveries.deep_view() == spec_step_deliveries(
                old(self)@.workers[0],
                old(self)@.log,
            ),
            spec_sys_wf(final(self)@),
            forall|i: int|
                0 <= i < old(self)@.workers.len() && spec_names_unique(
                    #[trigger] old(self)@.workers[i],
                ) ==> spec_names_unique(final(self)@.workers[i]),
    {
        let ghost om = old(self)@;
        let n = self.workers.len();
        let mut out: Vec<(u128, Vec<Row>)> = Vec::new();
        assert(out.deep_view() =~= Seq::<(u128, Seq<RowV>)>::empty());
        let mut i: usize = 0;
        while i < n
            invariant
                spec_sys_wf(om),
                forall|i2: int|
                    0 <= i2 < om.workers.len() ==> spec_can_step(
                        #[trigger] om.workers[i2],
                        om.log,
                    ),
                n == self.workers@.len(),
                om.workers.len() == n,
                i <= n,
                self@.log == om.log,
                forall|j: int| i as int <= j < n ==> self@.workers[j] == om.workers[j],
                forall|j: int|
                    0 <= j < i as int ==> #[trigger] self@.workers[j] == spec_step_worker(
                        om.workers[j],
                        om.log,
                    ),
                out.deep_view() == (if i > 0 {
                    spec_step_deliveries(om.workers[0], om.log)
                } else {
                    Seq::<(u128, Seq<RowV>)>::empty()
                }),
            decreases n - i,
        {
            let ghost prews = self.workers.deep_view();
            assert(self@.workers[i as int] == om.workers[i as int]);
            let w = &mut self.workers[i];
            assert(w@ == om.workers[i as int]);
            assert(spec_can_step(om.workers[i as int], om.log));
            w.intake_all(&self.log);
            assert(w@ == spec_after_intake(om.workers[i as int], om.log));
            let dv = w.process_peeks();
            assert(w@ == spec_step_worker(om.workers[i as int], om.log));
            assert(dv.deep_view() == spec_step_deliveries(om.workers[i as int], om.log));
            assert(self.workers.deep_view() =~= prews.update(
                i as int,
                self.workers.deep_view()[i as int],
            ));
            if i == 0 {
                out = dv;
            }
            i += 1;
        }
        proof {
            assert forall|i2: int| 0 <= i2 < self@.workers.len() implies (
            #[trigger] self@.workers[i2]).index == i2 by {
                let aw = spec_after_intake(om.workers[i2], om.log);
                crate::worker::lemma_drop_all_frame(
                    WorkerModel { pending_peeks: spec_kept(aw.traces, aw.pending_peeks), ..aw },
                    spec_retire_drops(aw.traces, aw.pending_peeks),
                );
            }
            assert forall|i2: int|
                0 <= i2 < om.workers.len() && spec_names_unique(
                    #[trigger] om.workers[i2],
                ) implies spec_names_unique(self@.workers[i2]) by {
                let aw = spec_after_intake(om.workers[i2], om.log);
                lemma_unique_drop_all(
                    WorkerModel { pending_peeks: spec_kept(aw.traces, aw.pending_peeks), ..aw },
                    spec_retire_drops(aw.traces, aw.pending_peeks),
                );
            }
        }
        out
    }

    /// Record that the engine advanced the upper frontier of the trace
    /// under `key` on every worker; a frontier only moves forward.
    pub fn advance_trace(&mut self, key: &Expr, new_upper: Frontier)
        requires
            spec_sys_wf(old(self)@),
            forall|i: int|
                0 <= i < old(self)@.workers.len() ==> match tr_find(
                    (#[trigger] old(self)@.workers[i]).traces,
                    key.deep_view(),
                ) {
                    Some(td) => td.upper.spec_advances_to(new_upper),
                    None => true,
                },
        ensures
            final(self)@.workers.len() == old(self)@.workers.len(),
            final(self)@.log == old(self)@.log,
            forall|i: int|
                0 <= i < old(self)@.workers.len() ==> final(self)@.workers[i]
                    == spec_advance_trace(old(self)@.workers[i], key.deep_view(), new_upper),
            spec_sys_wf(final(self)@),
    {
        let ghost om = old(self)@;
        let n = self.workers.len();
        let mut i: usize = 0;
        while i < n
            invariant
                spec_sys_wf(om),
                forall|i2: int|
                    0 <= i2 < om.workers.len() ==> match tr_find(
                        (#[trigger] om.workers[i2]).traces,
                        key.deep_view(),
                    ) {
                        Some(td) => td.upper.spec_advances_to(new_upper),
                        None => true,
                    },
                n == self.workers@.len(),
                om.workers.len() == n,
                i <= n,
                self@.log == om.log,
                forall|j: int| i as int <= j < n ==> self@.workers[j] == om.workers[j],
                forall|j: int|
                    0 <= j < i as int ==> #[trigger] self@.workers[j] == spec_advance_trace(
                        om.workers[j],
                        key.deep_view(),
                        new_upper,
                    ),
            decreases n - i,
        {
            let ghost prews = self.workers.deep_view();
            assert(self@.workers[i as int] == om.workers[i as int]);
            let w = &mut self.workers[i];
            assert(w@ == om.workers[i as int]);
            w.advance_trace(key, new_upper);
            assert(self.workers.deep_view() =~= prews.update(
                i as int,
                self.workers.deep_view()[i as int],
            ));
            i += 1;
        }
    }

    /// Record rows the engine computed into the trace under `key` on every
    /// worker, each with diff `+1`, at time `t`; this is how a view's trace
    /// fills.
    pub fn deliver_rows(&mut self, key: &Expr, rows: &Vec<Row>, t: u64)
        requires
            spec_sys_wf(old(self)@),
        ensures
            final(self)@.workers.len() == old(self)@.workers.len(),
            final(self)@.log == old(self)@.log,
            forall|i: int|
                0 <= i < old(self)@.workers.len() ==> final(self)@.workers[i]
                    == spec_apply_trace(
                    old(self)@.workers[i],
                    key.deep_view(),
                    rows.deep_view(),
                    t,
                ),
            spec_sys_wf(final(self)@),
    {
        let ghost om = old(self)@;
        let n = self.workers.len();
        let mut i: usize = 0;
        while i < n
            invariant
                spec_sys_wf(om),
                n == self.workers@.len(),
                om.workers.len() == n,
                i <= n,
                self@.log == om.log,
                forall|j: int| i as int <= j < n ==> self@.workers[j] == om.workers[j],
                forall|j: int|
                    0 <= j < i as int ==> #[trigger] self@.workers[j] == spec_apply_trace(
                        om.workers[j],
                        key.deep_view(),
                        rows.deep_view(),
                        t,
                    ),
            decreases n - i,
        {
            let ghost prews = self.workers.deep_view();
            assert(self@.workers[i as int] == om.workers[i as int]);
            let w = &mut self.workers[i];
            assert(w@ == om.workers[i as int]);
            w.apply_trace_rows(key, rows, t);
            assert(self.workers.deep_view() =~= prews.update(
                i as int,
                self.workers.deep_view()[i as int],
            ));
            i += 1;
        }
    }
}

/// The state of one worker after the fixed bootstrap list was replayed:
/// the `dual` source installed, then its single row inserted.
pub open spec fn spec_boot_worker(i: int) -> WorkerModel {
    let created = spec_create_dataflow(spec_init_worker(i), crate::worker::spec_dual_dataflow());
    spec_apply_input(
        spec_insert_command(created),
        "dual"@,
        crate::worker::spec_dual_rows(),
        1,
    )
}

impl SystemState {
    /// Replay the fixed bootstrap list under the null identity: install
    /// the `dual` source, then insert its single row.
    pub fn bootstrap(&mut self)
        requires
            spec_sys_wf(old(self)@),
            forall|i: int|
                0 <= i < old(self)@.workers.len() ==> #[trigger] old(self)@.workers[i]
                    == spec_init_worker(i),
        ensures
            final(self)@.workers.len() == old(self)@.workers.len(),
            final(self)@.log == old(self)@.log,
            forall|i: int|
                0 <= i < old(self)@.workers.len() ==> final(self)@.workers[i]
                    == spec_boot_worker(i),
            spec_sys_wf(final(self)@),
    {
        let ghost om = old(self)@;
        let meta = CommandMeta { connection_uuid: 0 };
        let d = dual_dataflow();
        let cmd = DataflowCommand::CreateDataflow(d);
        self.dispatch(&cmd, &meta);
        let rows = dual_rows();
        let cmd2 = DataflowCommand::Insert("dual".to_owned(), rows);
        proof {
            assert forall|i: int| 0 <= i < self@.workers.len() implies spec_command_ok(
                #[trigger] self@.workers[i],
                cmd2,
            ) by {
                assert(self@.workers[i] == spec_create_dataflow(
                    spec_init_worker(i),
                    crate::worker::spec_dual_dataflow(),
                ));
            }
        }
        self.dispatch(&cmd2, &meta);
        proof {
            assert forall|i: int| 0 <= i < self@.workers.len() implies self@.workers[i]
                == spec_boot_worker(i) by {
                assert(self@.workers[i] == spec_dispatch_worker(
                    spec_create_dataflow(spec_init_worker(i), crate::worker::spec_dual_dataflow()),
                    spec_create_dataflow(spec_init_worker(0), crate::worker::spec_dual_dataflow()),
                    cmd2,
                ));
            }
        }
    }
}

/// The local transition a command makes on one worker, before any engine
/// broadcast.
pub open spec fn spec_handle_model(w: WorkerModel, cmd: DataflowCommand) -> WorkerModel {
    match cmd {
        DataflowCommand::CreateDataflow(d) => spec_create_dataflow(w, d.deep_view()),
        DataflowCommand::DropDataflows(ds) => spec_drop_all(w, ds.deep_view()),
        DataflowCommand::PeekExisting { .. } => w,
        DataflowCommand::PeekTransient { relation_expr, .. } => (WorkerModel {
            transient_view_counter: (w.transient_view_counter + 1) as u64,
            ..spec_create_dataflow(w, spec_transient_df(w, relation_expr.deep_view()))
        }),
        DataflowCommand::Insert(_, _) => spec_insert_command(w),
        DataflowCommand::Tail(_) => w,
        DataflowCommand::Shutdown => spec_shutdown(w),
    }
}

/// The rows worker `w` emits for a command: only worker 0 emits, and only
/// for an insertion.
pub open spec fn spec_emitted(w: WorkerModel, cmd: DataflowCommand) -> Option<
    (Seq<char>, Seq<RowV>, u64),
> {
    match cmd {
        DataflowCommand::Insert(name, rows) => if w.index == 0 {
            Some((name@, rows.deep_view(), w.input_time))
        } else {
            None
        },
        _ => None,
    }
}

/// The peek worker `w` sequences for a command: only worker 0 sequences,
/// and only for a peek.
pub open spec fn spec_sequenced(w: WorkerModel, cmd: DataflowCommand, uuid: u128) -> Option<
    PendingPeekV,
> {
    match cmd {
        DataflowCommand::PeekExisting { dataflow, when } => if w.index == 0 {
            Some(spec_pending_peek(w, uuid, dataflow.deep_view(), when, false))
        } else {
            None
        },
        DataflowCommand::PeekTransient { relation_expr, when } => if w.index == 0 {
            let d = spec_transient_df(w, relation_expr.deep_view());
            Some(spec_pending_peek(spec_create_dataflow(w, d), uuid, d, when, true))
        } else {
            None
        },
        _ => None,
    }
}

/// Composing a worker's local transition with the broadcast of worker 0's
/// emission gives the dispatch transition, and preserves the worker index.
proof fn lemma_dispatch_worker_shape(w: WorkerModel, w0: WorkerModel, cmd: DataflowCommand)
    requires
        w0.index == 0,
    ensures
        match spec_emitted(w0, cmd) {
            Some(e) => spec_dispatch_worker(w, w0, cmd) == spec_apply_input(
                spec_handle_model(w, cmd),
                e.0,
                e.1,
                e.2,
            ),
            None => spec_dispatch_worker(w, w0, cmd) == spec_handle_model(w, cmd),
        },
        spec_dispatch_worker(w, w0, cmd).index == w.index,
{
    match cmd {
        DataflowCommand::DropDataflows(ds) => {
            crate::worker::lemma_drop_all_frame(w, ds.deep_view());
        }
        DataflowCommand::Insert(name, rows) => {
            assert(spec_apply_input(
                spec_insert_command(w),
                name@,
                rows.deep_view(),
                w0.input_time,
            ).index == w.index);
        }
        _ => {}
    }
}

} // verus!
