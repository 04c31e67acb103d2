//! The per-worker state machine: the command dispatcher, the peek
//! sequencer's timestamp selection, and the peek processor.
//!
//! A worker owns its registries and applies each command it receives; only
//! worker 0 sequences peeks and emits inserted rows, while every worker
//! applies the control effects. The execution engine that carries sequenced
//! peeks, moves data into traces and advances frontiers is an external
//! collaborator; its deliveries enter through `intake_peek` and
//! `apply_input_rows` and through the trace events of the system module.

use vstd::prelude::*;
use crate::repr::{
    Row, RowV, RelationType, RelationTypeV, ColumnType, ColumnTypeV, Datum, DatumV, ScalarType,
    rows_copy, relation_type_copy,
};
use crate::expr::{Expr, ExprV, expr_copy, spec_expr_typ, spec_expr_uses};
use crate::dataflow::{
    Dataflow, DataflowV, SourceConnector, spec_df_name, spec_df_typ, dataflow_copy,
};
use crate::registry::{
    InputCapability, spec_cap_time, cap_time, df_first, df_find, df_contains, df_remove,
    df_lookup, df_remove_exec, in_first, in_find, in_contains, in_remove, in_lookup,
    in_remove_exec, tr_first, tr_find, tr_contains, tr_remove, tr_lookup, tr_remove_exec,
    df_names_unique, in_names_unique, tr_keys_unique, lemma_df_push_unique,
    lemma_in_push_unique, lemma_tr_push_unique, lemma_df_remove_unique, lemma_in_remove_unique,
    lemma_tr_remove_unique,
};
use crate::trace::{
    Frontier, TraceData, TraceDataV, TraceEntryV, trace_nonneg, trace_peek_rows, peek_rows,
    spec_append_rows,
};

verus! {

/// When a peek should read its relation.
#[derive(Clone, Copy, PartialEq, Eq, Structural, Debug)]
pub enum PeekWhen {
    /// At the latest time at which the trace is already final.
    Immediately,
    /// At the latest time every feeding input has acknowledged.
    AfterFlush,
    /// At the given time, waiting for it to become final.
    AtTimestamp(u64),
}

/// The client identity a command carries; zero is the null identity
/// reserved for internally generated commands.
#[derive(Clone, Copy, PartialEq, Eq, Structural, Debug)]
pub struct CommandMeta {
    pub connection_uuid: u128,
}

/// A sequenced peek, waiting for its timestamp to become final.
#[derive(Debug, PartialEq, Eq)]
pub struct PendingPeek {
    /// The expression that keys the trace to peek.
    pub expr: Expr,
    /// The intended recipient of the result.
    pub connection_uuid: u128,
    /// The time at which the relation should be materialized.
    pub timestamp: u64,
    /// A transient dataflow to drop once the peek is delivered.
    pub drop_after_peek: Option<Dataflow>,
}

/// The mathematical value of a `PendingPeek`.
pub struct PendingPeekV {
    pub expr: ExprV,
    pub connection_uuid: u128,
    pub timestamp: u64,
    pub drop_after_peek: Option<DataflowV>,
}

impl DeepView for PendingPeek {
    type V = PendingPeekV;

    open spec fn deep_view(&self) -> PendingPeekV {
        PendingPeekV {
            expr: self.expr.deep_view(),
            connection_uuid: self.connection_uuid,
            timestamp: self.timestamp,
            drop_after_peek: self.drop_after_peek.deep_view(),
        }
    }
}

/// A fresh pending peek with the same content.
pub fn pending_peek_copy(p: &PendingPeek) -> (r: PendingPeek)
    ensures
        r.deep_view() == p.deep_view(),
{
    PendingPeek {
        expr: expr_copy(&p.expr),
        connection_uuid: p.connection_uuid,
        timestamp: p.timestamp,
        drop_after_peek: match &p.drop_after_peek {
            Some(d) => Some(dataflow_copy(d)),
            None => None,
        },
    }
}

/// A command consumed from the command channel.
#[derive(Debug, PartialEq, Eq)]
pub enum DataflowCommand {
    CreateDataflow(Dataflow),
    DropDataflows(Vec<Dataflow>),
    PeekExisting { dataflow: Dataflow, when: PeekWhen },
    PeekTransient { relation_expr: Expr, when: PeekWhen },
    Insert(String, Vec<Row>),
    /// Reserved; not implemented in the core.
    Tail(String),
    Shutdown,
}

/// How finalized peek results leave the server: through the local sender
/// registry keyed by connection, or serialized and posted to the remote
/// results endpoint. Both sinks live outside the verified core; this value
/// only configures which one the surrounding process drives.
#[derive(Clone, Copy, PartialEq, Eq, Structural, Debug)]
pub enum PeekResultsHandler {
    Local,
    Remote,
}

/// What a command asked the surrounding engine to do: the peek worker 0
/// pushed into the sequencer, and the rows worker 0 emitted into a local
/// input at the time they carry.
pub struct CommandEffects {
    pub sequenced: Option<PendingPeek>,
    pub emitted: Option<(String, Vec<Row>, u64)>,
}

/// The mathematical state of one worker.
#[verifier::ext_equal]
pub struct WorkerModel {
    pub index: int,
    pub dataflows: Seq<DataflowV>,
    pub inputs: Seq<(Seq<char>, InputCapability)>,
    pub traces: Seq<(ExprV, TraceDataV)>,
    pub input_time: u64,
    pub transient_view_counter: u64,
    pub pending_peeks: Seq<PendingPeekV>,
    pub seq_pos: int,
    pub shutdown: bool,
}

/// The state a worker owns.
#[derive(Debug)]
pub struct WorkerState {
    pub index: usize,
    pub dataflows: Vec<Dataflow>,
    pub inputs: Vec<(String, InputCapability)>,
    pub traces: Vec<(Expr, TraceData)>,
    pub input_time: u64,
    pub transient_view_counter: u64,
    pub pending_peeks: Vec<PendingPeek>,
    pub seq_pos: usize,
    pub shutdown: bool,
}

impl View for WorkerState {
    type V = WorkerModel;

    open spec fn view(&self) -> WorkerModel {
        WorkerModel {
            index: self.index as int,
            dataflows: self.dataflows.deep_view(),
            inputs: self.inputs.deep_view(),
            traces: self.traces.deep_view(),
            input_time: self.input_time,
            transient_view_counter: self.transient_view_counter,
            pending_peeks: self.pending_peeks.deep_view(),
            seq_pos: self.seq_pos as int,
            shutdown: self.shutdown,
        }
    }
}

impl DeepView for WorkerState {
    type V = WorkerModel;

    open spec fn deep_view(&self) -> WorkerModel {
        self.view()
    }
}

/// The initial state of the worker with the given index.
pub open spec fn spec_init_worker(index: int) -> WorkerModel {
    WorkerModel {
        index: index,
        dataflows: Seq::empty(),
        inputs: Seq::empty(),
        traces: Seq::empty(),
        input_time: 1,
        transient_view_counter: 1,
        pending_peeks: Seq::empty(),
        seq_pos: 0,
        shutdown: false,
    }
}

/// The trace key of a dataflow: a fresh `Get` of its name and schema.
pub open spec fn spec_get_key(d: DataflowV) -> ExprV {
    ExprV::Get { name: spec_df_name(d), typ: spec_df_typ(d) }
}

/// The registrations the external dataflow builder performs: an input
/// capability at the current input time for a source, and an empty trace
/// whose upper frontier starts at the current input time for a source or a
/// view. A sink installs no arrangement.
pub open spec fn spec_build_dataflow(m: WorkerModel, d: DataflowV) -> WorkerModel {
    let m1 = match d {
        DataflowV::Source { name, connector, .. } => WorkerModel {
            inputs: m.inputs.push(
                (
                    name,
                    match connector {
                        SourceConnector::Local => InputCapability::Local { time: m.input_time },
                        SourceConnector::External => InputCapability::External {
                            time: m.input_time,
                        },
                    },
                ),
            ),
            ..m
        },
        _ => m,
    };
    match d {
        DataflowV::Sink { .. } => m1,
        _ => WorkerModel {
            traces: m1.traces.push(
                (
                    spec_get_key(d),
                    TraceDataV { entries: Seq::empty(), upper: Frontier::At(m.input_time) },
                ),
            ),
            ..m1
        },
    }
}

/// Install a dataflow: build it, then register it under its name.
pub open spec fn spec_create_dataflow(m: WorkerModel, d: DataflowV) -> WorkerModel {
    let m1 = spec_build_dataflow(m, d);
    WorkerModel { dataflows: m1.dataflows.push(d), ..m1 }
}

/// Drop one dataflow: remove its input and its registry entry, and delete
/// its trace unless it is a sink.
pub open spec fn spec_drop_one(m: WorkerModel, d: DataflowV) -> WorkerModel {
    let name = spec_df_name(d);
    let m1 = WorkerModel {
        inputs: in_remove(m.inputs, name),
        dataflows: df_remove(m.dataflows, name),
        ..m
    };
    match d {
        DataflowV::Sink { .. } => m1,
        _ => WorkerModel { traces: tr_remove(m1.traces, spec_get_key(d)), ..m1 },
    }
}

/// Drop a list of dataflows, front to back.
pub open spec fn spec_drop_all(m: WorkerModel, ds: Seq<DataflowV>) -> WorkerModel
    decreases ds.len(),
{
    if ds.len() == 0 {
        m
    } else {
        spec_drop_all(spec_drop_one(m, ds[0]), ds.drop_first())
    }
}

/// Every local capability downgraded to time `t`; external capabilities
/// are driven by their owner and stay.
pub open spec fn spec_downgrade_inputs(
    ins: Seq<(Seq<char>, InputCapability)>,
    t: u64,
) -> Seq<(Seq<char>, InputCapability)> {
    ins.map_values(
        |p: (Seq<char>, InputCapability)|
            (
                p.0,
                match p.1 {
                    InputCapability::Local { .. } => InputCapability::Local { time: t },
                    InputCapability::External { time } => InputCapability::External { time },
                },
            ),
    )
}

/// The control effect of an insertion: time advances by one on every
/// worker, and every local capability follows it.
pub open spec fn spec_insert_command(m: WorkerModel) -> WorkerModel {
    WorkerModel {
        input_time: (m.input_time + 1) as u64,
        inputs: spec_downgrade_inputs(m.inputs, (m.input_time + 1) as u64),
        ..m
    }
}

/// The effect of a shutdown: every registry is cleared so the engine can
/// quiesce, and the exit latch is set.
pub open spec fn spec_shutdown(m: WorkerModel) -> WorkerModel {
    WorkerModel {
        dataflows: Seq::empty(),
        inputs: Seq::empty(),
        traces: Seq::empty(),
        shutdown: true,
        ..m
    }
}

/// The smaller of two times.
pub open spec fn spec_min64(a: u64, b: u64) -> u64 {
    if a <= b {
        a
    } else {
        b
    }
}

/// The predecessor of a time, saturating at zero.
pub open spec fn spec_sat_sub1(u: u64) -> u64 {
    if u == 0 {
        0u64
    } else {
        (u - 1) as u64
    }
}

/// The earliest current input time among the sources that transitively
/// feed the named dataflow; the maximum time when nothing constrains it.
/// The fuel bounds the recursion through the registry; a configuration
/// needing more lookups than there are dataflows is cyclic and yields the
/// unconstrained maximum.
pub open spec fn spec_root_input_time(m: WorkerModel, name: Seq<char>, fuel: nat) -> u64
    decreases fuel, 0int,
{
    if fuel == 0 {
        u64::MAX
    } else {
        match df_find(m.dataflows, name) {
            None => u64::MAX,
            Some(d) => match d {
                DataflowV::Source { .. } => match in_find(m.inputs, name) {
                    Some(cap) => spec_cap_time(cap),
                    None => u64::MAX,
                },
                DataflowV::Sink { .. } => u64::MAX,
                DataflowV::View { relation_expr, .. } => spec_min_root_time(
                    m,
                    spec_expr_uses(relation_expr),
                    (fuel - 1) as nat,
                ),
            },
        }
    }
}

/// The minimum root input time over a list of names.
pub open spec fn spec_min_root_time(m: WorkerModel, names: Seq<Seq<char>>, fuel: nat) -> u64
    decreases fuel, 1int, names.len(),
{
    if names.len() == 0 {
        u64::MAX
    } else {
        spec_min64(
            spec_root_input_time(m, names[0], fuel),
            spec_min_root_time(m, names.drop_first(), fuel),
        )
    }
}

/// The timestamp the sequencer selects for a peek of dataflow `d`.
pub open spec fn spec_peek_timestamp(m: WorkerModel, d: DataflowV, when: PeekWhen) -> u64 {
    match when {
        PeekWhen::Immediately => match tr_find(m.traces, spec_get_key(d)) {
            Some(td) => match td.upper {
                Frontier::Empty => 0u64,
                Frontier::At(u) => spec_sat_sub1(u),
            },
            None => 0u64,
        },
        PeekWhen::AfterFlush => spec_sat_sub1(
            spec_root_input_time(m, spec_df_name(d), m.dataflows.len()),
        ),
        PeekWhen::AtTimestamp(t) => t,
    }
}

/// The pending peek the sequencer broadcasts for a peek of dataflow `d`.
pub open spec fn spec_pending_peek(
    m: WorkerModel,
    uuid: u128,
    d: DataflowV,
    when: PeekWhen,
    drop: bool,
) -> PendingPeekV {
    PendingPeekV {
        expr: spec_get_key(d),
        connection_uuid: uuid,
        timestamp: spec_peek_timestamp(m, d, when),
        drop_after_peek: if drop {
            Some(d)
        } else {
            None
        },
    }
}

/// What a worker requires of a command, where the specification calls a
/// violation fatal: fresh names for installations, a local input for an
/// insertion on worker 0, an installed trace for an immediate peek on
/// worker 0, time and counter headroom, and no reserved command.
pub open spec fn spec_command_ok(m: WorkerModel, cmd: DataflowCommand) -> bool {
    match cmd {
        DataflowCommand::CreateDataflow(d) => {
            &&& !df_contains(m.dataflows, spec_df_name(d.deep_view()))
            &&& (d.deep_view() matches DataflowV::Source { .. } ==> !in_contains(
                m.inputs,
                spec_df_name(d.deep_view()),
            ))
            &&& (!(d.deep_view() matches DataflowV::Sink { .. }) ==> !tr_contains(
                m.traces,
                spec_get_key(d.deep_view()),
            ))
        },
        DataflowCommand::DropDataflows(_) => true,
        DataflowCommand::PeekExisting { dataflow, when } => m.index == 0 && when
            == PeekWhen::Immediately ==> tr_contains(m.traces, spec_get_key(dataflow.deep_view())),
        DataflowCommand::PeekTransient { relation_expr, .. } => {
            &&& !df_contains(m.dataflows, spec_temp_name(m.transient_view_counter))
            &&& !tr_contains(
                m.traces,
                spec_get_key(spec_transient_df(m, relation_expr.deep_view())),
            )
            &&& m.transient_view_counter < u64::MAX
        },
        DataflowCommand::Insert(name, _) => m.input_time < u64::MAX && (m.index == 0
            ==> (in_find(m.inputs, name@) matches Some(InputCapability::Local { .. }))),
        DataflowCommand::Tail(_) => false,
        DataflowCommand::Shutdown => true,
    }
}

/// The characters of a decimal digit.
pub open spec fn spec_digit(d: u64) -> Seq<char> {
    if d == 0 {
        "0"@
    } else if d == 1 {
        "1"@
    } else if d == 2 {
        "2"@
    } else if d == 3 {
        "3"@
    } else if d == 4 {
        "4"@
    } else if d == 5 {
        "5"@
    } else if d == 6 {
        "6"@
    } else if d == 7 {
        "7"@
    } else if d == 8 {
        "8"@
    } else {
        "9"@
    }
}

/// The decimal representation of a number.
pub open spec fn spec_dec(n: u64) -> Seq<char>
    decreases n,
{
    if n < 10 {
        spec_digit(n)
    } else {
        spec_dec(n / 10) + spec_digit(n % 10)
    }
}

/// The name a transient view synthesized for counter value `c` carries.
pub open spec fn spec_temp_name(c: u64) -> Seq<char> {
    "<temp_"@ + spec_dec(c) + ">"@
}

fn append_digit(s: &mut String, d: u64)
    requires
        d < 10,
    ensures
        final(s)@ == old(s)@ + spec_digit(d),
{
    if d == 0 {
        s.append("0");
    } else if d == 1 {
        s.append("1");
    } else if d == 2 {
        s.append("2");
    } else if d == 3 {
        s.append("3");
    } else if d == 4 {
        s.append("4");
    } else if d == 5 {
        s.append("5");
    } else if d == 6 {
        s.append("6");
    } else if d == 7 {
        s.append("7");
    } else if d == 8 {
        s.append("8");
    } else {
        s.append("9");
    }
}

fn append_dec(s: &mut String, n: u64)
    ensures
        final(s)@ == old(s)@ + spec_dec(n),
    decreases n,
{
    if n < 10 {
        append_digit(s, n);
    } else {
        append_dec(s, n / 10);
        append_digit(s, n % 10);
        assert(final(s)@ =~= old(s)@ + (spec_dec(n / 10) + spec_digit(n % 10)));
    }
}

/// The synthesized name of the transient view for counter value `c`.
pub fn temp_view_name(c: u64) -> (s: String)
    ensures
        s@ == spec_temp_name(c),
{
    let mut s = "<temp_".to_owned();
    append_dec(&mut s, c);
    s.append(">");
    assert(s@ =~= spec_temp_name(c));
    s
}

impl WorkerState {
    /// A fresh worker with the given index: empty registries, input time
    /// and transient counter at one.
    pub fn new(index: usize) -> (w: WorkerState)
        ensures
            w@ == spec_init_worker(index as int),
    {
        let w = WorkerState {
            index,
            dataflows: Vec::new(),
            inputs: Vec::new(),
            traces: Vec::new(),
            input_time: 1,
            transient_view_counter: 1,
            pending_peeks: Vec::new(),
            seq_pos: 0,
            shutdown: false,
        };
        assert(w@.dataflows =~= spec_init_worker(index as int).dataflows);
        assert(w@.inputs =~= spec_init_worker(index as int).inputs);
        assert(w@.traces =~= spec_init_worker(index as int).traces);
        assert(w@.pending_peeks =~= spec_init_worker(index as int).pending_peeks);
        w
    }

    /// Install a dataflow: let the builder register its arrangement and
    /// capability, then record it under its name. A duplicate name is a
    /// caller contract violation.
    pub fn create_dataflow(&mut self, d: &Dataflow)
        requires
            !df_contains(old(self)@.dataflows, spec_df_name(d.deep_view())),
        ensures
            final(self)@ == spec_create_dataflow(old(self)@, d.deep_view()),
    {
        let is_sink = match d {
            Dataflow::Sink { .. } => true,
            _ => false,
        };
        match d {
            Dataflow::Source { name, connector, .. } => {
                let cap = match connector {
                    SourceConnector::Local => InputCapability::Local { time: self.input_time },
                    SourceConnector::External => InputCapability::External {
                        time: self.input_time,
                    },
                };
                let ghost pre = self.inputs.deep_view();
                self.inputs.push((name.clone(), cap));
                assert(self.inputs.deep_view() =~= pre.push((name@, cap)));
            }
            _ => {}
        }
        if !is_sink {
            let key = Expr::Get {
                name: d.name().clone(),
                typ: relation_type_copy(d.typ()),
            };
            let td = TraceData { entries: Vec::new(), upper: Frontier::At(self.input_time) };
            assert(td.deep_view().entries =~= Seq::<TraceEntryV>::empty());
            let ghost pre = self.traces.deep_view();
            let ghost tdv = td.deep_view();
            let ghost keyv = key.deep_view();
            self.traces.push((key, td));
            assert(self.traces.deep_view() =~= pre.push((keyv, tdv)));
        }
        let ghost pre = self.dataflows.deep_view();
        self.dataflows.push(dataflow_copy(d));
        assert(self.dataflows.deep_view() =~= pre.push(d.deep_view()));
    }

    /// Drop one dataflow: remove its input and registry entries, and its
    /// trace unless it is a sink; tolerant of missing entries.
    pub fn drop_one_dataflow(&mut self, d: &Dataflow)
        ensures
            final(self)@ == spec_drop_one(old(self)@, d.deep_view()),
    {
        in_remove_exec(&mut self.inputs, d.name());
        df_remove_exec(&mut self.dataflows, d.name());
        match d {
            Dataflow::Sink { .. } => {}
            _ => {
                let key = Expr::Get {
                    name: d.name().clone(),
                    typ: relation_type_copy(d.typ()),
                };
                tr_remove_exec(&mut self.traces, &key);
            }
        }
    }

    /// Drop a list of dataflows, front to back.
    pub fn drop_dataflows(&mut self, ds: &Vec<Dataflow>)
        ensures
            final(self)@ == spec_drop_all(old(self)@, ds.deep_view()),
    {
        let ghost dsv = ds.deep_view();
        assert(dsv.skip(0) =~= dsv);
        let n = ds.len();
        let mut i: usize = 0;
        while i < n
            invariant
                n == ds@.len(),
                dsv == ds.deep_view(),
                i <= n,
                spec_drop_all(old(self)@, dsv) == spec_drop_all(self@, dsv.skip(i as int)),
            decreases n - i,
        {
            let ghost pre = self@;
            self.drop_one_dataflow(&ds[i]);
            proof {
                assert(dsv.skip(i as int).len() > 0);
                assert(dsv.skip(i as int)[0] == dsv[i as int]);
                assert(dsv.skip(i as int).drop_first() =~= dsv.skip(i + 1 as int));
            }
            i += 1;
        }
        assert(dsv.skip(n as int) =~= Seq::<DataflowV>::empty());
    }

    /// The earliest current input time among the sources transitively
    /// feeding `name`.
    pub fn root_input_time(&self, name: &String) -> (r: u64)
        ensures
            r == spec_root_input_time(self@, name@, self@.dataflows.len() as nat),
    {
        self.root_input_time_fuel(name, self.dataflows.len())
    }

    fn root_input_time_fuel(&self, name: &String, fuel: usize) -> (r: u64)
        ensures
            r == spec_root_input_time(self@, name@, fuel as nat),
        decreases fuel, 0int,
    {
        if fuel == 0 {
            return u64::MAX;
        }
        match df_lookup(&self.dataflows, name) {
            None => u64::MAX,
            Some(i) => {
                assert(df_find(self@.dataflows, name@) == Some(self@.dataflows[i as int]));
                match &self.dataflows[i] {
                    Dataflow::Source { .. } => match in_lookup(&self.inputs, name) {
                        Some(j) => {
                            assert(in_find(self@.inputs, name@) == Some(
                                self@.inputs[j as int].1,
                            ));
                            cap_time(self.inputs[j].1)
                        }
                        None => u64::MAX,
                    },
                    Dataflow::Sink { .. } => u64::MAX,
                    Dataflow::View { relation_expr, .. } => {
                        let names = relation_expr.uses();
                        self.min_root_time(&names, fuel - 1)
                    }
                }
            }
        }
    }

    fn min_root_time(&self, names: &Vec<String>, fuel: usize) -> (r: u64)
        ensures
            r == spec_min_root_time(self@, names.deep_view(), fuel as nat),
        decreases fuel, 1int,
    {
        let ghost nv = names.deep_view();
        assert(nv.skip(0) =~= nv);
        let mut acc: u64 = u64::MAX;
        let n = names.len();
        let mut k: usize = 0;
        while k < n
            invariant
                nv == names.deep_view(),
                n == names@.len(),
                k <= n,
                spec_min64(acc, spec_min_root_time(self@, nv.skip(k as int), fuel as nat))
                    == spec_min_root_time(self@, nv, fuel as nat),
            decreases n - k,
        {
            let t = self.root_input_time_fuel(&names[k], fuel);
            proof {
                assert(nv.skip(k as int)[0] == nv[k as int]);
                assert(nv.skip(k as int).drop_first() =~= nv.skip(k + 1 as int));
            }
            if t < acc {
                acc = t;
            }
            k += 1;
        }
        assert(nv.skip(n as int) =~= Seq::<Seq<char>>::empty());
        acc
    }

    /// Select a peek timestamp and form the pending peek to broadcast.
    /// Only worker 0 sequences; it hands the peek to the engine-wide
    /// sequencer, which every worker later drains in the same order.
    pub fn sequence_peek(
        &self,
        meta: &CommandMeta,
        dataflow: &Dataflow,
        when: PeekWhen,
        drop: bool,
    ) -> (r: Option<PendingPeek>)
        requires
            self@.index == 0 && when == PeekWhen::Immediately ==> tr_contains(
                self@.traces,
                spec_get_key(dataflow.deep_view()),
            ),
        ensures
            r.deep_view() == if self@.index == 0 {
                Some(
                    spec_pending_peek(
                        self@,
                        meta.connection_uuid,
                        dataflow.deep_view(),
                        when,
                        drop,
                    ),
                )
            } else {
                None::<PendingPeekV>
            },
    {
        if self.index != 0 {
            return None;
        }
        let get = Expr::Get {
            name: dataflow.name().clone(),
            typ: relation_type_copy(dataflow.typ()),
        };
        assert(get.deep_view() == spec_get_key(dataflow.deep_view()));
        let timestamp: u64 = match when {
            PeekWhen::Immediately => match tr_lookup(&self.traces, &get) {
                Some(i) => match self.traces[i].1.upper {
                    Frontier::Empty => 0,
                    Frontier::At(u) => {
                        if u == 0 {
                            0
                        } else {
                            u - 1
                        }
                    }
                },
                None => 0,
            },
            PeekWhen::AfterFlush => {
                let rt = self.root_input_time(dataflow.name());
                if rt == 0 {
                    0
                } else {
                    rt - 1
                }
            }
            PeekWhen::AtTimestamp(t) => t,
        };
        Some(
            PendingPeek {
                expr: get,
                connection_uuid: meta.connection_uuid,
                timestamp,
                drop_after_peek: if drop {
                    Some(dataflow_copy(dataflow))
                } else {
                    None
                },
            },
        )
    }

    /// Apply an insertion: worker 0 emits each row at the current input
    /// time into the named local input; every worker then advances the
    /// input time and downgrades every local capability to it.
    fn insert_rows(&mut self, name: &String, rows: &Vec<Row>) -> (em: Option<
        (String, Vec<Row>, u64),
    >)
        requires
            old(self)@.input_time < u64::MAX,
            old(self)@.index == 0 ==> (in_find(old(self)@.inputs, name@) matches Some(
                InputCapability::Local { .. },
            )),
        ensures
            final(self)@ == spec_insert_command(old(self)@),
            em.deep_view() == if old(self)@.index == 0 {
                Some((name@, rows.deep_view(), old(self)@.input_time))
            } else {
                None::<(Seq<char>, Seq<RowV>, u64)>
            },
    {
        let em: Option<(String, Vec<Row>, u64)> = if self.index == 0 {
            match in_lookup(&self.inputs, name) {
                Some(i) => match self.inputs[i].1 {
                    InputCapability::Local { .. } => Some(
                        (name.clone(), rows_copy(rows), self.input_time),
                    ),
                    InputCapability::External { .. } => {
                        proof {
                            assert(false);
                        }
                        None
                    }
                },
                None => {
                    proof {
                        assert(false);
                    }
                    None
                }
            }
        } else {
            None
        };
        self.input_time = self.input_time + 1;
        let t = self.input_time;
        let ghost orig = self.inputs.deep_view();
        let n = self.inputs.len();
        let mut k: usize = 0;
        assert(spec_downgrade_inputs(orig.take(0), t) + orig.skip(0) =~= orig);
        while k < n
            invariant
                n == self.inputs@.len(),
                orig.len() == n,
                k <= n,
                self.inputs.deep_view() == spec_downgrade_inputs(orig.take(k as int), t)
                    + orig.skip(k as int),
                self.input_time == t,
                self@.index == old(self)@.index,
                self@.dataflows == old(self)@.dataflows,
                self@.traces == old(self)@.traces,
                self@.pending_peeks == old(self)@.pending_peeks,
                self@.seq_pos == old(self)@.seq_pos,
                self@.shutdown == old(self)@.shutdown,
                self@.transient_view_counter == old(self)@.transient_view_counter,
            decreases n - k,
        {
            let ghost pre = self.inputs.deep_view();
            let cap = self.inputs[k].1;
            match cap {
                InputCapability::Local { .. } => {
                    let pair = &mut self.inputs[k];
                    pair.1 = InputCapability::Local { time: t };
                }
                InputCapability::External { .. } => {}
            }
            proof {
                match cap {
                    InputCapability::Local { .. } => {
                        assert(self.inputs.deep_view() =~= pre.update(
                            k as int,
                            (pre[k as int].0, InputCapability::Local { time: t }),
                        ));
                    }
                    InputCapability::External { .. } => {
                        assert(self.inputs.deep_view() =~= pre);
                    }
                }
                assert(orig[k as int].1 == cap);
                assert(self.inputs.deep_view() =~= spec_downgrade_inputs(
                    orig.take(k + 1 as int),
                    t,
                ) + orig.skip(k + 1 as int));
            }
            k += 1;
        }
        proof {
            assert(orig.take(n as int) =~= orig);
            assert(self.inputs.deep_view() =~= spec_downgrade_inputs(orig, t));
            assert(self@ =~= spec_insert_command(old(self)@));
        }
        em
    }

    /// Take one sequenced peek from the engine's broadcast, in order. The
    /// sequencer only admits peeks against installed dataflows, so the
    /// trace must be present.
    pub fn intake_peek(&mut self, p: &PendingPeek)
        requires
            tr_contains(old(self)@.traces, p.deep_view().expr),
            old(self)@.seq_pos < usize::MAX,
        ensures
            final(self)@ == (WorkerModel {
                pending_peeks: old(self)@.pending_peeks.push(p.deep_view()),
                seq_pos: old(self)@.seq_pos + 1,
                ..old(self)@
            }),
    {
        let ghost pre = self.pending_peeks.deep_view();
        self.pending_peeks.push(pending_peek_copy(p));
        assert(self.pending_peeks.deep_view() =~= pre.push(p.deep_view()));
        self.seq_pos = self.seq_pos + 1;
    }

    /// Drain the sequencer's broadcast: take every peek this worker has
    /// not yet taken, in log order.
    pub fn intake_all(&mut self, log: &Vec<PendingPeek>)
        requires
            0 <= old(self)@.seq_pos <= log.deep_view().len(),
            forall|k: int|
                old(self)@.seq_pos <= k < log.deep_view().len() ==> tr_contains(
                    old(self)@.traces,
                    (#[trigger] log.deep_view()[k]).expr,
                ),
        ensures
            final(self)@ == spec_after_intake(old(self)@, log.deep_view()),
    {
        let ghost ow = old(self)@;
        let ghost logv = log.deep_view();
        let n = log.len();
        assert(logv.subrange(ow.seq_pos, ow.seq_pos) =~= Seq::<PendingPeekV>::empty());
        assert(ow.pending_peeks + logv.subrange(ow.seq_pos, ow.seq_pos) =~= ow.pending_peeks);
        while self.seq_pos < n
            invariant
                n == log@.len(),
                logv == log.deep_view(),
                0 <= ow.seq_pos <= self@.seq_pos <= n as int,
                forall|k: int|
                    ow.seq_pos <= k < logv.len() ==> tr_contains(
                        ow.traces,
                        (#[trigger] logv[k]).expr,
                    ),
                self@ == (WorkerModel {
                    pending_peeks: ow.pending_peeks + logv.subrange(
                        ow.seq_pos,
                        self@.seq_pos,
                    ),
                    seq_pos: self@.seq_pos,
                    ..ow
                }),
            decreases n - self.seq_pos,
        {
            let pos = self.seq_pos;
            let ghost prepos = pos as int;
            assert(ow.seq_pos <= prepos < logv.len());
            assert(logv[pos as int] == log.deep_view()[pos as int]);
            self.intake_peek(&log[pos]);
            assert(logv.subrange(ow.seq_pos, prepos + 1) =~= logv.subrange(
                ow.seq_pos,
                prepos,
            ).push(logv[prepos]));
            assert(ow.pending_peeks + logv.subrange(ow.seq_pos, prepos + 1) =~= (
            ow.pending_peeks + logv.subrange(ow.seq_pos, prepos)).push(logv[prepos]));
        }
        assert(logv.subrange(ow.seq_pos, n as int) =~= logv.skip(ow.seq_pos));
        assert(self@ =~= spec_after_intake(ow, logv));
    }

    /// Record rows the engine moved into the trace under `key`, each with
    /// diff `+1`, at time `t`; tolerant of a missing trace.
    pub fn apply_trace_rows(&mut self, key: &Expr, rows: &Vec<Row>, t: u64)
        ensures
            final(self)@ == spec_apply_trace(old(self)@, key.deep_view(), rows.deep_view(), t),
            spec_names_unique(old(self)@) ==> spec_names_unique(final(self)@),
    {
        proof {
            if spec_names_unique(old(self)@) {
                lemma_unique_apply_trace(old(self)@, key.deep_view(), rows.deep_view(), t);
            }
        }
        match tr_lookup(&self.traces, key) {
            None => {}
            Some(ti) => {
                let ghost pre = self.traces.deep_view();
                proof {
                    crate::registry::lemma_tr_first_props(pre, key.deep_view());
                }
                let pair = &mut self.traces[ti];
                pair.1.append_rows(rows, t);
                assert(self.traces.deep_view() =~= pre.update(
                    ti as int,
                    (
                        pre[ti as int].0,
                        TraceDataV {
                            entries: spec_append_rows(
                                pre[ti as int].1.entries,
                                rows.deep_view(),
                                t,
                            ),
                            upper: pre[ti as int].1.upper,
                        },
                    ),
                ));
            }
        }
    }

    /// Record rows the engine moved into the trace of the named dataflow,
    /// each with diff `+1`, at time `t`; tolerant of a dropped dataflow.
    pub fn apply_input_rows(&mut self, name: &String, rows: &Vec<Row>, t: u64)
        ensures
            final(self)@ == spec_apply_input(old(self)@, name@, rows.deep_view(), t),
            spec_names_unique(old(self)@) ==> spec_names_unique(final(self)@),
    {
        match df_lookup(&self.dataflows, name) {
            None => {}
            Some(di) => {
                let key = Expr::Get {
                    name: self.dataflows[di].name().clone(),
                    typ: relation_type_copy(self.dataflows[di].typ()),
                };
                assert(key.deep_view() == spec_get_key(self@.dataflows[di as int]));
                self.apply_trace_rows(&key, rows, t);
            }
        }
    }

    /// Record that the engine advanced the upper frontier of the trace
    /// under `key`; a frontier only moves forward. Tolerant of a missing
    /// trace.
    pub fn advance_trace(&mut self, key: &Expr, new_upper: Frontier)
        requires
            match tr_find(old(self)@.traces, key.deep_view()) {
                Some(td) => td.upper.spec_advances_to(new_upper),
                None => true,
            },
        ensures
            final(self)@ == spec_advance_trace(old(self)@, key.deep_view(), new_upper),
            spec_names_unique(old(self)@) ==> spec_names_unique(final(self)@),
    {
        proof {
            if spec_names_unique(old(self)@) {
                lemma_unique_advance_trace(old(self)@, key.deep_view(), new_upper);
            }
        }
        match tr_lookup(&self.traces, key) {
            None => {}
            Some(ti) => {
                let ghost pre = self.traces.deep_view();
                proof {
                    crate::registry::lemma_tr_first_props(pre, key.deep_view());
                }
                let pair = &mut self.traces[ti];
                pair.1.upper = new_upper;
                assert(self.traces.deep_view() =~= pre.update(
                    ti as int,
                    (
                        pre[ti as int].0,
                        TraceDataV { entries: pre[ti as int].1.entries, upper: new_upper },
                    ),
                ));
            }
        }
    }
}

/// Whether a pending peek is final against the given traces: its trace is
/// present and no element of the trace's upper frontier is at or below the
/// peek's timestamp.
pub open spec fn spec_is_final(ts: Seq<(ExprV, TraceDataV)>, p: PendingPeekV) -> bool {
    match tr_find(ts, p.expr) {
        Some(td) => !td.upper.spec_less_equal(p.timestamp),
        None => false,
    }
}

/// The pending peeks that stay pending: those not yet final.
pub open spec fn spec_kept(ts: Seq<(ExprV, TraceDataV)>, ps: Seq<PendingPeekV>) -> Seq<
    PendingPeekV,
>
    decreases ps.len(),
{
    if ps.len() == 0 {
        Seq::empty()
    } else {
        (if !spec_is_final(ts, ps[0]) {
            seq![ps[0]]
        } else {
            Seq::empty()
        }) + spec_kept(ts, ps.drop_first())
    }
}

/// The deliveries retirement produces: for each final peek, in pending
/// order, its connection and the materialized rows at its timestamp.
pub open spec fn spec_deliveries(ts: Seq<(ExprV, TraceDataV)>, ps: Seq<PendingPeekV>) -> Seq<
    (u128, Seq<RowV>),
>
    decreases ps.len(),
{
    if ps.len() == 0 {
        Seq::empty()
    } else {
        (if spec_is_final(ts, ps[0]) {
            seq![
                (ps[0].connection_uuid, peek_rows(tr_find(ts, ps[0].expr).unwrap().entries, ps[0].timestamp)),
            ]
        } else {
            Seq::empty()
        }) + spec_deliveries(ts, ps.drop_first())
    }
}

/// The transient dataflows queued for deletion by retirement.
pub open spec fn spec_retire_drops(ts: Seq<(ExprV, TraceDataV)>, ps: Seq<PendingPeekV>) -> Seq<
    DataflowV,
>
    decreases ps.len(),
{
    if ps.len() == 0 {
        Seq::empty()
    } else {
        (if spec_is_final(ts, ps[0]) && ps[0].drop_after_peek is Some {
            seq![ps[0].drop_after_peek.unwrap()]
        } else {
            Seq::empty()
        }) + spec_retire_drops(ts, ps.drop_first())
    }
}

/// Every final pending peek accumulates non-negative multiplicities at its
/// timestamp; a negative one is a trace contract violation and fatal.
pub open spec fn spec_peeks_ok(ts: Seq<(ExprV, TraceDataV)>, ps: Seq<PendingPeekV>) -> bool {
    forall|i: int|
        0 <= i < ps.len() && spec_is_final(ts, #[trigger] ps[i]) ==> trace_nonneg(
            tr_find(ts, ps[i].expr).unwrap().entries,
            ps[i].timestamp,
        )
}

/// Dropping dataflows touches only the registries: index, times, counter,
/// pending peeks, sequencer position and the latch stay.
pub proof fn lemma_drop_all_frame(m: WorkerModel, ds: Seq<DataflowV>)
    ensures
        ({
            let r = spec_drop_all(m, ds);
            r.index == m.index && r.input_time == m.input_time && r.transient_view_counter
                == m.transient_view_counter && r.pending_peeks == m.pending_peeks && r.seq_pos
                == m.seq_pos && r.shutdown == m.shutdown
        }),
    decreases ds.len(),
{
    if ds.len() == 0 {
    } else {
        lemma_drop_all_frame(spec_drop_one(m, ds[0]), ds.drop_first());
    }
}

/// A worker that has drained the sequencer's log: the not-yet-taken suffix
/// is appended to its pending peeks, in order.
pub open spec fn spec_after_intake(w: WorkerModel, log: Seq<PendingPeekV>) -> WorkerModel {
    WorkerModel {
        pending_peeks: w.pending_peeks + log.skip(w.seq_pos),
        seq_pos: log.len() as int,
        ..w
    }
}

/// A worker whose pending peeks were swept once: the final ones retired,
/// their transient dataflows dropped.
pub open spec fn spec_retire(w: WorkerModel) -> WorkerModel {
    spec_drop_all(
        WorkerModel { pending_peeks: spec_kept(w.traces, w.pending_peeks), ..w },
        spec_retire_drops(w.traces, w.pending_peeks),
    )
}


/// The uniqueness invariant of the per-worker state: a dataflow name, an
/// input name, and a trace key each occur at most once in their registry.
pub open spec fn spec_names_unique(m: WorkerModel) -> bool {
    &&& df_names_unique(m.dataflows)
    &&& in_names_unique(m.inputs)
    &&& tr_keys_unique(m.traces)
}

/// Installing a dataflow under fresh names preserves the uniqueness
/// invariant.
pub proof fn lemma_unique_create(m: WorkerModel, d: DataflowV)
    requires
        spec_names_unique(m),
        !df_contains(m.dataflows, spec_df_name(d)),
        d matches DataflowV::Source { .. } ==> !in_contains(m.inputs, spec_df_name(d)),
        !(d matches DataflowV::Sink { .. }) ==> !tr_contains(m.traces, spec_get_key(d)),
    ensures
        spec_names_unique(spec_create_dataflow(m, d)),
{
    lemma_df_push_unique(m.dataflows, d);
    match d {
        DataflowV::Source { name, connector, .. } => {
            lemma_in_push_unique(
                m.inputs,
                (
                    name,
                    match connector {
                        SourceConnector::Local => InputCapability::Local { time: m.input_time },
                        SourceConnector::External => InputCapability::External {
                            time: m.input_time,
                        },
                    },
                ),
            );
            lemma_tr_push_unique(
                m.traces,
                (
                    spec_get_key(d),
                    TraceDataV { entries: Seq::empty(), upper: Frontier::At(m.input_time) },
                ),
            );
        }
        DataflowV::View { .. } => {
            lemma_tr_push_unique(
                m.traces,
                (
                    spec_get_key(d),
                    TraceDataV { entries: Seq::empty(), upper: Frontier::At(m.input_time) },
                ),
            );
        }
        DataflowV::Sink { .. } => {}
    }
}

/// Dropping a dataflow preserves the uniqueness invariant.
pub proof fn lemma_unique_drop_one(m: WorkerModel, d: DataflowV)
    requires
        spec_names_unique(m),
    ensures
        spec_names_unique(spec_drop_one(m, d)),
{
    lemma_df_remove_unique(m.dataflows, spec_df_name(d));
    lemma_in_remove_unique(m.inputs, spec_df_name(d));
    match d {
        DataflowV::Sink { .. } => {}
        _ => {
            lemma_tr_remove_unique(m.traces, spec_get_key(d));
        }
    }
}

/// Dropping any list of dataflows preserves the uniqueness invariant.
pub proof fn lemma_unique_drop_all(m: WorkerModel, ds: Seq<DataflowV>)
    requires
        spec_names_unique(m),
    ensures
        spec_names_unique(spec_drop_all(m, ds)),
    decreases ds.len(),
{
    if ds.len() == 0 {
    } else {
        lemma_unique_drop_one(m, ds[0]);
        lemma_unique_drop_all(spec_drop_one(m, ds[0]), ds.drop_first());
    }
}

/// Downgrading the local capabilities keeps every input name in place, so
/// an insertion preserves the uniqueness invariant.
pub proof fn lemma_unique_insert(m: WorkerModel)
    requires
        spec_names_unique(m),
    ensures
        spec_names_unique(spec_insert_command(m)),
{
    let t = (m.input_time + 1) as u64;
    let ins2 = spec_downgrade_inputs(m.inputs, t);
    assert forall|i: int, j: int| 0 <= i < j < ins2.len() implies (#[trigger] ins2[i]).0 != (
    #[trigger] ins2[j]).0 by {
        assert(ins2[i].0 == m.inputs[i].0);
        assert(ins2[j].0 == m.inputs[j].0);
        assert(m.inputs[i].0 != m.inputs[j].0);
    }
}

/// An engine delivery into a trace keeps every key in place, so it
/// preserves the uniqueness invariant.
pub proof fn lemma_unique_apply_trace(m: WorkerModel, key: ExprV, rows: Seq<RowV>, t: u64)
    requires
        spec_names_unique(m),
    ensures
        spec_names_unique(spec_apply_trace(m, key, rows, t)),
{
    let ts2 = spec_apply_trace(m, key, rows, t).traces;
    if tr_contains(m.traces, key) {
        crate::registry::lemma_tr_first_props(m.traces, key);
        assert forall|i: int, j: int| 0 <= i < j < ts2.len() implies (#[trigger] ts2[i]).0 != (
        #[trigger] ts2[j]).0 by {
            assert(ts2[i].0 == m.traces[i].0);
            assert(ts2[j].0 == m.traces[j].0);
            assert(m.traces[i].0 != m.traces[j].0);
        }
    }
}

/// A frontier advance keeps every key in place, so it preserves the
/// uniqueness invariant.
pub proof fn lemma_unique_advance_trace(m: WorkerModel, key: ExprV, u: Frontier)
    requires
        spec_names_unique(m),
    ensures
        spec_names_unique(spec_advance_trace(m, key, u)),
{
    let ts2 = spec_advance_trace(m, key, u).traces;
    if tr_contains(m.traces, key) {
        crate::registry::lemma_tr_first_props(m.traces, key);
        assert forall|i: int, j: int| 0 <= i < j < ts2.len() implies (#[trigger] ts2[i]).0 != (
        #[trigger] ts2[j]).0 by {
            assert(ts2[i].0 == m.traces[i].0);
            assert(ts2[j].0 == m.traces[j].0);
            assert(m.traces[i].0 != m.traces[j].0);
        }
    }
}

/// The transient view a `PeekTransient` command synthesizes: a view named
/// by the current counter, over the given expression.
pub open spec fn spec_transient_df(m: WorkerModel, e: ExprV) -> DataflowV {
    DataflowV::View {
        name: spec_temp_name(m.transient_view_counter),
        relation_expr: e,
        typ: spec_expr_typ(e),
    }
}

impl WorkerState {
    /// Apply one command to the local worker state, and hand back what the
    /// engine is asked to do: the sequenced peek (worker 0 only) and the
    /// emitted rows (worker 0 only). The reserved `Tail` command is left
    /// out by contract.
    pub fn handle_command(&mut self, cmd: &DataflowCommand, meta: &CommandMeta) -> (eff:
        CommandEffects)
        requires
            spec_command_ok(old(self)@, *cmd),
        ensures
            final(self)@.input_time >= old(self)@.input_time,
            final(self)@.index == old(self)@.index,
            final(self)@.seq_pos == old(self)@.seq_pos,
            final(self)@.pending_peeks == old(self)@.pending_peeks,
            spec_names_unique(old(self)@) ==> spec_names_unique(final(self)@),
            match *cmd {
                DataflowCommand::CreateDataflow(ref d) => final(self)@ == spec_create_dataflow(
                    old(self)@,
                    d.deep_view(),
                ) && eff.sequenced is None && eff.emitted is None,
                DataflowCommand::DropDataflows(ref ds) => final(self)@ == spec_drop_all(
                    old(self)@,
                    ds.deep_view(),
                ) && eff.sequenced is None && eff.emitted is None,
                DataflowCommand::PeekExisting { ref dataflow, when } => final(self)@ == old(
                    self,
                )@ && eff.emitted is None && eff.sequenced.deep_view() == (if old(self)@.index
                    == 0 {
                    Some(
                        spec_pending_peek(
                            old(self)@,
                            meta.connection_uuid,
                            dataflow.deep_view(),
                            when,
                            false,
                        ),
                    )
                } else {
                    None::<PendingPeekV>
                }),
                DataflowCommand::PeekTransient { ref relation_expr, when } => {
                    let d = spec_transient_df(old(self)@, relation_expr.deep_view());
                    let created = spec_create_dataflow(old(self)@, d);
                    final(self)@ == (WorkerModel {
                        transient_view_counter: (old(self)@.transient_view_counter + 1) as u64,
                        ..created
                    }) && eff.emitted is None && eff.sequenced.deep_view() == (if old(self)@.index
                        == 0 {
                        Some(spec_pending_peek(created, meta.connection_uuid, d, when, true))
                    } else {
                        None::<PendingPeekV>
                    })
                },
                DataflowCommand::Insert(ref name, ref rows) => final(self)@
                    == spec_insert_command(old(self)@) && eff.sequenced is None
                    && eff.emitted.deep_view() == (if old(self)@.index == 0 {
                    Some((name@, rows.deep_view(), old(self)@.input_time))
                } else {
                    None::<(Seq<char>, Seq<RowV>, u64)>
                }),
                DataflowCommand::Tail(_) => false,
                DataflowCommand::Shutdown => final(self)@ == spec_shutdown(old(self)@)
                    && eff.sequenced is None && eff.emitted is None,
            },
    {
        match cmd {
            DataflowCommand::CreateDataflow(d) => {
                self.create_dataflow(d);
                proof {
                    if spec_names_unique(old(self)@) {
                        lemma_unique_create(old(self)@, d.deep_view());
                    }
                }
                CommandEffects { sequenced: None, emitted: None }
            }
            DataflowCommand::DropDataflows(ds) => {
                self.drop_dataflows(ds);
                proof {
                    lemma_drop_all_frame(old(self)@, ds.deep_view());
                    if spec_names_unique(old(self)@) {
                        lemma_unique_drop_all(old(self)@, ds.deep_view());
                    }
                }
                CommandEffects { sequenced: None, emitted: None }
            }
            DataflowCommand::PeekExisting { dataflow, when } => {
                let sequenced = self.sequence_peek(meta, dataflow, *when, false);
                CommandEffects { sequenced, emitted: None }
            }
            DataflowCommand::PeekTransient { relation_expr, when } => {
                let name = temp_view_name(self.transient_view_counter);
                let typ = relation_type_copy(relation_expr.typ());
                let d = Dataflow::View { name, relation_expr: expr_copy(relation_expr), typ };
                assert(d.deep_view() == spec_transient_df(old(self)@, relation_expr.deep_view()));
                self.create_dataflow(&d);
                proof {
                    let key = spec_get_key(d.deep_view());
                    let ts = self@.traces;
                    assert(ts[ts.len() - 1].0 == key);
                    crate::registry::lemma_tr_some_match(ts, key, ts.len() - 1);
                }
                let sequenced = self.sequence_peek(meta, &d, *when, true);
                self.transient_view_counter = self.transient_view_counter + 1;
                proof {
                    if spec_names_unique(old(self)@) {
                        lemma_unique_create(
                            old(self)@,
                            spec_transient_df(old(self)@, relation_expr.deep_view()),
                        );
                    }
                }
                CommandEffects { sequenced, emitted: None }
            }
            DataflowCommand::Insert(name, rows) => {
                let emitted = self.insert_rows(name, rows);
                proof {
                    if spec_names_unique(old(self)@) {
                        lemma_unique_insert(old(self)@);
                    }
                }
                CommandEffects { sequenced: None, emitted }
            }
            DataflowCommand::Tail(_) => {
                proof {
                    assert(false);
                }
                CommandEffects { sequenced: None, emitted: None }
            }
            DataflowCommand::Shutdown => {
                self.dataflows.clear();
                self.inputs.clear();
                self.traces.clear();
                self.shutdown = true;
                assert(self@.dataflows =~= Seq::<DataflowV>::empty());
                assert(self@.inputs =~= Seq::<(Seq<char>, InputCapability)>::empty());
                assert(self@.traces =~= Seq::<(ExprV, TraceDataV)>::empty());
                CommandEffects { sequenced: None, emitted: None }
            }
        }
    }

    /// Scan the pending peeks and retire each whose timestamp is final:
    /// materialize its rows, queue its delivery, and queue its transient
    /// dataflow for deletion; peeks not yet final stay pending, and queued
    /// deletions are applied at the end under the null identity.
    pub fn process_peeks(&mut self) -> (deliveries: Vec<(u128, Vec<Row>)>)
        requires
            spec_peeks_ok(old(self)@.traces, old(self)@.pending_peeks),
        ensures
            deliveries.deep_view() == spec_deliveries(
                old(self)@.traces,
                old(self)@.pending_peeks,
            ),
            final(self)@ == spec_drop_all(
                (WorkerModel {
                    pending_peeks: spec_kept(old(self)@.traces, old(self)@.pending_peeks),
                    ..old(self)@
                }),
                spec_retire_drops(old(self)@.traces, old(self)@.pending_peeks),
            ),
            spec_names_unique(old(self)@) ==> spec_names_unique(final(self)@),
    {
        let ghost trs = self@.traces;
        let ghost ps = self@.pending_peeks;
        let mut rest: Vec<PendingPeek> = Vec::new();
        core::mem::swap(&mut rest, &mut self.pending_peeks);
        assert(rest.deep_view() == ps);
        assert(self@.pending_peeks =~= Seq::<PendingPeekV>::empty());
        let mut kept: Vec<PendingPeek> = Vec::new();
        let mut deliveries: Vec<(u128, Vec<Row>)> = Vec::new();
        let mut drops: Vec<Dataflow> = Vec::new();
        let n = rest.len();
        let mut i: usize = 0;
        proof {
            assert(ps.skip(0) =~= ps);
            assert(kept.deep_view() =~= Seq::<PendingPeekV>::empty());
            assert(deliveries.deep_view() =~= Seq::<(u128, Seq<RowV>)>::empty());
            assert(drops.deep_view() =~= Seq::<DataflowV>::empty());
        }
        while i < n
            invariant
                spec_peeks_ok(trs, ps),
                n == rest@.len(),
                rest.deep_view() == ps,
                trs == self@.traces,
                i <= n,
                spec_kept(trs, ps) == kept.deep_view() + spec_kept(trs, ps.skip(i as int)),
                spec_deliveries(trs, ps) == deliveries.deep_view() + spec_deliveries(
                    trs,
                    ps.skip(i as int),
                ),
                spec_retire_drops(trs, ps) == drops.deep_view() + spec_retire_drops(
                    trs,
                    ps.skip(i as int),
                ),
            decreases n - i,
        {
            proof {
                assert(ps.skip(i as int)[0] == ps[i as int]);
                assert(ps.skip(i as int).drop_first() =~= ps.skip(i + 1 as int));
            }
            let p = &rest[i];
            let mut retired = false;
            match tr_lookup(&self.traces, &p.expr) {
                Some(ti) => {
                    let td = &self.traces[ti].1;
                    if !td.upper.less_equal(p.timestamp) {
                        retired = true;
                        assert(spec_is_final(trs, ps[i as int]));
                        assert(tr_find(trs, ps[i as int].expr) == Some(td.deep_view()));
                        let rows = trace_peek_rows(td, p.timestamp);
                        let ghost predel = deliveries.deep_view();
                        deliveries.push((p.connection_uuid, rows));
                        assert(deliveries.deep_view() =~= predel.push(
                            (ps[i as int].connection_uuid, rows.deep_view()),
                        ));
                        match &p.drop_after_peek {
                            Some(d) => {
                                let ghost predrop = drops.deep_view();
                                drops.push(dataflow_copy(d));
                                assert(drops.deep_view() =~= predrop.push(d.deep_view()));
                            }
                            None => {}
                        }
                    }
                }
                None => {}
            }
            if !retired {
                assert(!spec_is_final(trs, ps[i as int]));
                let ghost prekept = kept.deep_view();
                kept.push(pending_peek_copy(p));
                assert(kept.deep_view() =~= prekept.push(ps[i as int]));
            }
            proof {
                assert(kept.deep_view() + spec_kept(trs, ps.skip(i + 1 as int)) =~= spec_kept(
                    trs,
                    ps,
                ));
                assert(deliveries.deep_view() + spec_deliveries(trs, ps.skip(i + 1 as int))
                    =~= spec_deliveries(trs, ps));
                assert(drops.deep_view() + spec_retire_drops(trs, ps.skip(i + 1 as int))
                    =~= spec_retire_drops(trs, ps));
            }
            i += 1;
        }
        proof {
            assert(ps.skip(n as int) =~= Seq::<PendingPeekV>::empty());
            assert(spec_kept(trs, ps) =~= kept.deep_view());
            assert(spec_deliveries(trs, ps) =~= deliveries.deep_view());
            assert(spec_retire_drops(trs, ps) =~= drops.deep_view());
        }
        self.pending_peeks = kept;
        assert(self@ =~= (WorkerModel { pending_peeks: spec_kept(trs, ps), ..old(self)@ }));
        proof {
            if spec_names_unique(old(self)@) {
                lemma_unique_drop_all(
                    WorkerModel { pending_peeks: spec_kept(trs, ps), ..old(self)@ },
                    spec_retire_drops(trs, ps),
                );
            }
        }
        self.drop_dataflows(&drops);
        deliveries
    }
}

/// The fixed bootstrap source: a locally fed relation named `dual` with
/// one non-nullable string column named `x`.
pub open spec fn spec_dual_dataflow() -> DataflowV {
    DataflowV::Source {
        name: "dual"@,
        connector: SourceConnector::Local,
        typ: RelationTypeV {
            columns: seq![
                ColumnTypeV { name: "x"@, nullable: false, scalar_type: ScalarType::String },
            ],
        },
    }
}

/// The dataflow description the bootstrap list installs.
pub fn dual_dataflow() -> (d: Dataflow)
    ensures
        d.deep_view() == spec_dual_dataflow(),
{
    let mut columns: Vec<ColumnType> = Vec::new();
    columns.push(
        ColumnType { name: "x".to_owned(), nullable: false, scalar_type: ScalarType::String },
    );
    let d = Dataflow::Source {
        name: "dual".to_owned(),
        connector: SourceConnector::Local,
        typ: RelationType { columns },
    };
    assert(d.deep_view() == spec_dual_dataflow()) by {
        assert(spec_df_typ(d.deep_view()).columns =~= spec_df_typ(
            spec_dual_dataflow(),
        ).columns);
    }
    d
}

/// The row the bootstrap list inserts into `dual`.
pub open spec fn spec_dual_rows() -> Seq<RowV> {
    seq![seq![DatumV::Str("X"@)]]
}

/// The rows the bootstrap list inserts into `dual`.
pub fn dual_rows() -> (rows: Vec<Row>)
    ensures
        rows.deep_view() == spec_dual_rows(),
{
    let mut row: Row = Vec::new();
    row.push(Datum::String("X".to_owned()));
    let mut rows: Vec<Row> = Vec::new();
    assert(row.deep_view() =~= seq![DatumV::Str("X"@)]);
    rows.push(row);
    assert(rows.deep_view() =~= spec_dual_rows());
    rows
}

/// The trace registry after the engine moved `rows` at time `t` into the
/// trace under `key`; unchanged when the trace is gone.
pub open spec fn spec_apply_trace(
    m: WorkerModel,
    key: ExprV,
    rows: Seq<RowV>,
    t: u64,
) -> WorkerModel {
    if tr_contains(m.traces, key) {
        let i = tr_first(m.traces, key);
        let td = m.traces[i].1;
        WorkerModel {
            traces: m.traces.update(
                i,
                (
                    m.traces[i].0,
                    TraceDataV { entries: spec_append_rows(td.entries, rows, t), upper: td.upper },
                ),
            ),
            ..m
        }
    } else {
        m
    }
}

/// The trace registry after the engine moved `rows` at time `t` into the
/// trace of the dataflow named `name`; unchanged when the dataflow or its
/// trace is gone.
pub open spec fn spec_apply_input(
    m: WorkerModel,
    name: Seq<char>,
    rows: Seq<RowV>,
    t: u64,
) -> WorkerModel {
    match df_find(m.dataflows, name) {
        None => m,
        Some(d) => spec_apply_trace(m, spec_get_key(d), rows, t),
    }
}

/// The trace registry after the engine advanced the upper frontier of the
/// trace under `key`; unchanged when the trace is gone.
pub open spec fn spec_advance_trace(m: WorkerModel, key: ExprV, u: Frontier) -> WorkerModel {
    if tr_contains(m.traces, key) {
        let i = tr_first(m.traces, key);
        WorkerModel {
            traces: m.traces.update(
                i,
                (m.traces[i].0, TraceDataV { entries: m.traces[i].1.entries, upper: u }),
            ),
            ..m
        }
    } else {
        m
    }
}

} // verus!
