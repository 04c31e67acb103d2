use dataflow_server::dataflow::{Dataflow, SourceConnector};
use dataflow_server::expr::Expr;
use dataflow_server::registry::InputCapability;
use dataflow_server::repr::{row_eq, ColumnType, Datum, RelationType, Row, ScalarType};
use dataflow_server::system::SystemState;
use dataflow_server::trace::{trace_peek_rows, Frontier, TraceData, TraceEntry};
use dataflow_server::worker::{
    dual_dataflow, temp_view_name, CommandMeta, DataflowCommand, PeekWhen,
};

fn string_typ() -> RelationType {
    RelationType {
        columns: vec![ColumnType {
            name: "x".to_string(),
            nullable: false,
            scalar_type: ScalarType::String,
        }],
    }
}

fn get_expr(name: &str) -> Expr {
    Expr::Get { name: name.to_string(), typ: string_typ() }
}

fn source(name: &str) -> Dataflow {
    Dataflow::Source {
        name: name.to_string(),
        connector: SourceConnector::Local,
        typ: string_typ(),
    }
}

fn row(s: &str) -> Row {
    vec![Datum::String(s.to_string())]
}

fn count_of(rows: &[Row], wanted: &Row) -> usize {
    rows.iter().filter(|r| row_eq(r, wanted)).count()
}

fn meta(uuid: u128) -> CommandMeta {
    CommandMeta { connection_uuid: uuid }
}

/// Start with one worker, bootstrap, and immediately peek `dual`: the
/// result multiset is one copy of the row `["X"]`.
#[test]
fn dual_bootstrap_immediate_peek() {
    let mut sys = SystemState::new(1);
    sys.bootstrap();
    assert_eq!(sys.workers[0].input_time, 2);
    sys.advance_trace(&get_expr("dual"), Frontier::At(2));
    let cmd = DataflowCommand::PeekExisting {
        dataflow: dual_dataflow(),
        when: PeekWhen::Immediately,
    };
    sys.dispatch(&cmd, &meta(7));
    let deliveries = sys.step();
    assert_eq!(deliveries.len(), 1);
    assert_eq!(deliveries[0].0, 7);
    assert_eq!(deliveries[0].1.len(), 1);
    assert!(row_eq(&deliveries[0].1[0], &row("X")));
}

fn setup_with_source_s(num_workers: usize) -> SystemState {
    let mut sys = SystemState::new(num_workers);
    sys.bootstrap();
    sys.dispatch(&DataflowCommand::CreateDataflow(source("s")), &meta(0));
    let rows = vec![row("a"), row("b"), row("a")];
    sys.dispatch(&DataflowCommand::Insert("s".to_string(), rows), &meta(0));
    // the engine catches the frontier up to the downgraded capabilities
    sys.advance_trace(&get_expr("s"), Frontier::At(3));
    sys
}

/// Create a source, insert three rows, peek immediately: the multiset is
/// two copies of `["a"]` and one of `["b"]`.
#[test]
fn insert_then_immediate_peek() {
    let mut sys = setup_with_source_s(1);
    let cmd = DataflowCommand::PeekExisting { dataflow: source("s"), when: PeekWhen::Immediately };
    sys.dispatch(&cmd, &meta(9));
    let deliveries = sys.step();
    assert_eq!(deliveries.len(), 1);
    assert_eq!(deliveries[0].0, 9);
    let rows = &deliveries[0].1;
    assert_eq!(rows.len(), 3);
    assert_eq!(count_of(rows, &row("a")), 2);
    assert_eq!(count_of(rows, &row("b")), 1);
}

/// A peek at a future timestamp stays pending — no delivery — until the
/// frontier passes it.
#[test]
fn at_timestamp_in_the_future_stays_pending() {
    let mut sys = setup_with_source_s(1);
    let cmd = DataflowCommand::PeekExisting {
        dataflow: source("s"),
        when: PeekWhen::AtTimestamp(1_000_000_000),
    };
    sys.dispatch(&cmd, &meta(4));
    let deliveries = sys.step();
    assert!(deliveries.is_empty());
    assert_eq!(sys.workers[0].pending_peeks.len(), 1);
    // the frontier passes the requested time: the peek retires
    sys.advance_trace(&get_expr("s"), Frontier::At(1_000_000_001));
    let deliveries = sys.step();
    assert_eq!(deliveries.len(), 1);
    assert_eq!(count_of(&deliveries[0].1, &row("a")), 2);
    assert_eq!(count_of(&deliveries[0].1, &row("b")), 1);
    assert!(sys.workers[0].pending_peeks.is_empty());
}

/// A transient peek installs a view, delivers once, and afterwards the
/// synthesized name is absent from every worker's registries.
#[test]
fn transient_view_peek_then_drop() {
    let mut sys = setup_with_source_s(1);
    let dataflows_before = sys.workers[0].dataflows.len();
    let traces_before = sys.workers[0].traces.len();
    let cmd = DataflowCommand::PeekTransient {
        relation_expr: get_expr("s"),
        when: PeekWhen::Immediately,
    };
    sys.dispatch(&cmd, &meta(11));
    let temp = temp_view_name(1);
    assert_eq!(temp, "<temp_1>");
    // the engine computes the view — identical to its source here
    let temp_key = Expr::Get { name: temp.clone(), typ: string_typ() };
    let view_rows = vec![row("a"), row("b"), row("a")];
    sys.deliver_rows(&temp_key, &view_rows, 2);
    let deliveries = sys.step();
    assert_eq!(deliveries.len(), 1);
    assert_eq!(deliveries[0].0, 11);
    assert_eq!(count_of(&deliveries[0].1, &row("a")), 2);
    assert_eq!(count_of(&deliveries[0].1, &row("b")), 1);
    // the transient dataflow is gone again
    assert_eq!(sys.workers[0].dataflows.len(), dataflows_before);
    assert_eq!(sys.workers[0].traces.len(), traces_before);
    assert!(sys.workers[0].dataflows.iter().all(|d| match d {
        Dataflow::View { name, .. } => name != &temp,
        _ => true,
    }));
}

/// With three workers the insert reaches every worker's trace identically,
/// and exactly one copy of each row is delivered to the sink.
#[test]
fn multi_worker_fan_out() {
    let mut sys = setup_with_source_s(3);
    for w in &sys.workers {
        assert_eq!(w.input_time, 3);
        let trace = w
            .traces
            .iter()
            .find(|(k, _)| matches!(k, Expr::Get { name, .. } if name == "s"))
            .expect("trace for s");
        assert_eq!(trace.1.entries.len(), 3);
    }
    for i in 1..3 {
        assert_eq!(sys.workers[0].traces, sys.workers[i].traces);
        assert_eq!(sys.workers[0].dataflows, sys.workers[i].dataflows);
    }
    let cmd = DataflowCommand::PeekExisting { dataflow: source("s"), when: PeekWhen::Immediately };
    sys.dispatch(&cmd, &meta(5));
    let deliveries = sys.step();
    assert_eq!(deliveries.len(), 1);
    assert_eq!(deliveries[0].1.len(), 3);
    assert_eq!(count_of(&deliveries[0].1, &row("a")), 2);
    assert_eq!(count_of(&deliveries[0].1, &row("b")), 1);
    // every worker intook the same single peek
    for w in &sys.workers {
        assert_eq!(w.seq_pos, sys.log.len());
    }
}

/// A peek at the maximum timestamp never becomes final; shutdown tears the
/// registries down without delivering it.
#[test]
fn shutdown_during_pending_peek() {
    let mut sys = setup_with_source_s(1);
    let cmd = DataflowCommand::PeekExisting {
        dataflow: source("s"),
        when: PeekWhen::AtTimestamp(u64::MAX),
    };
    sys.dispatch(&cmd, &meta(3));
    let deliveries = sys.step();
    assert!(deliveries.is_empty());
    sys.dispatch(&DataflowCommand::Shutdown, &meta(3));
    assert!(sys.workers[0].shutdown);
    assert!(sys.workers[0].dataflows.is_empty());
    assert!(sys.workers[0].inputs.is_empty());
    assert!(sys.workers[0].traces.is_empty());
    let deliveries = sys.step();
    assert!(deliveries.is_empty());
    assert_eq!(sys.workers[0].pending_peeks.len(), 1);
}

/// Input time advances by one on every worker for each insert, and is
/// equal across workers after each command.
#[test]
fn input_time_monotone_and_agreeing() {
    let mut sys = SystemState::new(3);
    sys.bootstrap();
    for w in &sys.workers {
        assert_eq!(w.input_time, 2);
    }
    sys.dispatch(&DataflowCommand::CreateDataflow(source("s")), &meta(0));
    for w in &sys.workers {
        assert_eq!(w.input_time, 2);
    }
    sys.dispatch(
        &DataflowCommand::Insert("s".to_string(), vec![row("a")]),
        &meta(0),
    );
    for w in &sys.workers {
        assert_eq!(w.input_time, 3);
    }
}

/// Creating a dataflow and dropping it returns the registries to their
/// prior state.
#[test]
fn create_then_drop_round_trip() {
    let mut sys = SystemState::new(1);
    sys.bootstrap();
    let dataflows_before = format!("{:?}", sys.workers[0].dataflows);
    let inputs_before = sys.workers[0].inputs.clone();
    let traces_before = format!("{:?}", sys.workers[0].traces);
    sys.dispatch(&DataflowCommand::CreateDataflow(source("s")), &meta(0));
    assert_ne!(format!("{:?}", sys.workers[0].dataflows), dataflows_before);
    sys.dispatch(&DataflowCommand::DropDataflows(vec![source("s")]), &meta(0));
    assert_eq!(format!("{:?}", sys.workers[0].dataflows), dataflows_before);
    assert_eq!(sys.workers[0].inputs, inputs_before);
    assert_eq!(format!("{:?}", sys.workers[0].traces), traces_before);
}

/// A transient peek at an explicit timestamp sequences the same peek as
/// the explicit create-peek sequence for the same fresh view name.
#[test]
fn transient_matches_explicit_sequence() {
    let mut a = setup_with_source_s(1);
    let mut b = setup_with_source_s(1);
    a.dispatch(
        &DataflowCommand::PeekTransient {
            relation_expr: get_expr("s"),
            when: PeekWhen::AtTimestamp(17),
        },
        &meta(42),
    );
    let view = Dataflow::View {
        name: temp_view_name(1),
        relation_expr: get_expr("s"),
        typ: string_typ(),
    };
    let view2 = Dataflow::View {
        name: temp_view_name(1),
        relation_expr: get_expr("s"),
        typ: string_typ(),
    };
    let view3 = Dataflow::View {
        name: temp_view_name(1),
        relation_expr: get_expr("s"),
        typ: string_typ(),
    };
    b.dispatch(&DataflowCommand::CreateDataflow(view2), &meta(42));
    b.dispatch(
        &DataflowCommand::PeekExisting { dataflow: view3, when: PeekWhen::AtTimestamp(17) },
        &meta(42),
    );
    assert_eq!(a.log.len(), 1);
    assert_eq!(b.log.len(), 1);
    assert_eq!(a.log[0].expr, b.log[0].expr);
    assert_eq!(a.log[0].timestamp, 17);
    assert_eq!(b.log[0].timestamp, 17);
    assert_eq!(a.log[0].connection_uuid, b.log[0].connection_uuid);
    assert!(a.log[0].drop_after_peek.is_some());
    assert!(b.log[0].drop_after_peek.is_none());
    // after delivery the transient drop returns the registries to the
    // prior state, as the explicit drop does
    b.dispatch(&DataflowCommand::DropDataflows(vec![view]), &meta(42));
    assert_eq!(b.workers[0].dataflows.len(), 2);
}

/// The peek accumulation filters history entries by time and sums diffs
/// per key.
#[test]
fn peek_rows_accumulates_per_key() {
    let td = TraceData {
        entries: vec![
            TraceEntry { row: row("a"), history: vec![(1, 2), (2, -1), (9, 5)] },
            TraceEntry { row: row("b"), history: vec![(3, 1)] },
        ],
        upper: Frontier::At(10),
    };
    let at5 = trace_peek_rows(&td, 5);
    assert_eq!(count_of(&at5, &row("a")), 1);
    assert_eq!(count_of(&at5, &row("b")), 1);
    let at1 = trace_peek_rows(&td, 1);
    assert_eq!(count_of(&at1, &row("a")), 2);
    assert_eq!(count_of(&at1, &row("b")), 0);
    let at9 = trace_peek_rows(&td, 9);
    assert_eq!(at9.len(), 7);
    assert_eq!(count_of(&at9, &row("a")), 6);
    assert_eq!(count_of(&at9, &row("b")), 1);
}

/// An empty upper frontier means the trace is complete; an immediate peek
/// then reads at time zero, and any timestamp is final.
#[test]
fn empty_frontier_is_always_final() {
    let mut sys = setup_with_source_s(1);
    sys.advance_trace(&get_expr("s"), Frontier::Empty);
    let cmd = DataflowCommand::PeekExisting {
        dataflow: source("s"),
        when: PeekWhen::AtTimestamp(u64::MAX),
    };
    sys.dispatch(&cmd, &meta(2));
    let deliveries = sys.step();
    assert_eq!(deliveries.len(), 1);
    assert_eq!(count_of(&deliveries[0].1, &row("a")), 2);
}

/// AfterFlush selects the minimum input time over the sources feeding a
/// view, minus one.
#[test]
fn after_flush_uses_root_input_time() {
    let mut sys = setup_with_source_s(1);
    // input_time is 3; the only root of "s" is its own capability at 3
    assert_eq!(sys.workers[0].root_input_time(&"s".to_string()), 3);
    let view = Dataflow::View {
        name: "v".to_string(),
        relation_expr: get_expr("s"),
        typ: string_typ(),
    };
    sys.dispatch(&DataflowCommand::CreateDataflow(view), &meta(0));
    assert_eq!(sys.workers[0].root_input_time(&"v".to_string()), 3);
    let view_again = Dataflow::View {
        name: "v".to_string(),
        relation_expr: get_expr("s"),
        typ: string_typ(),
    };
    let cmd = DataflowCommand::PeekExisting { dataflow: view_again, when: PeekWhen::AfterFlush };
    sys.dispatch(&cmd, &meta(6));
    assert_eq!(sys.log.len(), 1);
    assert_eq!(sys.log[0].timestamp, 2);
}

/// The synthesized transient names carry the counter in decimal.
#[test]
fn temp_names_follow_counter() {
    assert_eq!(temp_view_name(1), "<temp_1>");
    assert_eq!(temp_view_name(10), "<temp_10>");
    assert_eq!(temp_view_name(907), "<temp_907>");
}

/// Inserting advances every local capability, but an external capability
/// is driven by its upstream owner and stays where it is.
#[test]
fn external_capabilities_are_not_downgraded() {
    let mut sys = SystemState::new(1);
    sys.bootstrap();
    sys.dispatch(&DataflowCommand::CreateDataflow(source("s")), &meta(0));
    let ext = Dataflow::Source {
        name: "feed".to_string(),
        connector: SourceConnector::External,
        typ: string_typ(),
    };
    sys.dispatch(&DataflowCommand::CreateDataflow(ext), &meta(0));
    sys.dispatch(&DataflowCommand::Insert("s".to_string(), vec![row("a")]), &meta(0));
    let w = &sys.workers[0];
    assert_eq!(w.input_time, 3);
    for (name, cap) in &w.inputs {
        match cap {
            InputCapability::Local { time } => assert_eq!(*time, 3),
            InputCapability::External { time } => {
                assert_eq!(name, "feed");
                assert_eq!(*time, 2);
            }
        }
    }
}

/// A sink installs no arrangement, and dropping it removes only its name.
#[test]
fn sink_drop_removes_only_the_name() {
    let mut sys = SystemState::new(1);
    sys.bootstrap();
    let traces_before = sys.workers[0].traces.len();
    let sink = Dataflow::Sink { name: "out".to_string(), typ: string_typ() };
    sys.dispatch(&DataflowCommand::CreateDataflow(sink), &meta(0));
    assert_eq!(sys.workers[0].traces.len(), traces_before);
    assert_eq!(sys.workers[0].dataflows.len(), 2);
    let sink_again = Dataflow::Sink { name: "out".to_string(), typ: string_typ() };
    sys.dispatch(&DataflowCommand::DropDataflows(vec![sink_again]), &meta(0));
    assert_eq!(sys.workers[0].dataflows.len(), 1);
    assert_eq!(sys.workers[0].traces.len(), traces_before);
}

/// A view over the union of two sources flushes at the earliest of their
/// input times: the minimum over the transitive roots.
#[test]
fn after_flush_takes_minimum_over_union_roots() {
    let mut sys = SystemState::new(1);
    sys.bootstrap();
    sys.dispatch(&DataflowCommand::CreateDataflow(source("left")), &meta(0));
    sys.dispatch(&DataflowCommand::CreateDataflow(source("right")), &meta(0));
    // two inserts move input_time to 4; both capabilities follow
    sys.dispatch(&DataflowCommand::Insert("left".to_string(), vec![row("l")]), &meta(0));
    sys.dispatch(&DataflowCommand::Insert("right".to_string(), vec![row("r")]), &meta(0));
    let union = Dataflow::View {
        name: "both".to_string(),
        relation_expr: Expr::Union {
            left: Box::new(get_expr("left")),
            right: Box::new(get_expr("right")),
        },
        typ: string_typ(),
    };
    sys.dispatch(&DataflowCommand::CreateDataflow(union), &meta(0));
    assert_eq!(sys.workers[0].root_input_time(&"both".to_string()), 4);
    let union_again = Dataflow::View {
        name: "both".to_string(),
        relation_expr: Expr::Union {
            left: Box::new(get_expr("left")),
            right: Box::new(get_expr("right")),
        },
        typ: string_typ(),
    };
    sys.dispatch(
        &DataflowCommand::PeekExisting { dataflow: union_again, when: PeekWhen::AfterFlush },
        &meta(8),
    );
    assert_eq!(sys.log.len(), 1);
    assert_eq!(sys.log[0].timestamp, 3);
}
