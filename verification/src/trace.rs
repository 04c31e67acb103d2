//! The modeled contents of an arranged trace: per-key update histories and
//! an upper frontier.
//!
//! The execution engine owns the physical arrangement; what the peek
//! protocol reads from it — the upper frontier and the (key, time, diff)
//! tuples a cursor walks — is held here as plain values, so the
//! accumulation that retires a peek is verified.

use vstd::prelude::*;
use crate::repr::{Row, RowV, row_copy};

verus! {

/// The upper frontier of a trace: a single lower bound on the times of all
/// future updates, or empty when no further updates can arrive. This is the
/// scalar-timestamp form of the engine's antichain.
#[derive(Clone, Copy, PartialEq, Eq, Structural, Debug)]
pub enum Frontier {
    At(u64),
    Empty,
}

impl Frontier {
    /// Whether some element of the frontier is `<= t`; a time `t` is final
    /// exactly when this is false.
    pub open spec fn spec_less_equal(self, t: u64) -> bool {
        match self {
            Frontier::At(u) => u <= t,
            Frontier::Empty => false,
        }
    }

    /// The frontier comparison of the scalar time domain: some element is
    /// less or equal to `t`.
    pub fn less_equal(self, t: u64) -> (r: bool)
        ensures
            r == self.spec_less_equal(t),
    {
        match self {
            Frontier::At(u) => u <= t,
            Frontier::Empty => false,
        }
    }

    /// Whether `next` is a legal successor: a frontier only moves forward,
    /// and an empty frontier never reopens.
    pub open spec fn spec_advances_to(self, next: Frontier) -> bool {
        match (self, next) {
            (Frontier::At(u), Frontier::At(v)) => u <= v,
            (Frontier::At(_), Frontier::Empty) => true,
            (Frontier::Empty, Frontier::Empty) => true,
            (Frontier::Empty, Frontier::At(_)) => false,
        }
    }
}

/// One batch entry of an arrangement: a key with its (time, diff) history.
#[derive(Clone, Debug, PartialEq, Eq)]
pub struct TraceEntry {
    pub row: Row,
    pub history: Vec<(u64, i64)>,
}

/// The mathematical value of a `TraceEntry`.
pub struct TraceEntryV {
    pub row: RowV,
    pub history: Seq<(u64, i64)>,
}

impl DeepView for TraceEntry {
    type V = TraceEntryV;

    open spec fn deep_view(&self) -> TraceEntryV {
        TraceEntryV { row: self.row.deep_view(), history: self.history@ }
    }
}

/// The modeled state of one arranged trace.
#[derive(Clone, Debug, PartialEq, Eq)]
pub struct TraceData {
    pub entries: Vec<TraceEntry>,
    pub upper: Frontier,
}

/// The mathematical value of a `TraceData`.
pub struct TraceDataV {
    pub entries: Seq<TraceEntryV>,
    pub upper: Frontier,
}

impl DeepView for TraceData {
    type V = TraceDataV;

    open spec fn deep_view(&self) -> TraceDataV {
        TraceDataV { entries: self.entries.deep_view(), upper: self.upper }
    }
}

/// The accumulated multiplicity of a key at time `t`: the sum of the diffs
/// of all history entries whose time is `<= t`.
pub open spec fn copies_at(h: Seq<(u64, i64)>, t: u64) -> int
    decreases h.len(),
{
    if h.len() == 0 {
        0
    } else {
        copies_at(h.drop_last(), t) + if h.last().0 <= t {
            h.last().1 as int
        } else {
            0
        }
    }
}

/// Whether every key of the trace accumulates a non-negative multiplicity
/// at time `t`. A negative multiplicity at a final timestamp is a trace
/// contract violation.
pub open spec fn trace_nonneg(entries: Seq<TraceEntryV>, t: u64) -> bool {
    forall|i: int| 0 <= i < entries.len() ==> copies_at(#[trigger] entries[i].history, t) >= 0
}

/// The accumulated multiplicity of one history at time `t`.
pub fn history_copies(h: &Vec<(u64, i64)>, t: u64) -> (c: i128)
    ensures
        c as int == copies_at(h@, t),
{
    let n = h.len();
    let mut acc: i128 = 0;
    let mut i: usize = 0;
    while i < n
        invariant
            n == h@.len(),
            i <= n,
            acc as int == copies_at(h@.take(i as int), t),
            -(i as int) * 0x8000_0000_0000_0000 <= acc as int,
            acc as int <= (i as int) * 0x7fff_ffff_ffff_ffff,
        decreases n - i,
    {
        let (time, diff) = h[i];
        if time <= t {
            acc = acc + (diff as i128);
        }
        assert(h@.take(i + 1 as int).drop_last() =~= h@.take(i as int));
        assert(h@.take(i + 1 as int).last() == h@[i as int]);
        i += 1;
    }
    assert(h@.take(n as int) =~= h@);
    acc
}

/// `n` repetitions of one row.
pub open spec fn repeat_row(r: RowV, n: int) -> Seq<RowV> {
    if n <= 0 {
        Seq::empty()
    } else {
        Seq::new(n as nat, |i: int| r)
    }
}

/// The rows a finalized peek returns: every key of the trace, repeated as
/// many times as its accumulated multiplicity at time `t`, in trace order.
pub open spec fn peek_rows(entries: Seq<TraceEntryV>, t: u64) -> Seq<RowV>
    decreases entries.len(),
{
    if entries.len() == 0 {
        Seq::empty()
    } else {
        peek_rows(entries.drop_last(), t) + repeat_row(
            entries.last().row,
            copies_at(entries.last().history, t),
        )
    }
}

/// The materialized contents of the trace at time `t`: the key of each
/// entry, `copies_at` times.
pub fn trace_peek_rows(td: &TraceData, t: u64) -> (out: Vec<Row>)
    requires
        trace_nonneg(td.deep_view().entries, t),
    ensures
        out.deep_view() == peek_rows(td.deep_view().entries, t),
{
    let ghost entries = td.deep_view().entries;
    let mut out: Vec<Row> = Vec::new();
    let n = td.entries.len();
    let mut i: usize = 0;
    while i < n
        invariant
            trace_nonneg(entries, t),
            entries == td.deep_view().entries,
            n == td.entries@.len(),
            i <= n,
            out.deep_view() == peek_rows(entries.take(i as int), t),
        decreases n - i,
    {
        let e = &td.entries[i];
        assert(e.deep_view() == entries[i as int]);
        let c = history_copies(&e.history, t);
        assert(copies_at(entries[i as int].history, t) >= 0);
        assert(c >= 0);
        let ghost pre = out.deep_view();
        let ghost rv = e.row.deep_view();
        let mut j: i128 = 0;
        while j < c
            invariant
                0 <= j <= c,
                rv == e.row.deep_view(),
                out.deep_view() == pre + repeat_row(rv, j as int),
            decreases c - j,
        {
            let ghost mid = out.deep_view();
            out.push(row_copy(&e.row));
            assert(out.deep_view() =~= mid.push(rv));
            assert(pre + repeat_row(rv, j + 1 as int) =~= (pre + repeat_row(rv, j as int)).push(
                rv,
            ));
            j = j + 1;
        }
        proof {
            assert(entries.take(i + 1 as int).drop_last() =~= entries.take(i as int));
            assert(entries.take(i + 1 as int).last() == entries[i as int]);
        }
        i += 1;
    }
    assert(entries.take(n as int) =~= entries);
    out
}

/// The number of occurrences of `r` in a sequence of rows.
pub open spec fn row_count(rows: Seq<RowV>, r: RowV) -> int
    decreases rows.len(),
{
    if rows.len() == 0 {
        0
    } else {
        row_count(rows.drop_last(), r) + if rows.last() == r {
            1int
        } else {
            0int
        }
    }
}

/// The total multiplicity of `r` in the trace at time `t`, summed over
/// every entry whose key is `r`.
pub open spec fn filtered_copies(entries: Seq<TraceEntryV>, t: u64, r: RowV) -> int
    decreases entries.len(),
{
    if entries.len() == 0 {
        0
    } else {
        filtered_copies(entries.drop_last(), t, r) + if entries.last().row == r {
            copies_at(entries.last().history, t)
        } else {
            0
        }
    }
}

proof fn lemma_row_count_concat(a: Seq<RowV>, b: Seq<RowV>, r: RowV)
    ensures
        row_count(a + b, r) == row_count(a, r) + row_count(b, r),
    decreases b.len(),
{
    if b.len() == 0 {
        assert(a + b =~= a);
    } else {
        assert((a + b).drop_last() =~= a + b.drop_last());
        assert((a + b).last() == b.last());
        lemma_row_count_concat(a, b.drop_last(), r);
    }
}

proof fn lemma_row_count_repeat(x: RowV, n: int, r: RowV)
    ensures
        row_count(repeat_row(x, n), r) == if x == r && n >= 0 {
            n
        } else {
            0
        },
    decreases (if n > 0 {
        n
    } else {
        0
    }),
{
    if n <= 0 {
    } else {
        assert(repeat_row(x, n).drop_last() =~= repeat_row(x, n - 1));
        assert(repeat_row(x, n).last() == x);
        lemma_row_count_repeat(x, n - 1, r);
    }
}

/// Law: for a finalized peek, the returned multiset equals the trace's
/// contents filtered to `time <= t`, accumulated per key — each row occurs
/// in the result exactly as often as its diffs at times `<= t` sum to.
pub proof fn lemma_peek_rows_filtered(entries: Seq<TraceEntryV>, t: u64, r: RowV)
    requires
        trace_nonneg(entries, t),
    ensures
        row_count(peek_rows(entries, t), r) == filtered_copies(entries, t, r),
    decreases entries.len(),
{
    if entries.len() == 0 {
    } else {
        assert forall|i: int| 0 <= i < entries.drop_last().len() implies copies_at(
            #[trigger] entries.drop_last()[i].history,
            t,
        ) >= 0 by {
            assert(entries.drop_last()[i] == entries[i]);
        }
        lemma_peek_rows_filtered(entries.drop_last(), t, r);
        lemma_row_count_concat(
            peek_rows(entries.drop_last(), t),
            repeat_row(entries.last().row, copies_at(entries.last().history, t)),
            r,
        );
        lemma_row_count_repeat(entries.last().row, copies_at(entries.last().history, t), r);
        assert(copies_at(entries[entries.len() - 1].history, t) >= 0);
    }
}

/// The trace contents after the engine has delivered `rows`, each with
/// diff `+1`, at time `t`: one new batch entry per row, in order.
pub open spec fn spec_append_rows(entries: Seq<TraceEntryV>, rows: Seq<RowV>, t: u64) -> Seq<
    TraceEntryV,
> {
    entries + rows.map_values(|r: RowV| TraceEntryV { row: r, history: seq![(t, 1i64)] })
}

impl TraceData {
    /// An empty trace whose future updates all lie at or beyond `upper`.
    pub fn new(upper: Frontier) -> (td: TraceData)
        ensures
            td.deep_view().entries == Seq::<TraceEntryV>::empty(),
            td.deep_view().upper == upper,
    {
        let td = TraceData { entries: Vec::new(), upper };
        assert(td.deep_view().entries =~= Seq::<TraceEntryV>::empty());
        td
    }

    /// Record engine-delivered rows, each with diff `+1`, at time `t`.
    pub fn append_rows(&mut self, rows: &Vec<Row>, t: u64)
        ensures
            final(self).deep_view().entries == spec_append_rows(
                old(self).deep_view().entries,
                rows.deep_view(),
                t,
            ),
            final(self).deep_view().upper == old(self).deep_view().upper,
    {
        let ghost orig = self.deep_view().entries;
        let ghost rowsv = rows.deep_view();
        let n = rows.len();
        let mut i: usize = 0;
        while i < n
            invariant
                n == rows@.len(),
                rowsv == rows.deep_view(),
                i <= n,
                self.deep_view().entries == spec_append_rows(orig, rowsv.take(i as int), t),
                self.deep_view().upper == old(self).deep_view().upper,
                orig == old(self).deep_view().entries,
            decreases n - i,
        {
            let mut history: Vec<(u64, i64)> = Vec::new();
            history.push((t, 1i64));
            let entry = TraceEntry { row: row_copy(&rows[i]), history };
            assert(entry.deep_view().history =~= seq![(t, 1i64)]);
            let ghost pre = self.deep_view().entries;
            self.entries.push(entry);
            assert(self.deep_view().entries =~= pre.push(entry.deep_view()));
            assert(self.deep_view().entries =~= spec_append_rows(
                orig,
                rowsv.take(i + 1 as int),
                t,
            ));
            i += 1;
        }
        assert(rowsv.take(n as int) =~= rowsv);
    }
}

} // verus!
