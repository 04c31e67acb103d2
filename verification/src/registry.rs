//! The per-worker registries: dataflows by name, input capabilities by
//! source name, and traces by expression.
//!
//! Each registry is a sequence searched by first match; installation
//! requires fresh names, so first match is the only match.

use vstd::prelude::*;
use crate::repr::string_eq;
use crate::dataflow::{Dataflow, DataflowV, spec_df_name};
use crate::expr::{Expr, ExprV, expr_eq};
use crate::trace::{TraceData, TraceDataV};

verus! {

/// A handle that permits delivering records at its current time and
/// advancing that time. `Local` capabilities are downgraded by this server;
/// `External` capabilities are driven by their upstream owner.
#[derive(Clone, Copy, PartialEq, Eq, Structural, Debug)]
pub enum InputCapability {
    Local { time: u64 },
    External { time: u64 },
}

impl DeepView for InputCapability {
    type V = InputCapability;

    open spec fn deep_view(&self) -> InputCapability {
        *self
    }
}

/// The current time of a capability.
pub open spec fn spec_cap_time(c: InputCapability) -> u64 {
    match c {
        InputCapability::Local { time } => time,
        InputCapability::External { time } => time,
    }
}

/// The current time of this capability.
pub fn cap_time(c: InputCapability) -> (t: u64)
    ensures
        t == spec_cap_time(c),
{
    match c {
        InputCapability::Local { time } => time,
        InputCapability::External { time } => time,
    }
}

/// The first index whose dataflow is named `name`, or the length when none is.
pub open spec fn df_first(ds: Seq<DataflowV>, name: Seq<char>) -> int
    decreases ds.len(),
{
    if ds.len() == 0 {
        0
    } else if spec_df_name(ds[0]) == name {
        0
    } else {
        1 + df_first(ds.drop_first(), name)
    }
}

/// The named dataflow, when one is registered.
pub open spec fn df_find(ds: Seq<DataflowV>, name: Seq<char>) -> Option<DataflowV> {
    if df_first(ds, name) < ds.len() {
        Some(ds[df_first(ds, name)])
    } else {
        None
    }
}

/// Whether a dataflow of that name is registered.
pub open spec fn df_contains(ds: Seq<DataflowV>, name: Seq<char>) -> bool {
    df_find(ds, name) is Some
}

/// The registry without its first dataflow of that name; unchanged when
/// none is registered.
pub open spec fn df_remove(ds: Seq<DataflowV>, name: Seq<char>) -> Seq<DataflowV> {
    if df_first(ds, name) < ds.len() {
        ds.remove(df_first(ds, name))
    } else {
        ds
    }
}

pub proof fn lemma_df_first_at(ds: Seq<DataflowV>, name: Seq<char>, i: int)
    requires
        0 <= i <= ds.len(),
        forall|j: int| 0 <= j < i ==> spec_df_name(#[trigger] ds[j]) != name,
        i < ds.len() ==> spec_df_name(ds[i]) == name,
    ensures
        df_first(ds, name) == i,
    decreases i,
{
    if ds.len() == 0 {
    } else if i == 0 {
    } else {
        assert(spec_df_name(ds[0]) != name);
        assert forall|j: int| 0 <= j < i - 1 implies spec_df_name(
            #[trigger] ds.drop_first()[j],
            ) != name by {
            assert(ds.drop_first()[j] == ds[j + 1]);
        }
        assert(i - 1 < ds.drop_first().len() ==> spec_df_name(ds.drop_first()[i - 1]) == name);
        lemma_df_first_at(ds.drop_first(), name, i - 1);
    }
}

/// The first-match index lies in the registry, and names a match when it
/// is not the length.
pub proof fn lemma_df_first_props(ds: Seq<DataflowV>, name: Seq<char>)
    ensures
        0 <= df_first(ds, name) <= ds.len(),
        df_first(ds, name) < ds.len() ==> spec_df_name(ds[df_first(ds, name)]) == name,
        forall|j: int| 0 <= j < df_first(ds, name) ==> spec_df_name(#[trigger] ds[j]) != name,
    decreases ds.len(),
{
    if ds.len() == 0 {
    } else if spec_df_name(ds[0]) == name {
    } else {
        lemma_df_first_props(ds.drop_first(), name);
        assert forall|j: int| 0 <= j < df_first(ds, name) implies spec_df_name(
            #[trigger] ds[j],
        ) != name by {
            if j > 0 {
                assert(ds.drop_first()[j - 1] == ds[j]);
            }
        }
    }
}

/// The index of the named dataflow, searched front to back.
pub fn df_lookup(ds: &Vec<Dataflow>, name: &String) -> (r: Option<usize>)
    ensures
        match r {
            Some(i) => i < ds@.len() && i as int == df_first(ds.deep_view(), name@),
            None => df_first(ds.deep_view(), name@) == ds.deep_view().len(),
        },
{
    let ghost dv = ds.deep_view();
    let n = ds.len();
    let mut i: usize = 0;
    while i < n
        invariant
            dv == ds.deep_view(),
            n == ds@.len(),
            i <= n,
            forall|j: int| 0 <= j < i ==> spec_df_name(#[trigger] dv[j]) != name@,
        decreases n - i,
    {
        if string_eq(ds[i].name(), name) {
            proof {
                lemma_df_first_at(dv, name@, i as int);
            }
            return Some(i);
        }
        i += 1;
    }
    proof {
        lemma_df_first_at(dv, name@, n as int);
    }
    None
}

/// Remove the named dataflow; tolerant of a missing entry.
pub fn df_remove_exec(ds: &mut Vec<Dataflow>, name: &String)
    ensures
        final(ds).deep_view() == df_remove(old(ds).deep_view(), name@),
{
    let ghost dv = ds.deep_view();
    match df_lookup(ds, name) {
        Some(i) => {
            ds.remove(i);
            assert(ds.deep_view() =~= dv.remove(i as int));
        }
        None => {}
    }
}


/// Whether every dataflow name in the registry occurs at most once: the
/// uniqueness invariant of spec-level names.
pub open spec fn df_names_unique(ds: Seq<DataflowV>) -> bool {
    forall|i: int, j: int|
        0 <= i < j < ds.len() ==> spec_df_name(#[trigger] ds[i]) != spec_df_name(#[trigger] ds[j])
}

/// A fresh name keeps the registry's names distinct.
pub proof fn lemma_df_push_unique(ds: Seq<DataflowV>, d: DataflowV)
    requires
        df_names_unique(ds),
        !df_contains(ds, spec_df_name(d)),
    ensures
        df_names_unique(ds.push(d)),
{
    lemma_df_first_props(ds, spec_df_name(d));
    assert forall|i: int, j: int| 0 <= i < j < ds.push(d).len() implies spec_df_name(
        #[trigger] ds.push(d)[i],
    ) != spec_df_name(#[trigger] ds.push(d)[j]) by {
        assert(ds.push(d)[i] == ds[i]);
        if j < ds.len() {
            assert(ds.push(d)[j] == ds[j]);
        } else {
            assert(ds.push(d)[j] == d);
        }
    }
}

/// Removing a name keeps the rest distinct, and — the names being unique —
/// the removed name is gone.
pub proof fn lemma_df_remove_unique(ds: Seq<DataflowV>, name: Seq<char>)
    requires
        df_names_unique(ds),
    ensures
        df_names_unique(df_remove(ds, name)),
        !df_contains(df_remove(ds, name), name),
{
    lemma_df_first_props(ds, name);
    let f = df_first(ds, name);
    if f < ds.len() {
        let r = ds.remove(f);
        ds.remove_ensures(f);
        assert forall|i: int, j: int| 0 <= i < j < r.len() implies spec_df_name(
            #[trigger] r[i],
        ) != spec_df_name(#[trigger] r[j]) by {
            if i < f {
                assert(r[i] == ds[i]);
            } else {
                assert(r[i] == ds[i + 1]);
            }
            if j < f {
                assert(r[j] == ds[j]);
            } else {
                assert(r[j] == ds[j + 1]);
            }
        }
        assert forall|k: int| 0 <= k < r.len() implies spec_df_name(#[trigger] r[k]) != name by {
            if k < f {
                assert(r[k] == ds[k]);
            } else {
                assert(r[k] == ds[k + 1]);
                assert(spec_df_name(ds[f]) == name);
            }
        }
        lemma_df_first_at(r, name, r.len() as int);
    }
}

/// The first index whose input is named `name`, or the length when none is.
pub open spec fn in_first(ins: Seq<(Seq<char>, InputCapability)>, name: Seq<char>) -> int
    decreases ins.len(),
{
    if ins.len() == 0 {
        0
    } else if ins[0].0 == name {
        0
    } else {
        1 + in_first(ins.drop_first(), name)
    }
}

/// The named capability, when one is registered.
pub open spec fn in_find(ins: Seq<(Seq<char>, InputCapability)>, name: Seq<char>) -> Option<
    InputCapability,
> {
    if in_first(ins, name) < ins.len() {
        Some(ins[in_first(ins, name)].1)
    } else {
        None
    }
}

/// Whether an input of that name is registered.
pub open spec fn in_contains(ins: Seq<(Seq<char>, InputCapability)>, name: Seq<char>) -> bool {
    in_find(ins, name) is Some
}

/// The registry without its first input of that name; unchanged when none
/// is registered.
pub open spec fn in_remove(ins: Seq<(Seq<char>, InputCapability)>, name: Seq<char>) -> Seq<
    (Seq<char>, InputCapability),
> {
    if in_first(ins, name) < ins.len() {
        ins.remove(in_first(ins, name))
    } else {
        ins
    }
}

pub proof fn lemma_in_first_at(ins: Seq<(Seq<char>, InputCapability)>, name: Seq<char>, i: int)
    requires
        0 <= i <= ins.len(),
        forall|j: int| 0 <= j < i ==> (#[trigger] ins[j]).0 != name,
        i < ins.len() ==> ins[i].0 == name,
    ensures
        in_first(ins, name) == i,
    decreases i,
{
    if ins.len() == 0 {
    } else if i == 0 {
    } else {
        assert(ins[0].0 != name);
        assert forall|j: int| 0 <= j < i - 1 implies (#[trigger] ins.drop_first()[j]).0 != name by {
            assert(ins.drop_first()[j] == ins[j + 1]);
        }
        assert(i - 1 < ins.drop_first().len() ==> ins.drop_first()[i - 1].0 == name);
        lemma_in_first_at(ins.drop_first(), name, i - 1);
    }
}

/// The first-match index lies in the registry, and names a match when it
/// is not the length.
pub proof fn lemma_in_first_props(ins: Seq<(Seq<char>, InputCapability)>, name: Seq<char>)
    ensures
        0 <= in_first(ins, name) <= ins.len(),
        in_first(ins, name) < ins.len() ==> ins[in_first(ins, name)].0 == name,
        forall|j: int| 0 <= j < in_first(ins, name) ==> (#[trigger] ins[j]).0 != name,
    decreases ins.len(),
{
    if ins.len() == 0 {
    } else if ins[0].0 == name {
    } else {
        lemma_in_first_props(ins.drop_first(), name);
        assert forall|j: int| 0 <= j < in_first(ins, name) implies (#[trigger] ins[j]).0
            != name by {
            if j > 0 {
                assert(ins.drop_first()[j - 1] == ins[j]);
            }
        }
    }
}

/// The index of the named input, searched front to back.
pub fn in_lookup(ins: &Vec<(String, InputCapability)>, name: &String) -> (r: Option<usize>)
    ensures
        match r {
            Some(i) => i < ins@.len() && i as int == in_first(ins.deep_view(), name@),
            None => in_first(ins.deep_view(), name@) == ins.deep_view().len(),
        },
{
    let ghost dv = ins.deep_view();
    let n = ins.len();
    let mut i: usize = 0;
    while i < n
        invariant
            dv == ins.deep_view(),
            n == ins@.len(),
            i <= n,
            forall|j: int| 0 <= j < i ==> (#[trigger] dv[j]).0 != name@,
        decreases n - i,
    {
        if string_eq(&ins[i].0, name) {
            proof {
                lemma_in_first_at(dv, name@, i as int);
            }
            return Some(i);
        }
        i += 1;
    }
    proof {
        lemma_in_first_at(dv, name@, n as int);
    }
    None
}

/// Remove the named input; tolerant of a missing entry.
pub fn in_remove_exec(ins: &mut Vec<(String, InputCapability)>, name: &String)
    ensures
        final(ins).deep_view() == in_remove(old(ins).deep_view(), name@),
{
    let ghost dv = ins.deep_view();
    match in_lookup(ins, name) {
        Some(i) => {
            ins.remove(i);
            assert(ins.deep_view() =~= dv.remove(i as int));
        }
        None => {}
    }
}


/// Whether every input name in the registry occurs at most once.
pub open spec fn in_names_unique(ins: Seq<(Seq<char>, InputCapability)>) -> bool {
    forall|i: int, j: int|
        0 <= i < j < ins.len() ==> (#[trigger] ins[i]).0 != (#[trigger] ins[j]).0
}

/// A fresh name keeps the registry's names distinct.
pub proof fn lemma_in_push_unique(ins: Seq<(Seq<char>, InputCapability)>, p: (Seq<char>, InputCapability))
    requires
        in_names_unique(ins),
        !in_contains(ins, p.0),
    ensures
        in_names_unique(ins.push(p)),
{
    lemma_in_first_props(ins, p.0);
    assert forall|i: int, j: int| 0 <= i < j < ins.push(p).len() implies (
    #[trigger] ins.push(p)[i]).0 != (#[trigger] ins.push(p)[j]).0 by {
        assert(ins.push(p)[i] == ins[i]);
        if j < ins.len() {
            assert(ins.push(p)[j] == ins[j]);
        } else {
            assert(ins.push(p)[j] == p);
        }
    }
}

/// Removing a name keeps the rest distinct, and — the names being unique —
/// the removed name is gone.
pub proof fn lemma_in_remove_unique(ins: Seq<(Seq<char>, InputCapability)>, name: Seq<char>)
    requires
        in_names_unique(ins),
    ensures
        in_names_unique(in_remove(ins, name)),
        !in_contains(in_remove(ins, name), name),
{
    lemma_in_first_props(ins, name);
    let f = in_first(ins, name);
    if f < ins.len() {
        let r = ins.remove(f);
        ins.remove_ensures(f);
        assert forall|i: int, j: int| 0 <= i < j < r.len() implies (#[trigger] r[i]).0 != (
        #[trigger] r[j]).0 by {
            if i < f {
                assert(r[i] == ins[i]);
            } else {
                assert(r[i] == ins[i + 1]);
            }
            if j < f {
                assert(r[j] == ins[j]);
            } else {
                assert(r[j] == ins[j + 1]);
            }
        }
        assert forall|k: int| 0 <= k < r.len() implies (#[trigger] r[k]).0 != name by {
            if k < f {
                assert(r[k] == ins[k]);
            } else {
                assert(r[k] == ins[k + 1]);
                assert(ins[f].0 == name);
            }
        }
        lemma_in_first_at(r, name, r.len() as int);
    }
}

/// The first index whose trace is keyed by `key`, or the length when none is.
pub open spec fn tr_first(ts: Seq<(ExprV, TraceDataV)>, key: ExprV) -> int
    decreases ts.len(),
{
    if ts.len() == 0 {
        0
    } else if ts[0].0 == key {
        0
    } else {
        1 + tr_first(ts.drop_first(), key)
    }
}

/// The trace under that key, when one is registered.
pub open spec fn tr_find(ts: Seq<(ExprV, TraceDataV)>, key: ExprV) -> Option<TraceDataV> {
    if tr_first(ts, key) < ts.len() {
        Some(ts[tr_first(ts, key)].1)
    } else {
        None
    }
}

/// Whether a trace under that key is registered.
pub open spec fn tr_contains(ts: Seq<(ExprV, TraceDataV)>, key: ExprV) -> bool {
    tr_find(ts, key) is Some
}

/// The registry without its first trace under that key; unchanged when
/// none is registered.
pub open spec fn tr_remove(ts: Seq<(ExprV, TraceDataV)>, key: ExprV) -> Seq<(ExprV, TraceDataV)> {
    if tr_first(ts, key) < ts.len() {
        ts.remove(tr_first(ts, key))
    } else {
        ts
    }
}

pub proof fn lemma_tr_first_at(ts: Seq<(ExprV, TraceDataV)>, key: ExprV, i: int)
    requires
        0 <= i <= ts.len(),
        forall|j: int| 0 <= j < i ==> (#[trigger] ts[j]).0 != key,
        i < ts.len() ==> ts[i].0 == key,
    ensures
        tr_first(ts, key) == i,
    decreases i,
{
    if ts.len() == 0 {
    } else if i == 0 {
    } else {
        assert(ts[0].0 != key);
        assert forall|j: int| 0 <= j < i - 1 implies (#[trigger] ts.drop_first()[j]).0 != key by {
            assert(ts.drop_first()[j] == ts[j + 1]);
        }
        assert(i - 1 < ts.drop_first().len() ==> ts.drop_first()[i - 1].0 == key);
        lemma_tr_first_at(ts.drop_first(), key, i - 1);
    }
}

/// The first-match index lies in the registry, and keys a match when it is
/// not the length.
pub proof fn lemma_tr_first_props(ts: Seq<(ExprV, TraceDataV)>, key: ExprV)
    ensures
        0 <= tr_first(ts, key) <= ts.len(),
        tr_first(ts, key) < ts.len() ==> ts[tr_first(ts, key)].0 == key,
        forall|j: int| 0 <= j < tr_first(ts, key) ==> (#[trigger] ts[j]).0 != key,
    decreases ts.len(),
{
    if ts.len() == 0 {
    } else if ts[0].0 == key {
    } else {
        lemma_tr_first_props(ts.drop_first(), key);
        assert forall|j: int| 0 <= j < tr_first(ts, key) implies (#[trigger] ts[j]).0 != key by {
            if j > 0 {
                assert(ts.drop_first()[j - 1] == ts[j]);
            }
        }
    }
}

/// A registry with a matching entry has a first match: the registry
/// contains the key.
pub proof fn lemma_tr_some_match(ts: Seq<(ExprV, TraceDataV)>, key: ExprV, i: int)
    requires
        0 <= i < ts.len(),
        ts[i].0 == key,
    ensures
        tr_first(ts, key) <= i,
        tr_contains(ts, key),
    decreases ts.len(),
{
    if ts[0].0 == key {
    } else {
        assert(ts.drop_first()[i - 1] == ts[i]);
        lemma_tr_some_match(ts.drop_first(), key, i - 1);
    }
}

/// The index of the trace under that key, searched front to back.
pub fn tr_lookup(ts: &Vec<(Expr, TraceData)>, key: &Expr) -> (r: Option<usize>)
    ensures
        match r {
            Some(i) => i < ts@.len() && i as int == tr_first(ts.deep_view(), key.deep_view()),
            None => tr_first(ts.deep_view(), key.deep_view()) == ts.deep_view().len(),
        },
{
    let ghost dv = ts.deep_view();
    let n = ts.len();
    let mut i: usize = 0;
    while i < n
        invariant
            dv == ts.deep_view(),
            n == ts@.len(),
            i <= n,
            forall|j: int| 0 <= j < i ==> (#[trigger] dv[j]).0 != key.deep_view(),
        decreases n - i,
    {
        if expr_eq(&ts[i].0, key) {
            proof {
                lemma_tr_first_at(dv, key.deep_view(), i as int);
            }
            return Some(i);
        }
        i += 1;
    }
    proof {
        lemma_tr_first_at(dv, key.deep_view(), n as int);
    }
    None
}

/// Remove the trace under that key; tolerant of a missing entry.
pub fn tr_remove_exec(ts: &mut Vec<(Expr, TraceData)>, key: &Expr)
    ensures
        final(ts).deep_view() == tr_remove(old(ts).deep_view(), key.deep_view()),
{
    let ghost dv = ts.deep_view();
    match tr_lookup(ts, key) {
        Some(i) => {
            ts.remove(i);
            assert(ts.deep_view() =~= dv.remove(i as int));
        }
        None => {}
    }
}


/// Whether every trace key in the registry occurs at most once.
pub open spec fn tr_keys_unique(ts: Seq<(ExprV, TraceDataV)>) -> bool {
    forall|i: int, j: int|
        0 <= i < j < ts.len() ==> (#[trigger] ts[i]).0 != (#[trigger] ts[j]).0
}

/// A fresh key keeps the registry's keys distinct.
pub proof fn lemma_tr_push_unique(ts: Seq<(ExprV, TraceDataV)>, p: (ExprV, TraceDataV))
    requires
        tr_keys_unique(ts),
        !tr_contains(ts, p.0),
    ensures
        tr_keys_unique(ts.push(p)),
{
    lemma_tr_first_props(ts, p.0);
    assert forall|i: int, j: int| 0 <= i < j < ts.push(p).len() implies (
    #[trigger] ts.push(p)[i]).0 != (#[trigger] ts.push(p)[j]).0 by {
        assert(ts.push(p)[i] == ts[i]);
        if j < ts.len() {
            assert(ts.push(p)[j] == ts[j]);
        } else {
            assert(ts.push(p)[j] == p);
        }
    }
}

/// Removing a key keeps the rest distinct, and — the keys being unique —
/// the removed key is gone.
pub proof fn lemma_tr_remove_unique(ts: Seq<(ExprV, TraceDataV)>, key: ExprV)
    requires
        tr_keys_unique(ts),
    ensures
        tr_keys_unique(tr_remove(ts, key)),
        !tr_contains(tr_remove(ts, key), key),
{
    lemma_tr_first_props(ts, key);
    let f = tr_first(ts, key);
    if f < ts.len() {
        let r = ts.remove(f);
        ts.remove_ensures(f);
        assert forall|i: int, j: int| 0 <= i < j < r.len() implies (#[trigger] r[i]).0 != (
        #[trigger] r[j]).0 by {
            if i < f {
                assert(r[i] == ts[i]);
            } else {
                assert(r[i] == ts[i + 1]);
            }
            if j < f {
                assert(r[j] == ts[j]);
            } else {
                assert(r[j] == ts[j + 1]);
            }
        }
        assert forall|k: int| 0 <= k < r.len() implies (#[trigger] r[k]).0 != key by {
            if k < f {
                assert(r[k] == ts[k]);
            } else {
                assert(r[k] == ts[k + 1]);
                assert(ts[f].0 == key);
            }
        }
        lemma_tr_first_at(r, key, r.len() as int);
    }
}

} // verus!
