//! The output registry: the last-known set of outputs keyed by stable
//! identifier, and the reconciliation of a freshly queried snapshot against
//! it into an ordered list of classified changes.
use crate::delta::{delta_of, DeltaBits, OutputDelta};
use crate::output::{Output, OutputV};
use vstd::prelude::*;

verus! {

/// A classified change produced by one reconciliation pass, consumed by
/// trigger dispatch.
#[derive(Debug)]
pub enum OutputChange {
    Added(Output),
    Removed(Output),
    Changed(Output, OutputDelta),
}

/// View of a change: the same variants over output views.
pub enum ChangeV {
    Added(OutputV),
    Removed(OutputV),
    Changed(OutputV, DeltaBits),
}

impl View for OutputChange {
    type V = ChangeV;

    open spec fn view(&self) -> ChangeV {
        match self {
            OutputChange::Added(o) => ChangeV::Added(o@),
            OutputChange::Removed(o) => ChangeV::Removed(o@),
            OutputChange::Changed(o, d) => ChangeV::Changed(o@, d.0),
        }
    }
}

pub open spec fn vseq(s: Seq<Output>) -> Seq<OutputV> {
    s.map_values(|o: Output| o@)
}

pub open spec fn cseq(s: Seq<OutputChange>) -> Seq<ChangeV> {
    s.map_values(|c: OutputChange| c@)
}

/// Registry well-formedness: every entry carries an identifier, and no two
/// entries carry the same one.
pub open spec fn wf_registry(s: Seq<OutputV>) -> bool {
    &&& forall|i: int| 0 <= i < s.len() ==> (#[trigger] s[i]).id is Some
    &&& forall|i: int, j: int| 0 <= i < j < s.len() ==> s[i].id != s[j].id
}

/// Some registry entry carries the given identifier.
pub open spec fn has_entry(s: Seq<OutputV>, id: i64) -> bool {
    exists|i: int| 0 <= i < s.len() && (#[trigger] s[i]).id == Some(id)
}

/// The position of the entry carrying the given identifier.
pub open spec fn entry_ix(s: Seq<OutputV>, id: i64) -> int {
    choose|i: int| 0 <= i < s.len() && (#[trigger] s[i]).id == Some(id)
}

/// Some queried output carries the given identifier.
pub open spec fn queried_has_id(q: Seq<OutputV>, id: i64) -> bool {
    exists|j: int| 0 <= j < q.len() && (#[trigger] q[j]).id == Some(id)
}

/// The (optional) identifier appears on some queried output.
pub open spec fn id_in_query(q: Seq<OutputV>, oid: Option<i64>) -> bool {
    match oid {
        Some(id) => queried_has_id(q, id),
        None => false,
    }
}

/// How a single queried output transforms the registry, and the events it
/// emits: an unknown identifier is inserted and `Added`; a known one is
/// diffed, and an empty delta is silent, a delta touching the identity
/// subset {make, model, serial} is a same-slot replacement (`Removed` of
/// the former then `Added` of the new), and any other delta is `Changed`;
/// an output without an identifier is skipped entirely.
pub open spec fn step(reg: Seq<OutputV>, q: OutputV) -> (Seq<OutputV>, Seq<ChangeV>) {
    match q.id {
        None => (reg, Seq::<ChangeV>::empty()),
        Some(id) => {
            if !has_entry(reg, id) {
                (reg.push(q), seq![ChangeV::Added(q)])
            } else {
                let i = entry_ix(reg, id);
                let former = reg[i];
                let d = delta_of(former, q);
                if d.spec_empty() {
                    (reg, Seq::<ChangeV>::empty())
                } else if d.spec_identity_touched() {
                    (reg.update(i, q), seq![ChangeV::Removed(former), ChangeV::Added(q)])
                } else {
                    (reg.update(i, q), seq![ChangeV::Changed(q, d)])
                }
            }
        },
    }
}

/// The per-output half of a reconciliation: `step` folded over the query
/// in query order.
pub open spec fn pass(reg: Seq<OutputV>, q: Seq<OutputV>) -> (Seq<OutputV>, Seq<ChangeV>)
    decreases q.len(),
{
    if q.len() == 0 {
        (reg, Seq::<ChangeV>::empty())
    } else {
        let prior = pass(reg, q.drop_last());
        let last = step(prior.0, q.last());
        (last.0, prior.1 + last.1)
    }
}

/// The entries that survive the final sweep: those whose identifier still
/// appears in the query, in registry order.
pub open spec fn surviving(reg: Seq<OutputV>, q: Seq<OutputV>) -> Seq<OutputV>
    decreases reg.len(),
{
    if reg.len() == 0 {
        Seq::<OutputV>::empty()
    } else {
        let rest = surviving(reg.drop_last(), q);
        if id_in_query(q, reg.last().id) {
            rest.push(reg.last())
        } else {
            rest
        }
    }
}

/// One `Removed` event for every entry whose identifier vanished from the
/// query, in registry order.
pub open spec fn vanished(reg: Seq<OutputV>, q: Seq<OutputV>) -> Seq<ChangeV>
    decreases reg.len(),
{
    if reg.len() == 0 {
        Seq::<ChangeV>::empty()
    } else {
        let rest = vanished(reg.drop_last(), q);
        if id_in_query(q, reg.last().id) {
            rest
        } else {
            rest.push(ChangeV::Removed(reg.last()))
        }
    }
}

/// The registry after a full reconciliation of the query `q` against `reg`.
pub open spec fn reconcile_registry(reg: Seq<OutputV>, q: Seq<OutputV>) -> Seq<OutputV> {
    surviving(pass(reg, q).0, q)
}

/// The events of a full reconciliation, in emission order: first the
/// per-output events of the pass, then the `Removed` events of the sweep.
pub open spec fn reconcile_events(reg: Seq<OutputV>, q: Seq<OutputV>) -> Seq<ChangeV> {
    pass(reg, q).1 + vanished(pass(reg, q).0, q)
}

/// A `step` keeps the registry well formed, never shortens it, keeps every
/// identifier at its position, leaves entries with other identifiers
/// untouched, and appends only the stepped output's identifier.
pub proof fn lemma_step_props(reg: Seq<OutputV>, q1: OutputV)
    requires
        wf_registry(reg),
    ensures
        ({
            let r1 = step(reg, q1).0;
            &&& wf_registry(r1)
            &&& r1.len() >= reg.len()
            &&& forall|i: int| 0 <= i < reg.len() ==> (#[trigger] r1[i]).id == reg[i].id
            &&& forall|i: int| 0 <= i < reg.len() && reg[i].id != q1.id ==> r1[i] == reg[i]
            &&& forall|i: int|
                reg.len() <= i < r1.len() ==> (#[trigger] r1[i]).id == q1.id && q1.id is Some
        }),
{
    match q1.id {
        None => {},
        Some(id) => {
            if has_entry(reg, id) {
                let i = entry_ix(reg, id);
                assert(0 <= i < reg.len() && reg[i].id == Some(id));
                let d = delta_of(reg[i], q1);
                if !d.spec_empty() {
                    let r1 = reg.update(i, q1);
                    assert(!d.id);
                    assert(q1.id == reg[i].id);
                    assert(forall|j: int| 0 <= j < r1.len() ==> (#[trigger] r1[j]).id == reg[j].id);
                }
            } else {
                let r1 = reg.push(q1);
                assert(forall|j: int| 0 <= j < reg.len() ==> (#[trigger] reg[j]).id != Some(id));
                assert(wf_registry(r1));
            }
        },
    }
}

/// `lemma_step_props`, folded over a whole query.
pub proof fn lemma_pass_props(reg: Seq<OutputV>, q: Seq<OutputV>)
    requires
        wf_registry(reg),
    ensures
        ({
            let r1 = pass(reg, q).0;
            &&& wf_registry(r1)
            &&& r1.len() >= reg.len()
            &&& forall|i: int| 0 <= i < reg.len() ==> (#[trigger] r1[i]).id == reg[i].id
            &&& forall|i: int|
                0 <= i < reg.len() && !id_in_query(q, reg[i].id) ==> r1[i] == reg[i]
            &&& forall|i: int| reg.len() <= i < r1.len() ==> id_in_query(q, (#[trigger] r1[i]).id)
        }),
    decreases q.len(),
{
    if q.len() == 0 {
    } else {
        let qd = q.drop_last();
        lemma_pass_props(reg, qd);
        let rp = pass(reg, qd).0;
        lemma_step_props(rp, q.last());
        let r1 = step(rp, q.last()).0;
        assert forall|id: i64| queried_has_id(qd, id) implies queried_has_id(q, id) by {
            let j = choose|j: int| 0 <= j < qd.len() && (#[trigger] qd[j]).id == Some(id);
            assert(q[j].id == Some(id));
        }
        assert(q.last().id is Some ==> queried_has_id(q, q.last().id.unwrap()));
        assert forall|i: int|
            0 <= i < reg.len() && !id_in_query(q, reg[i].id) implies r1[i] == reg[i] by {
            assert(rp[i] == reg[i]);
            assert(reg[i].id is Some);
            if reg[i].id == q.last().id {
                assert(queried_has_id(q, reg[i].id.unwrap()));
            }
        }
        assert forall|i: int| reg.len() <= i < r1.len() implies id_in_query(
            q,
            (#[trigger] r1[i]).id,
        ) by {
            if i < rp.len() {
                if rp[i].id != q.last().id {
                    assert(r1[i] == rp[i]);
                    assert(id_in_query(qd, rp[i].id));
                } else {
                    assert(r1[i].id == rp[i].id);
                }
            }
        }
    }
}

/// The sweep keeps the registry well formed and invents no identifier.
pub proof fn lemma_sweep_props(reg: Seq<OutputV>, q: Seq<OutputV>)
    requires
        wf_registry(reg),
    ensures
        wf_registry(surviving(reg, q)),
        forall|id: i64| has_entry(surviving(reg, q), id) ==> has_entry(reg, id),
    decreases reg.len(),
{
    if reg.len() == 0 {
    } else {
        let rd = reg.drop_last();
        assert(wf_registry(rd));
        lemma_sweep_props(rd, q);
        let s = surviving(rd, q);
        assert forall|id: i64| has_entry(s, id) implies has_entry(reg, id) by {
            assert(has_entry(rd, id));
            let j = choose|j: int| 0 <= j < rd.len() && (#[trigger] rd[j]).id == Some(id);
            assert(reg[j].id == Some(id));
        }
        if id_in_query(q, reg.last().id) {
            let s1 = s.push(reg.last());
            assert forall|i: int, j: int| 0 <= i < j < s1.len() implies s1[i].id != s1[j].id by {
                if j == s1.len() - 1 {
                    assert(s1[j] == reg.last());
                    if s1[i].id == reg.last().id {
                        let x = reg.last().id.unwrap();
                        assert(has_entry(s, x));
                        assert(has_entry(rd, x));
                        let m = choose|m: int| 0 <= m < rd.len() && (#[trigger] rd[m]).id == Some(
                            x,
                        );
                        assert(reg[m].id == reg[reg.len() - 1].id);
                        assert(false);
                    }
                }
            }
            assert(wf_registry(s1));
            assert forall|id: i64| has_entry(s1, id) implies has_entry(reg, id) by {
                let j = choose|j: int| 0 <= j < s1.len() && (#[trigger] s1[j]).id == Some(id);
                if j == s1.len() - 1 {
                    assert(reg[reg.len() - 1].id == Some(id));
                } else {
                    assert(has_entry(s, id));
                }
            }
        }
    }
}

/// When every entry's identifier appears in the query, the sweep keeps
/// everything and removes nothing.
pub proof fn lemma_sweep_all_present(reg: Seq<OutputV>, q: Seq<OutputV>)
    requires
        forall|i: int| 0 <= i < reg.len() ==> id_in_query(q, (#[trigger] reg[i]).id),
    ensures
        surviving(reg, q) == reg,
        vanished(reg, q) == Seq::<ChangeV>::empty(),
    decreases reg.len(),
{
    if reg.len() == 0 {
        assert(surviving(reg, q) =~= reg);
    } else {
        lemma_sweep_all_present(reg.drop_last(), q);
        assert(id_in_query(q, reg[reg.len() - 1].id));
        assert(surviving(reg, q) =~= reg.drop_last().push(reg.last()));
        assert(reg.drop_last().push(reg.last()) =~= reg);
    }
}

/// The sweep emits `Removed` events and nothing else.
pub proof fn lemma_vanished_removed_only(reg: Seq<OutputV>, q: Seq<OutputV>)
    ensures
        forall|k: int|
            0 <= k < vanished(reg, q).len() ==> (#[trigger] vanished(reg, q)[k]) is Removed,
    decreases reg.len(),
{
    if reg.len() == 0 {
    } else {
        lemma_vanished_removed_only(reg.drop_last(), q);
        let rest = vanished(reg.drop_last(), q);
        assert forall|k: int|
            0 <= k < vanished(reg, q).len() implies (#[trigger] vanished(reg, q)[k])
            is Removed by {
            if k < rest.len() {
                assert(vanished(reg, q)[k] == rest[k]);
            }
        }
    }
}

/// A reconciliation whose query holds one known output whose delta touches
/// the identity subset {make, model, serial} emits `Removed` of the former
/// entry immediately followed by `Added` of the new one, and no `Changed`
/// event anywhere.
pub proof fn lemma_identity_change_is_replace(reg: Seq<OutputV>, q: OutputV)
    requires
        wf_registry(reg),
        q.id is Some,
        has_entry(reg, q.id.unwrap()),
        delta_of(reg[entry_ix(reg, q.id.unwrap())], q).spec_identity_touched(),
    ensures
        reconcile_events(reg, seq![q]).len() >= 2,
        reconcile_events(reg, seq![q])[0] == ChangeV::Removed(
            reg[entry_ix(reg, q.id.unwrap())],
        ),
        reconcile_events(reg, seq![q])[1] == ChangeV::Added(q),
        forall|k: int|
            0 <= k < reconcile_events(reg, seq![q]).len() ==> !((#[trigger] reconcile_events(
                reg,
                seq![q],
            )[k]) is Changed),
{
    let sq = seq![q];
    let e = Seq::<OutputV>::empty();
    assert(sq.drop_last() =~= e);
    assert(sq.last() == q);
    assert(pass(reg, e).0 == reg);
    assert(pass(reg, e).1 == Seq::<ChangeV>::empty());
    let former = reg[entry_ix(reg, q.id.unwrap())];
    let d = delta_of(former, q);
    assert(!d.spec_empty());
    let ev = step(reg, q).1;
    assert(ev == seq![ChangeV::Removed(former), ChangeV::Added(q)]);
    assert(pass(reg, sq).1 =~= ev);
    assert(pass(reg, sq).0 == step(reg, q).0);
    let van = vanished(pass(reg, sq).0, sq);
    lemma_vanished_removed_only(pass(reg, sq).0, sq);
    let evs = reconcile_events(reg, sq);
    assert(evs[0] == ev[0]);
    assert(evs[1] == ev[1]);
    assert forall|k: int| 0 <= k < evs.len() implies !((#[trigger] evs[k]) is Changed) by {
        if k >= 2 {
            assert(evs[k] == van[k - 2]);
        }
    }
}

/// If make, model and serial are all replaced at once for one identifier,
/// the reconciliation yields `Removed` then `Added` for it, never `Changed`.
pub proof fn lemma_full_identity_replace(reg: Seq<OutputV>, q: OutputV)
    requires
        wf_registry(reg),
        q.id is Some,
        has_entry(reg, q.id.unwrap()),
        reg[entry_ix(reg, q.id.unwrap())].make != q.make,
        reg[entry_ix(reg, q.id.unwrap())].model != q.model,
        reg[entry_ix(reg, q.id.unwrap())].serial != q.serial,
    ensures
        reconcile_events(reg, seq![q]).len() >= 2,
        reconcile_events(reg, seq![q])[0] == ChangeV::Removed(
            reg[entry_ix(reg, q.id.unwrap())],
        ),
        reconcile_events(reg, seq![q])[1] == ChangeV::Added(q),
        forall|k: int|
            0 <= k < reconcile_events(reg, seq![q]).len() ==> !((#[trigger] reconcile_events(
                reg,
                seq![q],
            )[k]) is Changed),
{
    lemma_identity_change_is_replace(reg, q);
}

/// A change to the serial alone — every other attribute untouched — still
/// takes the replace path: `Removed` then `Added`, never `Changed`.
pub proof fn lemma_serial_only_replace(reg: Seq<OutputV>, q: OutputV)
    requires
        wf_registry(reg),
        q.id is Some,
        has_entry(reg, q.id.unwrap()),
        reg[entry_ix(reg, q.id.unwrap())].serial != q.serial,
        forall|b: crate::delta::Attribute|
            b != crate::delta::Attribute::Serial ==> !(#[trigger] crate::delta::attr_differs(
                reg[entry_ix(reg, q.id.unwrap())],
                q,
                b,
            )),
    ensures
        reconcile_events(reg, seq![q]).len() >= 2,
        reconcile_events(reg, seq![q])[0] == ChangeV::Removed(
            reg[entry_ix(reg, q.id.unwrap())],
        ),
        reconcile_events(reg, seq![q])[1] == ChangeV::Added(q),
        forall|k: int|
            0 <= k < reconcile_events(reg, seq![q]).len() ==> !((#[trigger] reconcile_events(
                reg,
                seq![q],
            )[k]) is Changed),
{
    let former = reg[entry_ix(reg, q.id.unwrap())];
    crate::delta::lemma_diff_single_attribute(former, q, crate::delta::Attribute::Serial);
    lemma_identity_change_is_replace(reg, q);
}

/// If only non-identity attributes change for the lone known output, the
/// reconciliation yields exactly one `Changed` event carrying the delta.
pub proof fn lemma_nonidentity_change(reg: Seq<OutputV>, q: OutputV)
    requires
        wf_registry(reg),
        reg.len() == 1,
        q.id is Some,
        reg[0].id == q.id,
        !delta_of(reg[0], q).spec_empty(),
        !delta_of(reg[0], q).spec_identity_touched(),
    ensures
        reconcile_events(reg, seq![q]) == seq![ChangeV::Changed(q, delta_of(reg[0], q))],
        reconcile_registry(reg, seq![q]) == seq![q],
{
    let sq = seq![q];
    let e = Seq::<OutputV>::empty();
    assert(sq.drop_last() =~= e);
    assert(sq.last() == q);
    assert(pass(reg, e).0 == reg);
    assert(pass(reg, e).1 == Seq::<ChangeV>::empty());
    let id = q.id.unwrap();
    assert(has_entry(reg, id));
    let i = entry_ix(reg, id);
    assert(0 <= i < reg.len() && reg[i].id == Some(id));
    assert(i == 0);
    let r1 = step(reg, q).0;
    assert(r1 =~= seq![q]);
    assert(pass(reg, sq).0 == r1);
    assert(pass(reg, sq).1 =~= seq![ChangeV::Changed(q, delta_of(reg[0], q))]);
    assert(queried_has_id(sq, id)) by {
        assert(sq[0].id == Some(id));
    }
    assert(forall|m: int| 0 <= m < r1.len() ==> id_in_query(sq, (#[trigger] r1[m]).id));
    lemma_sweep_all_present(r1, sq);
    assert(reconcile_events(reg, sq) =~= seq![ChangeV::Changed(q, delta_of(reg[0], q))]);
}

/// The sweep's `Removed` event for the entry at position `i`.
proof fn lemma_vanished_contains(reg: Seq<OutputV>, q: Seq<OutputV>, i: int)
    requires
        0 <= i < reg.len(),
        !id_in_query(q, reg[i].id),
    ensures
        vanished(reg, q).contains(ChangeV::Removed(reg[i])),
    decreases reg.len(),
{
    if i == reg.len() - 1 {
        let ev = vanished(reg, q);
        assert(ev.last() == ChangeV::Removed(reg[i]));
        assert(ev.contains(ChangeV::Removed(reg[i]))) by {
            assert(ev[ev.len() - 1] == ChangeV::Removed(reg[i]));
        }
    } else {
        let rd = reg.drop_last();
        assert(rd[i] == reg[i]);
        lemma_vanished_contains(rd, q, i);
        let rest = vanished(rd, q);
        let k = choose|k: int| 0 <= k < rest.len() && rest[k] == ChangeV::Removed(rd[i]);
        assert(vanished(reg, q)[k] == rest[k]);
        assert(vanished(reg, q).contains(ChangeV::Removed(reg[i])));
    }
}

/// Every entry whose identifier is absent from the query yields a
/// `Removed` event carrying that entry unchanged, whatever its position.
pub proof fn lemma_absent_removed(reg: Seq<OutputV>, q: Seq<OutputV>, i: int)
    requires
        wf_registry(reg),
        0 <= i < reg.len(),
        !id_in_query(q, reg[i].id),
    ensures
        reconcile_events(reg, q).contains(ChangeV::Removed(reg[i])),
{
    lemma_pass_props(reg, q);
    let r1 = pass(reg, q).0;
    assert(r1[i] == reg[i]);
    lemma_vanished_contains(r1, q, i);
    let van = vanished(r1, q);
    let k = choose|k: int| 0 <= k < van.len() && van[k] == ChangeV::Removed(r1[i]);
    let evs = reconcile_events(reg, q);
    assert(evs[pass(reg, q).1.len() + k] == van[k]);
    assert(evs.contains(ChangeV::Removed(reg[i])));
}

pub open spec fn identified(o: OutputV) -> bool {
    o.id is Some
}

/// The query restricted to the outputs that carry an identifier.
pub open spec fn identified_only(q: Seq<OutputV>) -> Seq<OutputV>
    decreases q.len(),
{
    if q.len() == 0 {
        Seq::<OutputV>::empty()
    } else {
        let rest = identified_only(q.drop_last());
        if identified(q.last()) {
            rest.push(q.last())
        } else {
            rest
        }
    }
}

/// An identifier appears in a query exactly when it appears in the query
/// restricted to identified outputs.
proof fn lemma_filter_ids(q: Seq<OutputV>, id: i64)
    ensures
        queried_has_id(q, id) <==> queried_has_id(identified_only(q), id),
    decreases q.len(),
{
    let qf = identified_only(q);
    if q.len() == 0 {
    } else {
        let qd = q.drop_last();
        let qdf = identified_only(qd);
        lemma_filter_ids(qd, id);
        if queried_has_id(q, id) {
            let j = choose|j: int| 0 <= j < q.len() && (#[trigger] q[j]).id == Some(id);
            if j == q.len() - 1 {
                assert(qf.last() == q.last());
                assert(qf[qf.len() - 1].id == Some(id));
            } else {
                assert(qd[j].id == Some(id));
                assert(queried_has_id(qd, id));
                let m = choose|m: int| 0 <= m < qdf.len() && (#[trigger] qdf[m]).id == Some(id);
                assert(qf[m] == qdf[m]);
                assert(queried_has_id(qf, id));
            }
        }
        if queried_has_id(qf, id) {
            let j = choose|j: int| 0 <= j < qf.len() && (#[trigger] qf[j]).id == Some(id);
            if identified(q.last()) && j == qf.len() - 1 {
                assert(qf.last() == q.last());
                assert(q[q.len() - 1].id == Some(id));
            } else {
                assert(qf[j] == qdf[j]);
                assert(queried_has_id(qdf, id));
                assert(queried_has_id(qd, id));
                let m = choose|m: int| 0 <= m < qd.len() && (#[trigger] qd[m]).id == Some(id);
                assert(q[m].id == Some(id));
            }
        }
    }
}

/// Outputs without an identifier play no part in a reconciliation: both
/// the resulting registry and the emitted events equal those of the query
/// restricted to its identified outputs. Together with well-formedness
/// (every registry entry carries an identifier) this says such outputs are
/// never represented and never generate events.
pub proof fn lemma_unidentified_ignored(reg: Seq<OutputV>, q: Seq<OutputV>)
    ensures
        pass(reg, q).0 == pass(reg, identified_only(q)).0,
        pass(reg, q).1 == pass(reg, identified_only(q)).1,
        reconcile_registry(reg, q) == reconcile_registry(reg, identified_only(q)),
        reconcile_events(reg, q) == reconcile_events(reg, identified_only(q)),
    decreases q.len(),
{
    let qf = identified_only(q);
    if q.len() == 0 {
        assert(qf =~= q);
    } else {
        let qd = q.drop_last();
        let qdf = identified_only(qd);
        lemma_unidentified_ignored(reg, qd);
        if identified(q.last()) {
            assert(qf == qdf.push(q.last()));
            assert(qf.len() > 0);
            assert(qf.drop_last() =~= qdf);
            assert(qf.last() == q.last());
        } else {
            assert(qf == qdf);
            assert(step(pass(reg, qd).0, q.last()).0 == pass(reg, qd).0);
            assert(pass(reg, q).1 =~= pass(reg, qd).1);
        }
        let r1 = pass(reg, q).0;
        lemma_sweep_query_filter(r1, q);
        assert(pass(reg, qf).0 == r1);
        assert(surviving(r1, qf) == surviving(r1, q));
        assert(vanished(r1, qf) == vanished(r1, q));
        assert(reconcile_events(reg, qf) =~= reconcile_events(reg, q));
    }
}

/// The sweep consults only identifiers, so restricting the query to
/// identified outputs leaves its result unchanged.
proof fn lemma_sweep_query_filter(reg: Seq<OutputV>, q: Seq<OutputV>)
    ensures
        surviving(reg, q) == surviving(reg, identified_only(q)),
        vanished(reg, q) == vanished(reg, identified_only(q)),
    decreases reg.len(),
{
    if reg.len() == 0 {
    } else {
        lemma_sweep_query_filter(reg.drop_last(), q);
        match reg.last().id {
            Some(id) => lemma_filter_ids(q, id),
            None => {},
        }
    }
}

fn query_contains_id(queried: &Vec<Output>, id: i64) -> (r: bool)
    ensures
        r == queried_has_id(vseq(queried@), id),
{
    let ghost vq = vseq(queried@);
    let mut i: usize = 0;
    while i < queried.len()
        invariant
            i <= queried.len(),
            vq == vseq(queried@),
            forall|j: int| 0 <= j < i ==> (#[trigger] vq[j]).id != Some(id),
        decreases queried.len() - i,
    {
        proof {
            assert(vq[i as int] == queried@[i as int]@);
        }
        if let Some(eid) = queried[i].id {
            if eid == id {
                return true;
            }
        }
        i += 1;
    }
    false
}

/// The last-known set of outputs, keyed by their stable identifiers.
pub struct Outputs {
    entries: Vec<Output>,
}

impl View for Outputs {
    type V = Seq<OutputV>;

    closed spec fn view(&self) -> Seq<OutputV> {
        vseq(self.entries@)
    }
}

impl Outputs {
    pub open spec fn wf(&self) -> bool {
        wf_registry(self@)
    }

    fn find_ix(&self, id: i64) -> (r: Option<usize>)
        ensures
            match r {
                Some(ix) => ix < self@.len() && self@[ix as int].id == Some(id),
                None => !has_entry(self@, id),
            },
    {
        let mut i: usize = 0;
        while i < self.entries.len()
            invariant
                i <= self.entries.len(),
                forall|j: int| 0 <= j < i ==> (#[trigger] self@[j]).id != Some(id),
            decreases self.entries.len() - i,
        {
            proof {
                assert(self@[i as int] == self.entries@[i as int]@);
            }
            if let Some(eid) = self.entries[i].id {
                if eid == id {
                    return Some(i);
                }
            }
            i += 1;
        }
        None
    }

    /// How many outputs the registry currently holds.
    pub fn len(&self) -> (n: usize)
        ensures
            n == self@.len(),
    {
        self.entries.len()
    }

    /// The entry stored under the given identifier, if any.
    pub fn get(&self, id: i64) -> (r: Option<&Output>)
        requires
            self.wf(),
        ensures
            match r {
                Some(o) => has_entry(self@, id) && o@ == self@[entry_ix(self@, id)],
                None => !has_entry(self@, id),
            },
    {
        match self.find_ix(id) {
            Some(ix) => {
                proof {
                    assert(has_entry(self@, id));
                    let i0 = entry_ix(self@, id);
                    assert(0 <= i0 < self@.len() && self@[i0].id == Some(id));
                    if i0 < ix as int {
                        assert(self@[i0].id != self@[ix as int].id);
                    } else if (ix as int) < i0 {
                        assert(self@[ix as int].id != self@[i0].id);
                    }
                    assert(i0 == ix as int);
                    assert(self.entries@[ix as int]@ == self@[ix as int]);
                }
                Some(&self.entries[ix])
            },
            None => None,
        }
    }

    /// Bootstrap the registry from a single query: the same
    /// identifier-filtering insert as a reconciliation, with no events.
    pub fn new(queried: &Vec<Output>) -> (r: Outputs)
        ensures
            r.wf(),
            r@ == pass(Seq::<OutputV>::empty(), vseq(queried@)).0,
            r@ == reconcile_registry(Seq::<OutputV>::empty(), vseq(queried@)),
    {
        let mut me = Outputs { entries: Vec::new() };
        proof {
            assert(me@ =~= Seq::<OutputV>::empty());
        }
        let _events = me.update(queried);
        proof {
            lemma_pass_props(Seq::<OutputV>::empty(), vseq(queried@));
            lemma_sweep_all_present(pass(Seq::<OutputV>::empty(), vseq(queried@)).0, vseq(queried@));
        }
        me
    }

    /// Reconcile a freshly queried snapshot against the registry. Each
    /// identified queried output is classified in query order (inserted
    /// and `Added`, replaced with `Removed` then `Added`, diffed into
    /// `Changed`, or silent); outputs without identifiers are skipped;
    /// afterwards every entry whose identifier no longer appears in the
    /// query is dropped with a trailing `Removed` event.
    /// Apply one queried output to the registry, appending the events it
    /// emits: the executable form of `step`.
    fn step_one(&mut self, q: &Output, v: &mut Vec<OutputChange>)
        requires
            old(self).wf(),
        ensures
            final(self).wf(),
            final(self)@ == step(old(self)@, q@).0,
            cseq(final(v)@) == cseq(old(v)@) + step(old(self)@, q@).1,
    {
        let ghost pre = self@;
        let ghost evs = cseq(v@);
        match q.id {
            None => {
                proof {
                    assert(cseq(v@) =~= evs + Seq::<ChangeV>::empty());
                }
            },
            Some(id) => {
                match self.find_ix(id) {
                    None => {
                        self.entries.push(q.duplicate());
                        v.push(OutputChange::Added(q.duplicate()));
                        proof {
                            assert(self@ =~= pre.push(q@));
                            assert(cseq(v@) =~= evs + seq![ChangeV::Added(q@)]);
                            assert(wf_registry(self@));
                        }
                    },
                    Some(ix) => {
                        proof {
                            assert(has_entry(pre, id));
                            let i0 = entry_ix(pre, id);
                            assert(0 <= i0 < pre.len() && pre[i0].id == Some(id));
                            if i0 < ix as int {
                                assert(pre[i0].id != pre[ix as int].id);
                            } else if (ix as int) < i0 {
                                assert(pre[ix as int].id != pre[i0].id);
                            }
                            assert(i0 == ix as int);
                        }
                        let d = OutputDelta::between(&self.entries[ix], q);
                        proof {
                            assert(self.entries@[ix as int]@ == pre[ix as int]);
                        }
                        if d.is_some() {
                            if !d.same_specs() {
                                let old_o = self.entries[ix].duplicate();
                                self.entries.set(ix, q.duplicate());
                                v.push(OutputChange::Removed(old_o));
                                v.push(OutputChange::Added(q.duplicate()));
                                proof {
                                    assert(self@ =~= pre.update(ix as int, q@));
                                    assert(cseq(v@) =~= evs + seq![
                                        ChangeV::Removed(pre[ix as int]),
                                        ChangeV::Added(q@),
                                    ]);
                                    lemma_step_props(pre, q@);
                                }
                            } else {
                                self.entries.set(ix, q.duplicate());
                                v.push(OutputChange::Changed(q.duplicate(), d));
                                proof {
                                    assert(self@ =~= pre.update(ix as int, q@));
                                    assert(cseq(v@) =~= evs + seq![
                                        ChangeV::Changed(q@, delta_of(pre[ix as int], q@)),
                                    ]);
                                    lemma_step_props(pre, q@);
                                }
                            }
                        } else {
                            proof {
                                assert(cseq(v@) =~= evs + Seq::<ChangeV>::empty());
                            }
                        }
                    },
                }
            },
        }
    }

    #[verifier::rlimit(50)]
    pub fn update(&mut self, queried: &Vec<Output>) -> (v: Vec<OutputChange>)
        requires
            old(self).wf(),
        ensures
            final(self).wf(),
            final(self)@ == reconcile_registry(old(self)@, vseq(queried@)),
            cseq(v@) == reconcile_events(old(self)@, vseq(queried@)),
    {
        let ghost reg0 = self@;
        let ghost vq = vseq(queried@);
        let mut v: Vec<OutputChange> = Vec::new();
        let mut k: usize = 0;
        while k < queried.len()
            invariant
                k <= queried.len(),
                vq == vseq(queried@),
                vq.len() == queried@.len(),
                wf_registry(reg0),
                self.wf(),
                self@ == pass(reg0, vq.take(k as int)).0,
                cseq(v@) == pass(reg0, vq.take(k as int)).1,
            decreases queried.len() - k,
        {
            let ghost pre = self@;
            let ghost evs = cseq(v@);
            let q = &queried[k];
            proof {
                assert(vq[k as int] == queried@[k as int]@);
            }
            self.step_one(q, &mut v);
            proof {
                assert(vq.take(k as int + 1).drop_last() =~= vq.take(k as int));
                assert(vq.take(k as int + 1).last() == vq[k as int]);
            }
            k += 1;
        }
        proof {
            assert(vq.take(vq.len() as int) =~= vq);
        }
        let ghost reg1 = self@;
        proof {
            lemma_pass_props(reg0, vq);
        }
        let mut kept: Vec<Output> = Vec::new();
        let mut j: usize = 0;
        while j < self.entries.len()
            invariant
                j <= self.entries.len(),
                vq == vseq(queried@),
                reg1 == vseq(self.entries@),
                j <= reg1.len(),
                vseq(kept@) == surviving(reg1.take(j as int), vq),
                cseq(v@) == pass(reg0, vq).1 + vanished(reg1.take(j as int), vq),
            decreases self.entries.len() - j,
        {
            let ghost keptv = vseq(kept@);
            let ghost evs = cseq(v@);
            proof {
                assert(reg1[j as int] == self.entries@[j as int]@);
                assert(reg1.take(j as int + 1).drop_last() =~= reg1.take(j as int));
                assert(reg1.take(j as int + 1).last() == reg1[j as int]);
            }
            let keep = match self.entries[j].id {
                Some(eid) => query_contains_id(queried, eid),
                None => false,
            };
            if keep {
                kept.push(self.entries[j].duplicate());
                proof {
                    assert(vseq(kept@) =~= keptv.push(reg1[j as int]));
                }
            } else {
                v.push(OutputChange::Removed(self.entries[j].duplicate()));
                proof {
                    assert(cseq(v@) =~= evs.push(ChangeV::Removed(reg1[j as int])));
                }
            }
            j += 1;
        }
        proof {
            assert(reg1.take(reg1.len() as int) =~= reg1);
        }
        self.entries = kept;
        proof {
            lemma_sweep_props(reg1, vq);
        }
        v
    }
}

} // verus!
