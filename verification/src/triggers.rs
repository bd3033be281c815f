//! The trigger configuration and the dispatch decision: which configured
//! entries fire for a classified change, in configuration order, and what
//! a queued event asks the consumer to do.
use crate::delta::DeltaBits;
use crate::matcher::{descriptor_matches, display_matches};
use crate::output::{Output, OutputV};
use crate::registry::OutputChange;
use vstd::prelude::*;

verus! {

/// A configured reaction to an output appearing: an optional display
/// filter, an executable path and its arguments.
#[derive(Debug)]
pub struct OnOutputAdded {
    pub display: Option<String>,
    pub exec_path: String,
    pub args: Vec<String>,
}

/// A configured reaction to an output disappearing.
#[derive(Debug)]
pub struct OnOutputRemoved {
    pub display: Option<String>,
    pub exec_path: String,
    pub args: Vec<String>,
}

/// A configured reaction to an output changing, with an optional filter on
/// which attribute changes are of interest.
#[derive(Debug)]
pub struct OnOutputChanged {
    pub display: Option<String>,
    pub changes_to: Option<DeltaBits>,
    pub exec_path: String,
    pub args: Vec<String>,
}

/// An added-entry fires when it has no display filter or its filter
/// matches the output.
pub open spec fn added_applies(t: OnOutputAdded, o: OutputV) -> bool {
    match t.display {
        None => true,
        Some(d) => descriptor_matches(o, d@),
    }
}

/// A removed-entry fires when it has no display filter or its filter
/// matches the output.
pub open spec fn removed_applies(t: OnOutputRemoved, o: OutputV) -> bool {
    match t.display {
        None => true,
        Some(d) => descriptor_matches(o, d@),
    }
}

/// A changed-entry fires when its display filter (if any) matches the
/// output and its change filter (if any) intersects the event's delta.
pub open spec fn changed_applies(t: OnOutputChanged, o: OutputV, d: DeltaBits) -> bool {
    &&& match t.display {
        None => true,
        Some(ds) => descriptor_matches(o, ds@),
    }
    &&& match t.changes_to {
        None => true,
        Some(c) => c.spec_intersects(d),
    }
}

impl OnOutputAdded {
    pub fn applies(&self, o: &Output) -> (r: bool)
        ensures
            r == added_applies(*self, o@),
    {
        match &self.display {
            None => true,
            Some(d) => display_matches(o, d),
        }
    }
}

impl OnOutputRemoved {
    pub fn applies(&self, o: &Output) -> (r: bool)
        ensures
            r == removed_applies(*self, o@),
    {
        match &self.display {
            None => true,
            Some(d) => display_matches(o, d),
        }
    }
}

impl OnOutputChanged {
    pub fn applies(&self, o: &Output, d: &DeltaBits) -> (r: bool)
        ensures
            r == changed_applies(*self, o@, *d),
    {
        let display_ok = match &self.display {
            None => true,
            Some(ds) => display_matches(o, ds),
        };
        if !display_ok {
            return false;
        }
        match &self.changes_to {
            None => true,
            Some(c) => c.intersects(d),
        }
    }
}

/// The positions in `idx` are strictly increasing, point at exactly the
/// added-entries that fire for `o`, and miss none of them.
pub open spec fn added_selection(ts: Seq<OnOutputAdded>, o: OutputV, idx: Seq<usize>) -> bool {
    &&& forall|a: int, b: int| 0 <= a < b < idx.len() ==> idx[a] < idx[b]
    &&& forall|k: int|
        0 <= k < idx.len() ==> (#[trigger] idx[k]) < ts.len() && added_applies(
            ts[idx[k] as int],
            o,
        )
    &&& forall|i: int|
        0 <= i < ts.len() && added_applies(#[trigger] ts[i], o) ==> exists|k: int|
            0 <= k < idx.len() && idx[k] == i
}

/// As `added_selection`, for removed-entries.
pub open spec fn removed_selection(
    ts: Seq<OnOutputRemoved>,
    o: OutputV,
    idx: Seq<usize>,
) -> bool {
    &&& forall|a: int, b: int| 0 <= a < b < idx.len() ==> idx[a] < idx[b]
    &&& forall|k: int|
        0 <= k < idx.len() ==> (#[trigger] idx[k]) < ts.len() && removed_applies(
            ts[idx[k] as int],
            o,
        )
    &&& forall|i: int|
        0 <= i < ts.len() && removed_applies(#[trigger] ts[i], o) ==> exists|k: int|
            0 <= k < idx.len() && idx[k] == i
}

/// As `added_selection`, for changed-entries and the event's delta.
pub open spec fn changed_selection(
    ts: Seq<OnOutputChanged>,
    o: OutputV,
    d: DeltaBits,
    idx: Seq<usize>,
) -> bool {
    &&& forall|a: int, b: int| 0 <= a < b < idx.len() ==> idx[a] < idx[b]
    &&& forall|k: int|
        0 <= k < idx.len() ==> (#[trigger] idx[k]) < ts.len() && changed_applies(
            ts[idx[k] as int],
            o,
            d,
        )
    &&& forall|i: int|
        0 <= i < ts.len() && changed_applies(#[trigger] ts[i], o, d) ==> exists|k: int|
            0 <= k < idx.len() && idx[k] == i
}

/// One event drained from the queue: a classified output change, or the
/// marker that the configuration file changed on disk.
#[derive(Debug)]
pub enum Event {
    Output(OutputChange),
    ConfigUpdate,
}

/// What the consumer must do for one event: invoke the listed entries of
/// one trigger list, in order, handing each the output; or reload the
/// configuration wholesale.
#[derive(Debug)]
pub enum Action {
    RunAdded(Vec<usize>, Output),
    RunRemoved(Vec<usize>, Output),
    RunChanged(Vec<usize>, Output),
    ReloadConfig,
}

/// The active trigger configuration: three ordered lists of entries, one
/// per change kind; insertion order is execution order.
#[derive(Debug)]
pub struct Triggers {
    pub on_output_added: Vec<OnOutputAdded>,
    pub on_output_removed: Vec<OnOutputRemoved>,
    pub on_output_changed: Vec<OnOutputChanged>,
}

impl Triggers {
    /// The positions of the added-entries that fire for `o`, in order.
    pub fn matching_added(&self, o: &Output) -> (idx: Vec<usize>)
        ensures
            added_selection(self.on_output_added@, o@, idx@),
    {
        let ts = &self.on_output_added;
        let mut idx: Vec<usize> = Vec::new();
        let mut i: usize = 0;
        while i < ts.len()
            invariant
                i <= ts.len(),
                forall|a: int, b: int| 0 <= a < b < idx@.len() ==> idx@[a] < idx@[b],
                forall|k: int|
                    0 <= k < idx@.len() ==> (#[trigger] idx@[k]) < i && added_applies(
                        ts@[idx@[k] as int],
                        o@,
                    ),
                forall|j: int|
                    0 <= j < i && added_applies(#[trigger] ts@[j], o@) ==> exists|k: int|
                        0 <= k < idx@.len() && idx@[k] == j,
            decreases ts.len() - i,
        {
            let ghost prior = idx@;
            if ts[i].applies(o) {
                idx.push(i);
                proof {
                    assert forall|j: int|
                        0 <= j < i + 1 && added_applies(#[trigger] ts@[j], o@) implies exists|k: int|
                            0 <= k < idx@.len() && idx@[k] == j by {
                        if j == i {
                            assert(idx@[idx@.len() - 1] == i);
                        } else {
                            let k = choose|k: int| 0 <= k < prior.len() && prior[k] == j;
                            assert(idx@[k] == j);
                        }
                    }
                }
            }
            i += 1;
        }
        idx
    }

    /// The positions of the removed-entries that fire for `o`, in order.
    pub fn matching_removed(&self, o: &Output) -> (idx: Vec<usize>)
        ensures
            removed_selection(self.on_output_removed@, o@, idx@),
    {
        let ts = &self.on_output_removed;
        let mut idx: Vec<usize> = Vec::new();
        let mut i: usize = 0;
        while i < ts.len()
            invariant
                i <= ts.len(),
                forall|a: int, b: int| 0 <= a < b < idx@.len() ==> idx@[a] < idx@[b],
                forall|k: int|
                    0 <= k < idx@.len() ==> (#[trigger] idx@[k]) < i && removed_applies(
                        ts@[idx@[k] as int],
                        o@,
                    ),
                forall|j: int|
                    0 <= j < i && removed_applies(#[trigger] ts@[j], o@) ==> exists|k: int|
                        0 <= k < idx@.len() && idx@[k] == j,
            decreases ts.len() - i,
        {
            let ghost prior = idx@;
            if ts[i].applies(o) {
                idx.push(i);
                proof {
                    assert forall|j: int|
                        0 <= j < i + 1 && removed_applies(#[trigger] ts@[j], o@) implies exists|k: int|
                            0 <= k < idx@.len() && idx@[k] == j by {
                        if j == i {
                            assert(idx@[idx@.len() - 1] == i);
                        } else {
                            let k = choose|k: int| 0 <= k < prior.len() && prior[k] == j;
                            assert(idx@[k] == j);
                        }
                    }
                }
            }
            i += 1;
        }
        idx
    }

    /// The positions of the changed-entries that fire for `o` under the
    /// delta `d`, in order.
    pub fn matching_changed(&self, o: &Output, d: &DeltaBits) -> (idx: Vec<usize>)
        ensures
            changed_selection(self.on_output_changed@, o@, *d, idx@),
    {
        let ts = &self.on_output_changed;
        let mut idx: Vec<usize> = Vec::new();
        let mut i: usize = 0;
        while i < ts.len()
            invariant
                i <= ts.len(),
                forall|a: int, b: int| 0 <= a < b < idx@.len() ==> idx@[a] < idx@[b],
                forall|k: int|
                    0 <= k < idx@.len() ==> (#[trigger] idx@[k]) < i && changed_applies(
                        ts@[idx@[k] as int],
                        o@,
                        *d,
                    ),
                forall|j: int|
                    0 <= j < i && changed_applies(#[trigger] ts@[j], o@, *d) ==> exists|k: int|
                        0 <= k < idx@.len() && idx@[k] == j,
            decreases ts.len() - i,
        {
            let ghost prior = idx@;
            if ts[i].applies(o, d) {
                idx.push(i);
                proof {
                    assert forall|j: int|
                        0 <= j < i + 1 && changed_applies(#[trigger] ts@[j], o@, *d) implies exists|k: int|
                            0 <= k < idx@.len() && idx@[k] == j by {
                        if j == i {
                            assert(idx@[idx@.len() - 1] == i);
                        } else {
                            let k = choose|k: int| 0 <= k < prior.len() && prior[k] == j;
                            assert(idx@[k] == j);
                        }
                    }
                }
            }
            i += 1;
        }
        idx
    }

    /// The dispatch decision for one queued event: which entries of which
    /// list to invoke for the event's output, or that the configuration
    /// must be reloaded. The consumer performs the action to completion
    /// before the next event is taken.
    pub fn handle(&self, ev: Event) -> (r: Action)
        ensures
            (ev is ConfigUpdate) ==> (r is ReloadConfig),
            (ev matches Event::Output(OutputChange::Added(o)) ==> r matches Action::RunAdded(
                idx,
                out,
            ) && out == o && added_selection(self.on_output_added@, o@, idx@)),
            (ev matches Event::Output(OutputChange::Removed(o)) ==> r matches Action::RunRemoved(
                idx,
                out,
            ) && out == o && removed_selection(self.on_output_removed@, o@, idx@)),
            (ev matches Event::Output(OutputChange::Changed(o, d)) ==> r matches Action::RunChanged(
                idx,
                out,
            ) && out == o && changed_selection(self.on_output_changed@, o@, d.0, idx@)),
    {
        match ev {
            Event::Output(OutputChange::Added(o)) => {
                let idx = self.matching_added(&o);
                Action::RunAdded(idx, o)
            },
            Event::Output(OutputChange::Removed(o)) => {
                let idx = self.matching_removed(&o);
                Action::RunRemoved(idx, o)
            },
            Event::Output(OutputChange::Changed(o, d)) => {
                let idx = self.matching_changed(&o, &d.0);
                Action::RunChanged(idx, o)
            },
            Event::ConfigUpdate => Action::ReloadConfig,
        }
    }

    /// The configuration synthesized when none exists on disk: two
    /// illustrative placeholder entries in the added list, nothing else.
    pub fn default_config() -> (r: Triggers)
        ensures
            r.on_output_added@.len() == 2,
            r.on_output_added@[0].display is None,
            r.on_output_added@[0].exec_path@ == "HI"@,
            r.on_output_added@[0].args@.len() == 0,
            r.on_output_added@[1].display is None,
            r.on_output_added@[1].exec_path@ == "HI"@,
            r.on_output_added@[1].args@.len() == 0,
            r.on_output_removed@.len() == 0,
            r.on_output_changed@.len() == 0,
    {
        let mut added: Vec<OnOutputAdded> = Vec::new();
        added.push(OnOutputAdded { display: None, exec_path: "HI".to_owned(), args: Vec::new() });
        added.push(OnOutputAdded { display: None, exec_path: "HI".to_owned(), args: Vec::new() });
        Triggers {
            on_output_added: added,
            on_output_removed: Vec::new(),
            on_output_changed: Vec::new(),
        }
    }
}

/// An added-entry without a display filter fires for every output.
pub proof fn lemma_unfiltered_added_fires(t: OnOutputAdded, o: OutputV)
    requires
        t.display is None,
    ensures
        added_applies(t, o),
{
}

/// A removed-entry without a display filter fires for every output.
pub proof fn lemma_unfiltered_removed_fires(t: OnOutputRemoved, o: OutputV)
    requires
        t.display is None,
    ensures
        removed_applies(t, o),
{
}

/// A changed-entry with neither filter fires for every output and delta.
pub proof fn lemma_unfiltered_changed_fires(t: OnOutputChanged, o: OutputV, d: DeltaBits)
    requires
        t.display is None,
        t.changes_to is None,
    ensures
        changed_applies(t, o, d),
{
}

} // verus!
