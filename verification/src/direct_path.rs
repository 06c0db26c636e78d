//! Getting a connection off the relay: offering candidates, finding the leg a
//! connection came in on, and saying which path carries traffic.

use crate::addr::{ObservedAddress, SocketAddr};
use crate::listener::LegDirectory;
use vstd::prelude::*;

verus! {

/// How long to look for the leg of a connection, in seconds.
pub const LEG_LOOKUP_WAIT: u64 = 3;

/// How long to wait between two looks, in milliseconds.
pub const LEG_LOOKUP_POLL_MS: u64 = 50;

/// The id of a connection's first path, which is the relay one.
pub const RELAY_PATH_ID: u32 = 0;

/// The two ends of a path.
#[derive(Clone, Copy, Debug, PartialEq, Eq, Structural)]
pub struct PathPair {
    /// This side's address.
    pub local: SocketAddr,
    /// The peer's address.
    pub remote: SocketAddr,
}

impl PathPair {
    /// The order of paths: by local address, then by remote address.
    pub open spec fn precedes_spec(self, other: Self) -> bool {
        self.local.precedes_spec(other.local) || (self.local == other.local && self.remote.precedes_spec(other.remote))
    }

    /// Whether this path comes before `other`.
    pub fn precedes(&self, other: &PathPair) -> (r: bool)
        ensures
            r == self.precedes_spec(*other),
    {
        self.local.precedes(&other.local) || (self.local == other.local && self.remote.precedes(&other.remote))
    }
}

proof fn lemma_order(a: PathPair, b: PathPair, c: PathPair)
    ensures
        !a.precedes_spec(a),
        a.precedes_spec(b) || b.precedes_spec(a) || a == b,
        a.precedes_spec(b) && b.precedes_spec(c) ==> a.precedes_spec(c),
{
}

/// The id of a path, where it is known.
pub open spec fn lookup(paths: Seq<(PathPair, u32)>, pair: PathPair) -> Option<u32>
    decreases paths.len(),
{
    if paths.len() == 0 {
        None
    } else if paths.last().0 == pair {
        Some(paths.last().1)
    } else {
        lookup(paths.drop_last(), pair)
    }
}

/// The ids of paths, in order.
pub open spec fn path_ids(paths: Seq<(PathPair, u32)>) -> Seq<u32> {
    paths.map_values(|entry: (PathPair, u32)| entry.1)
}

/// Each path comes before the ones that follow it.
pub open spec fn ordered(paths: Seq<(PathPair, u32)>) -> bool {
    forall|i: int, j: int|
        0 <= i < j < paths.len() ==> (#[trigger] paths[i]).0.precedes_spec((#[trigger] paths[j]).0)
}

proof fn lemma_lookup_at(paths: Seq<(PathPair, u32)>, i: int)
    requires
        ordered(paths),
        0 <= i < paths.len(),
    ensures
        lookup(paths, paths[i].0) == Some(paths[i].1),
    decreases paths.len(),
{
    let n = paths.len() - 1;
    if i < n {
        lemma_order(paths[i].0, paths[n].0, paths[n].0);
        assert(paths[i].0.precedes_spec(paths[n].0));
        lemma_lookup_at(paths.drop_last(), i);
    }
}

proof fn lemma_lookup_absent(paths: Seq<(PathPair, u32)>, pair: PathPair)
    requires
        forall|i: int| 0 <= i < paths.len() ==> (#[trigger] paths[i]).0 != pair,
    ensures
        lookup(paths, pair) is None,
    decreases paths.len(),
{
    if paths.len() > 0 {
        assert(paths[paths.len() - 1].0 != pair);
        lemma_lookup_absent(paths.drop_last(), pair);
    }
}

proof fn lemma_lookup_some(paths: Seq<(PathPair, u32)>, pair: PathPair)
    requires
        lookup(paths, pair) is Some,
    ensures
        exists|i: int| 0 <= i < paths.len() && (#[trigger] paths[i]).0 == pair && lookup(paths, pair) == Some(paths[i].1),
    decreases paths.len(),
{
    if paths.last().0 == pair {
        assert(paths[paths.len() - 1].0 == pair);
    } else {
        lemma_lookup_some(paths.drop_last(), pair);
        let i = choose|i: int|
            0 <= i < paths.drop_last().len() && (#[trigger] paths.drop_last()[i]).0 == pair && lookup(
                paths.drop_last(),
                pair,
            ) == Some(paths.drop_last()[i].1);
        assert(paths[i].0 == pair);
    }
}

/// The direct paths that the peer has named, with their ids.
pub struct DirectPaths {
    entries: Vec<(PathPair, u32)>,
}

impl DirectPaths {
    /// The paths, in order.
    pub closed spec fn view(self) -> Seq<(PathPair, u32)> {
        self.entries@
    }

    /// The paths are in order, and none occurs twice.
    pub open spec fn wf(self) -> bool {
        ordered(self.view())
    }

    /// No paths.
    pub fn new() -> (d: Self)
        ensures
            d.wf(),
            d.view() == Seq::<(PathPair, u32)>::empty(),
    {
        DirectPaths { entries: Vec::new() }
    }

    /// Note the id of a path; a path that is known gets the new id.
    pub fn insert(&mut self, pair: PathPair, id: u32)
        requires
            old(self).wf(),
        ensures
            final(self).wf(),
            forall|p: PathPair| #[trigger]
                lookup(final(self).view(), p) == (if p == pair {
                    Some(id)
                } else {
                    lookup(old(self).view(), p)
                }),
    {
        let mut i: usize = 0;
        while i < self.entries.len() && self.entries[i].0.precedes(&pair)
            invariant
                i <= self.entries@.len(),
                forall|k: int| 0 <= k < i ==> (#[trigger] self.entries@[k]).0.precedes_spec(pair),
            decreases self.entries@.len() - i,
        {
            i = i + 1;
        }
        let ghost before = self.entries@;
        if i < self.entries.len() && self.entries[i].0 == pair {
            self.entries.set(i, (pair, id));
        } else {
            self.entries.insert(i, (pair, id));
            proof {
                let after = self.entries@;
                assert forall|a: int, b: int| 0 <= a < b < after.len() implies (#[trigger] after[a]).0.precedes_spec(
                    (#[trigger] after[b]).0,
                ) by {
                    if i < before.len() {
                        lemma_order(pair, before[i as int].0, pair);
                    }
                    let x = if a < i {
                        a
                    } else {
                        a - 1
                    };
                    let y = if b < i {
                        b
                    } else {
                        b - 1
                    };
                    if a != i && b != i {
                        assert(before[x].0.precedes_spec(before[y].0));
                    } else if a == i {
                        assert(i < before.len());
                        if y > i {
                            assert(before[i as int].0.precedes_spec(before[y].0));
                            lemma_order(pair, before[i as int].0, before[y].0);
                        }
                    }
                }
            }
        }
        proof {
            let after = self.entries@;
            assert(after[i as int] == (pair, id));
            assert(ordered(after));
            assert forall|p: PathPair| #[trigger] lookup(after, p) == (if p == pair {
                Some(id)
            } else {
                lookup(before, p)
            }) by {
                if p == pair {
                    lemma_lookup_at(after, i as int);
                } else if lookup(before, p) is Some {
                    lemma_lookup_some(before, p);
                    let k = choose|k: int|
                        0 <= k < before.len() && (#[trigger] before[k]).0 == p && lookup(before, p) == Some(before[k].1);
                    let m = if after.len() == before.len() || k < i {
                        k
                    } else {
                        k + 1
                    };
                    assert(after[m] == before[k]);
                    lemma_lookup_at(after, m);
                } else if lookup(after, p) is Some {
                    lemma_lookup_some(after, p);
                    let m = choose|m: int|
                        0 <= m < after.len() && (#[trigger] after[m]).0 == p && lookup(after, p) == Some(after[m].1);
                    let k = if after.len() == before.len() || m < i {
                        m
                    } else {
                        m - 1
                    };
                    assert(after[m] == before[k]);
                    lemma_lookup_at(before, k);
                }
            }
        }
    }

    /// The id of a path.
    pub fn get(&self, pair: PathPair) -> (r: Option<u32>)
        requires
            self.wf(),
        ensures
            r == lookup(self.view(), pair),
    {
        let mut i: usize = 0;
        while i < self.entries.len()
            invariant
                self.wf(),
                i <= self.entries@.len(),
                forall|k: int| 0 <= k < i ==> (#[trigger] self.entries@[k]).0 != pair,
            decreases self.entries@.len() - i,
        {
            if self.entries[i].0 == pair {
                proof {
                    lemma_lookup_at(self.entries@, i as int);
                }
                return Some(self.entries[i].1);
            }
            i = i + 1;
        }
        proof {
            lemma_lookup_absent(self.entries@, pair);
        }
        None
    }

    /// Whether no path is known.
    pub fn is_empty(&self) -> (r: bool)
        ensures
            r == (self.view().len() == 0),
    {
        self.entries.len() == 0
    }
}

/// What a request to move onto a path turns into.
#[derive(Debug, PartialEq, Eq)]
pub enum PathPreference {
    /// Say which path carries traffic, and keep the rest warm.
    Declare { available: u32, backup: Vec<u32> },
    /// The peer has named no such path, so the connection is switched.
    Switch,
}

/// A [`PathPreference`] as a mathematical value.
pub enum PreferenceView {
    Declare { available: u32, backup: Seq<u32> },
    Switch,
}

impl View for PathPreference {
    type V = PreferenceView;

    open spec fn view(&self) -> PreferenceView {
        match self {
            PathPreference::Declare { available, backup } => PreferenceView::Declare {
                available: *available,
                backup: backup@,
            },
            PathPreference::Switch => PreferenceView::Switch,
        }
    }
}

/// The ids of `s` other than `id`.
pub open spec fn others(s: Seq<u32>, id: u32) -> Seq<u32>
    decreases s.len(),
{
    if s.len() == 0 {
        seq![]
    } else if s.last() == id {
        others(s.drop_last(), id)
    } else {
        others(s.drop_last(), id).push(s.last())
    }
}

/// The id to declare available, where there is one.
pub open spec fn available_id(wanted: PathPair, relay: PathPair, paths: Seq<(PathPair, u32)>) -> Option<u32> {
    if wanted == relay {
        Some(RELAY_PATH_ID)
    } else {
        lookup(paths, wanted)
    }
}

/// The relay path and the direct ones.
pub open spec fn known_ids(paths: Seq<(PathPair, u32)>) -> Seq<u32> {
    seq![RELAY_PATH_ID] + path_ids(paths)
}

/// What a request to move onto `wanted` turns into.
pub open spec fn preference_spec(wanted: PathPair, relay: PathPair, paths: Seq<(PathPair, u32)>) -> PreferenceView {
    if paths.len() == 0 {
        PreferenceView::Switch
    } else {
        match available_id(wanted, relay, paths) {
            Some(available) => PreferenceView::Declare { available, backup: others(known_ids(paths), available) },
            None => PreferenceView::Switch,
        }
    }
}

/// Turn a request to move onto `wanted` into the operation to perform.
///
/// Everything known and not preferred is declared backup, not just the path
/// being left: several direct paths can be valid at once.
pub fn preference_for(wanted: PathPair, relay_path: PathPair, direct_paths: &DirectPaths) -> (r: PathPreference)
    requires
        direct_paths.wf(),
    ensures
        r@ == preference_spec(wanted, relay_path, direct_paths.view()),
        forall|i: int|
            0 <= i < direct_paths.view().len() && (#[trigger] direct_paths.view()[i]).0 == wanted && wanted != relay_path ==> (
            r matches PathPreference::Declare { available, .. } && available == direct_paths.view()[i].1),
{
    proof {
        assert forall|i: int, j: int| 0 <= i < j < direct_paths.view().len() implies (#[trigger] direct_paths.view()[i]).0 != (
        #[trigger] direct_paths.view()[j]).0 by {
            lemma_order(direct_paths.view()[i].0, direct_paths.view()[j].0, wanted);
        }
        law_wanted_path_is_the_one_declared(wanted, relay_path, direct_paths.view());
    }
    if direct_paths.is_empty() {
        return PathPreference::Switch;
    }
    let available: u32 = if wanted == relay_path {
        RELAY_PATH_ID
    } else {
        match direct_paths.get(wanted) {
            Some(id) => id,
            None => {
                return PathPreference::Switch;
            },
        }
    };
    let mut backup: Vec<u32> = Vec::new();
    let ghost known = known_ids(direct_paths.view());
    if available != RELAY_PATH_ID {
        backup.push(RELAY_PATH_ID);
    }
    proof {
        reveal_with_fuel(others, 2);
        assert(known.take(1) =~= seq![RELAY_PATH_ID]);
        assert(known.take(1).drop_last() =~= Seq::<u32>::empty());
        assert(backup@ =~= others(known.take(1), available));
    }
    let mut i: usize = 0;
    while i < direct_paths.entries.len()
        invariant
            i <= direct_paths.entries@.len(),
            known == known_ids(direct_paths.view()),
            backup@ == others(known.take(i + 1), available),
        decreases direct_paths.entries@.len() - i,
    {
        let id = direct_paths.entries[i].1;
        proof {
            assert(known.take(i + 2).drop_last() =~= known.take(i + 1));
            assert(known[i + 1] == id);
        }
        if id != available {
            backup.push(id);
        }
        i = i + 1;
    }
    proof {
        assert(known.take(i + 1) =~= known);
    }
    PathPreference::Declare { available, backup }
}

/// One operation on a connection's paths.
#[derive(Clone, Copy, Debug, PartialEq, Eq, Structural)]
pub enum PathOperation {
    /// Declare a path available or backup.
    SetStatus { path_id: u32, available: bool },
    /// Switch to a path.
    Activate { pair: PathPair },
}

/// Declare each of `ids` backup, in order.
pub open spec fn demotions(ids: Seq<u32>) -> Seq<PathOperation> {
    ids.map_values(|id: u32| PathOperation::SetStatus { path_id: id, available: false })
}

/// The operations that move a connection onto `wanted`.
pub open spec fn operations(wanted: PathPair, preference: PreferenceView) -> Seq<PathOperation> {
    match preference {
        PreferenceView::Declare { available, backup } => demotions(backup).push(
            PathOperation::SetStatus { path_id: available, available: true },
        ),
        PreferenceView::Switch => seq![PathOperation::Activate { pair: wanted }],
    }
}

/// The operations that move a connection onto `wanted`, in order; a failure of
/// one does not stop the rest. [`settle_path`] says from how they went whether
/// the connection has moved, and what is to be undone where it has not.
///
/// Demoting comes first: promoting first would leave a moment with two active
/// paths, and traffic would split across both.
pub fn prefer_path(wanted: PathPair, relay_path: PathPair, direct_paths: &DirectPaths) -> (r: Vec<PathOperation>)
    requires
        direct_paths.wf(),
    ensures
        r@ == operations(wanted, preference_spec(wanted, relay_path, direct_paths.view())),
{
    let mut out: Vec<PathOperation> = Vec::new();
    match preference_for(wanted, relay_path, direct_paths) {
        PathPreference::Declare { available, backup } => {
            let mut i: usize = 0;
            proof {
                assert(out@ =~= demotions(backup@.take(0)));
            }
            while i < backup.len()
                invariant
                    i <= backup@.len(),
                    out@ == demotions(backup@.take(i as int)),
                decreases backup@.len() - i,
            {
                out.push(PathOperation::SetStatus { path_id: backup[i], available: false });
                proof {
                    assert(demotions(backup@.take(i + 1)) =~= demotions(backup@.take(i as int)).push(
                        PathOperation::SetStatus { path_id: backup@[i as int], available: false },
                    ));
                }
                i = i + 1;
            }
            proof {
                assert(backup@.take(i as int) =~= backup@);
            }
            out.push(PathOperation::SetStatus { path_id: available, available: true });
        },
        PathPreference::Switch => {
            out.push(PathOperation::Activate { pair: wanted });
            proof {
                assert(out@ =~= seq![PathOperation::Activate { pair: wanted }]);
            }
        },
    }
    out
}

/// The paths that carry traffic after `operations`, if `active` did before.
pub open spec fn active_after(active: Set<u32>, operations: Seq<PathOperation>) -> Set<u32>
    decreases operations.len(),
{
    if operations.len() == 0 {
        active
    } else {
        let before = active_after(active, operations.drop_last());
        match operations.last() {
            PathOperation::SetStatus { path_id, available } => if available {
                before.insert(path_id)
            } else {
                before.remove(path_id)
            },
            PathOperation::Activate { .. } => before,
        }
    }
}

/// The paths that carry traffic after those of `operations` that succeeded.
pub open spec fn carried_out(active: Set<u32>, operations: Seq<PathOperation>, succeeded: Seq<bool>) -> Set<u32>
    decreases operations.len(),
{
    if operations.len() == 0 {
        active
    } else {
        let before = carried_out(active, operations.drop_last(), succeeded);
        if succeeded[operations.len() - 1] {
            active_after(before, seq![operations.last()])
        } else {
            before
        }
    }
}

/// The operation changes the status that a path had.
pub open spec fn changes(active: Set<u32>, operation: PathOperation) -> bool {
    operation matches PathOperation::SetStatus { path_id, available } && available != active.contains(path_id)
}

/// Give the path of an operation the status it had.
pub open spec fn undone(active: Set<u32>, operation: PathOperation) -> PathOperation {
    PathOperation::SetStatus { path_id: operation->path_id, available: active.contains(operation->path_id) }
}

/// What gives every path that was changed the status it had, in order.
pub open spec fn undoing(active: Set<u32>, operations: Seq<PathOperation>, succeeded: Seq<bool>) -> Seq<PathOperation>
    decreases operations.len(),
{
    if operations.len() == 0 {
        seq![]
    } else {
        let before = undoing(active, operations.drop_last(), succeeded);
        if succeeded[operations.len() - 1] && changes(active, operations.last()) {
            before.push(undone(active, operations.last()))
        } else {
            before
        }
    }
}

/// Every path mentioned is given the status it had.
spec fn restores(active: Set<u32>, operations: Seq<PathOperation>) -> bool {
    forall|i: int|
        0 <= i < operations.len() ==> ((#[trigger] operations[i]) matches PathOperation::SetStatus { path_id, available }
            && available == active.contains(path_id))
}

/// Some operation is about this path.
spec fn mentions(operations: Seq<PathOperation>, id: u32) -> bool {
    exists|i: int|
        0 <= i < operations.len() && ((#[trigger] operations[i]) matches PathOperation::SetStatus { path_id, .. } && path_id
            == id)
}

proof fn lemma_mentions_push(operations: Seq<PathOperation>, operation: PathOperation, id: u32)
    ensures
        mentions(operations, id) ==> mentions(operations.push(operation), id),
        operation matches PathOperation::SetStatus { path_id, .. } && path_id == id ==> mentions(
            operations.push(operation),
            id,
        ),
{
    let more = operations.push(operation);
    if mentions(operations, id) {
        let i = choose|i: int|
            0 <= i < operations.len() && ((#[trigger] operations[i]) matches PathOperation::SetStatus { path_id, .. }
                && path_id == id);
        assert(more[i] == operations[i]);
    }
    assert(more[operations.len() as int] == operation);
}

proof fn lemma_restored(active: Set<u32>, now: Set<u32>, operations: Seq<PathOperation>, id: u32)
    requires
        restores(active, operations),
        mentions(operations, id) || (now.contains(id) <==> active.contains(id)),
    ensures
        active_after(now, operations).contains(id) <==> active.contains(id),
    decreases operations.len(),
{
    if operations.len() > 0 {
        let rest = operations.drop_last();
        let last = operations.last();
        assert(operations[operations.len() - 1] == last);
        assert forall|i: int| 0 <= i < rest.len() implies ((#[trigger] rest[i]) matches PathOperation::SetStatus {
            path_id,
            available,
        } && available == active.contains(path_id)) by {
            assert(rest[i] == operations[i]);
        }
        if last->path_id != id {
            if mentions(operations, id) {
                let i = choose|i: int|
                    0 <= i < operations.len() && ((#[trigger] operations[i]) matches PathOperation::SetStatus {
                        path_id,
                        ..
                    } && path_id == id);
                assert(rest[i] == operations[i]);
            }
            lemma_restored(active, now, rest, id);
        }
    }
}

proof fn lemma_undoing(active: Set<u32>, operations: Seq<PathOperation>, succeeded: Seq<bool>, id: u32)
    ensures
        restores(active, undoing(active, operations, succeeded)),
        mentions(undoing(active, operations, succeeded), id) || (carried_out(active, operations, succeeded).contains(id)
            <==> active.contains(id)),
    decreases operations.len(),
{
    if operations.len() > 0 {
        let rest = operations.drop_last();
        let last = operations.last();
        lemma_undoing(active, rest, succeeded, id);
        let before = undoing(active, rest, succeeded);
        if succeeded[operations.len() - 1] {
            reveal_with_fuel(active_after, 2);
            assert(seq![last].drop_last() =~= Seq::<PathOperation>::empty());
            if changes(active, last) {
                lemma_mentions_push(before, undone(active, last), id);
            }
        }
    }
}

/// A move that did not happen changes nothing: whichever of its operations
/// succeeded, undoing them leaves every path with the status it had.
pub proof fn law_failed_move_changes_nothing(active: Set<u32>, operations: Seq<PathOperation>, succeeded: Seq<bool>)
    ensures
        active_after(carried_out(active, operations, succeeded), undoing(active, operations, succeeded)) == active,
{
    let undo = undoing(active, operations, succeeded);
    let now = carried_out(active, operations, succeeded);
    assert forall|id: u32| active_after(now, undo).contains(id) <==> active.contains(id) by {
        lemma_undoing(active, operations, succeeded, id);
        lemma_restored(active, now, undo, id);
    }
    assert(active_after(now, undo) =~= active);
}

fn carries(active: &Vec<u32>, id: u32) -> (r: bool)
    ensures
        r == active@.to_set().contains(id),
{
    let mut i: usize = 0;
    while i < active.len()
        invariant
            i <= active@.len(),
            forall|k: int| 0 <= k < i ==> active@[k] != id,
        decreases active@.len() - i,
    {
        if active[i] == id {
            proof {
                assert(active@.contains(id));
            }
            return true;
        }
        i = i + 1;
    }
    false
}

/// Whether a connection has moved, and what is to be undone where it has not.
///
/// `succeeded` says how each of `operations` went, and `active` names the paths
/// that carried traffic before them. The connection has moved if and only if
/// the last operation succeeded. Where it has not, every path that was changed
/// is given back the status it had.
pub fn settle_path(operations: &Vec<PathOperation>, succeeded: &Vec<bool>, active: &Vec<u32>) -> (r: (
    bool,
    Vec<PathOperation>,
))
    requires
        operations@.len() > 0,
        succeeded@.len() == operations@.len(),
    ensures
        r.0 == succeeded@.last(),
        r.0 ==> r.1@.len() == 0,
        !r.0 ==> r.1@ == undoing(active@.to_set(), operations@, succeeded@),
        !r.0 ==> active_after(carried_out(active@.to_set(), operations@, succeeded@), r.1@) == active@.to_set(),
{
    let mut undo: Vec<PathOperation> = Vec::new();
    if succeeded[succeeded.len() - 1] {
        return (true, undo);
    }
    let mut i: usize = 0;
    while i < operations.len()
        invariant
            i <= operations@.len(),
            succeeded@.len() == operations@.len(),
            undo@ == undoing(active@.to_set(), operations@.take(i as int), succeeded@),
        decreases operations@.len() - i,
    {
        proof {
            assert(operations@.take(i + 1).drop_last() =~= operations@.take(i as int));
        }
        if succeeded[i] {
            if let PathOperation::SetStatus { path_id, available } = operations[i] {
                let had = carries(active, path_id);
                if available != had {
                    undo.push(PathOperation::SetStatus { path_id, available: had });
                }
            }
        }
        i = i + 1;
    }
    proof {
        assert(operations@.take(i as int) =~= operations@);
        law_failed_move_changes_nothing(active@.to_set(), operations@, succeeded@);
    }
    (false, undo)
}

proof fn lemma_others(s: Seq<u32>, id: u32)
    ensures
        forall|x: u32| #[trigger] others(s, id).contains(x) <==> s.contains(x) && x != id,
    decreases s.len(),
{
    if s.len() > 0 {
        let t = s.drop_last();
        lemma_others(t, id);
        let r = others(t, id);
        assert forall|x: u32| #[trigger] others(s, id).contains(x) <==> s.contains(x) && x != id by {
            if s.contains(x) {
                let i = choose|i: int| 0 <= i < s.len() && s[i] == x;
                if i < t.len() {
                    assert(t[i] == x);
                }
            }
            if t.contains(x) {
                let i = choose|i: int| 0 <= i < t.len() && t[i] == x;
                assert(s[i] == x);
            }
            assert(s[s.len() - 1] == s.last());
            if s.last() != id {
                if r.contains(x) {
                    let i = choose|i: int| 0 <= i < r.len() && r[i] == x;
                    assert(r.push(s.last())[i] == x);
                }
                if r.push(s.last()).contains(x) {
                    let i = choose|i: int| 0 <= i < r.len() + 1 && r.push(s.last())[i] == x;
                    if i < r.len() {
                        assert(r[i] == x);
                    }
                }
                assert(r.push(s.last())[r.len() as int] == s.last());
            }
        }
    }
}

proof fn lemma_demoted(active: Set<u32>, ids: Seq<u32>)
    ensures
        forall|x: u32| #[trigger] active_after(active, demotions(ids)).contains(x) <==> active.contains(x) && !ids.contains(x),
    decreases ids.len(),
{
    if ids.len() > 0 {
        let rest = ids.drop_last();
        lemma_demoted(active, rest);
        assert(demotions(ids).drop_last() =~= demotions(rest));
        let before = active_after(active, demotions(rest));
        assert(active_after(active, demotions(ids)) == before.remove(ids.last()));
        assert forall|x: u32| #[trigger] active_after(active, demotions(ids)).contains(x) <==> active.contains(x)
            && !ids.contains(x) by {
            assert(before.contains(x) <==> active.contains(x) && !rest.contains(x));
            if ids.contains(x) {
                let i = choose|i: int| 0 <= i < ids.len() && ids[i] == x;
                if i < rest.len() {
                    assert(rest[i] == x);
                }
            }
            if rest.contains(x) {
                let i = choose|i: int| 0 <= i < rest.len() && rest[i] == x;
                assert(ids[i] == x);
            }
            assert(ids[ids.len() - 1] == ids.last());
        }
    }
}

/// Once a preference is declared, exactly the preferred path carries traffic,
/// and until the last operation no path does that did not before.
pub proof fn law_exactly_one_path_is_available(
    wanted: PathPair,
    relay: PathPair,
    paths: Seq<(PathPair, u32)>,
    active: Set<u32>,
    done: int,
)
    requires
        preference_spec(wanted, relay, paths) is Declare,
        forall|id: u32| #[trigger] active.contains(id) ==> known_ids(paths).contains(id),
        0 <= done < operations(wanted, preference_spec(wanted, relay, paths)).len(),
    ensures
        ({
            let all = operations(wanted, preference_spec(wanted, relay, paths));
            &&& active_after(active, all) == set![available_id(wanted, relay, paths)->0]
            &&& active_after(active, all.take(done)).subset_of(active)
        }),
{
    let available = available_id(wanted, relay, paths)->0;
    let known = known_ids(paths);
    let backup = others(known, available);
    let all = operations(wanted, preference_spec(wanted, relay, paths));
    lemma_others(known, available);
    lemma_demoted(active, backup);
    assert(all.drop_last() =~= demotions(backup));
    let before = active_after(active, demotions(backup));
    assert(active_after(active, all) == before.insert(available));
    assert forall|x: u32| before.contains(x) implies x == available by {
        assert(active.contains(x) && !backup.contains(x));
    }
    assert(active_after(active, all) =~= set![available]);
    assert(all.take(done) =~= demotions(backup.take(done)));
    lemma_demoted(active, backup.take(done));
}

/// Every known path other than the preferred one is kept as backup, and the
/// preferred one is not.
pub proof fn law_every_other_path_is_backup(wanted: PathPair, relay: PathPair, paths: Seq<(PathPair, u32)>, id: u32)
    requires
        preference_spec(wanted, relay, paths) is Declare,
    ensures
        ({
            let preference = preference_spec(wanted, relay, paths);
            preference->backup.contains(id) <==> known_ids(paths).contains(id) && id != preference->available
        }),
{
    lemma_others(known_ids(paths), available_id(wanted, relay, paths)->0);
}

/// One thing to set up before a connection starts.
#[derive(Clone, Copy, Debug, PartialEq, Eq, Structural)]
pub enum Preparation {
    /// Share the UDP binding.
    ShareBinding,
    /// Use an unconnected socket.
    UnconnectedSocket,
    /// Use the loopback address, on any port.
    LocalLoopback,
    /// Offer the address that was observed for `local`.
    Candidate { local: SocketAddr, observed: SocketAddr },
    /// Offer `local` itself; going without it is no failure.
    HostCandidate { local: SocketAddr },
}

/// What to set up, in order, to offer a direct path.
pub open spec fn preparations(candidate: ObservedAddress) -> Seq<Preparation> {
    let needed = seq![
        Preparation::ShareBinding,
        Preparation::UnconnectedSocket,
        Preparation::LocalLoopback,
        Preparation::Candidate { local: candidate.local, observed: candidate.observed },
    ];
    if candidate.local != candidate.observed {
        needed.push(Preparation::HostCandidate { local: candidate.local })
    } else {
        needed
    }
}

/// What to set up, in order, to offer a direct path.
///
/// An unconnected socket needs a shared binding and a local address of its
/// own. The host address is offered beside the observed one: two peers behind
/// the same NAT can only meet there.
pub fn prepare(candidate: ObservedAddress) -> (r: Vec<Preparation>)
    ensures
        r@ == preparations(candidate),
{
    let mut out: Vec<Preparation> = Vec::new();
    out.push(Preparation::ShareBinding);
    out.push(Preparation::UnconnectedSocket);
    out.push(Preparation::LocalLoopback);
    out.push(Preparation::Candidate { local: candidate.local, observed: candidate.observed });
    if candidate.local != candidate.observed {
        out.push(Preparation::HostCandidate { local: candidate.local });
    }
    proof {
        assert(out@ =~= preparations(candidate));
    }
    out
}

impl Preparation {
    /// What to say when it fails, where that ends the attempt.
    pub fn failure(&self, error: &str) -> (r: Option<String>)
        ensures
            match *self {
                Preparation::ShareBinding => r matches Some(text) && text@ == "could not share the UDP binding: "@ + error@,
                Preparation::UnconnectedSocket => r matches Some(text) && text@ == "could not use an unconnected socket: "@
                    + error@,
                Preparation::LocalLoopback => r matches Some(text) && text@ == "could not pin the local address: "@
                    + error@,
                Preparation::Candidate { .. } => r matches Some(text) && text@
                    == "could not offer a direct-path candidate: "@ + error@,
                Preparation::HostCandidate { .. } => r is None,
            },
    {
        let mut text = match *self {
            Preparation::ShareBinding => "could not share the UDP binding: ".to_owned(),
            Preparation::UnconnectedSocket => "could not use an unconnected socket: ".to_owned(),
            Preparation::LocalLoopback => "could not pin the local address: ".to_owned(),
            Preparation::Candidate { .. } => "could not offer a direct-path candidate: ".to_owned(),
            Preparation::HostCandidate { .. } => {
                return None;
            },
        };
        text.push_str(error);
        Some(text)
    }
}

/// One thing to tell a peer about the leg that its connection came in on.
#[derive(Clone, Copy, Debug, PartialEq, Eq, Structural)]
pub enum Advertisement {
    /// Attach the leg's binding.
    Bound { local: SocketAddr },
    /// Advertise the address that was observed for it.
    Observed { local: SocketAddr, observed: SocketAddr },
    /// Advertise the binding's own address; going without it is no failure.
    Host { local: SocketAddr },
}

/// What to tell a peer, in order; it ends with the first failure of one that
/// is needed.
pub open spec fn advertisements(address: ObservedAddress) -> Seq<Advertisement> {
    let needed = seq![
        Advertisement::Bound { local: address.local },
        Advertisement::Observed { local: address.local, observed: address.observed },
    ];
    if address.local != address.observed {
        needed.push(Advertisement::Host { local: address.local })
    } else {
        needed
    }
}

/// What to tell a peer, in order, so that it can reach the leg directly.
pub fn advertise(address: ObservedAddress) -> (r: Vec<Advertisement>)
    ensures
        r@ == advertisements(address),
{
    let mut out: Vec<Advertisement> = Vec::new();
    out.push(Advertisement::Bound { local: address.local });
    out.push(Advertisement::Observed { local: address.local, observed: address.observed });
    if address.local != address.observed {
        out.push(Advertisement::Host { local: address.local });
    }
    proof {
        assert(out@ =~= advertisements(address));
    }
    out
}

impl Advertisement {
    /// Whether its failure leaves the peer on the relay, so that the rest is
    /// left out.
    pub fn is_needed(&self) -> (r: bool)
        ensures
            r == !(*self is Host),
    {
        match self {
            Advertisement::Host { .. } => false,
            _ => true,
        }
    }
}

/// How a connection is told which binding to reach.
pub enum RelayLegs<L> {
    /// One leg serves everybody.
    Single(L),
    /// Legs told apart by the address that a connection comes from.
    PerConnection(LegDirectory<L>),
}

/// What a look for the leg of a connection found.
pub enum LegLookup<'a, L> {
    /// The leg.
    Found(&'a L),
    /// Nothing yet; look again later.
    Later,
    /// Nothing in time, and no leg has claimed any address: the connection
    /// did not come through a relay.
    NoLegs,
    /// Nothing in time, though `claimed` addresses lead to other legs.
    Unclaimed { claimed: usize },
}

/// Look for the leg that a connection from `peer` came in on.
pub fn leg_of<'a, L>(legs: &'a RelayLegs<L>, peer: SocketAddr, overdue: bool) -> (r: LegLookup<'a, L>)
    requires
        legs matches RelayLegs::PerConnection(directory) ==> directory.wf(),
    ensures
        match legs {
            RelayLegs::Single(leg) => r == LegLookup::Found(leg),
            RelayLegs::PerConnection(directory) => {
                if directory.view().contains_key(peer) {
                    r matches LegLookup::Found(leg) && *leg == directory.view()[peer]
                } else if !overdue {
                    r is Later
                } else if directory.view().dom().len() == 0 {
                    r is NoLegs
                } else {
                    r matches LegLookup::Unclaimed { claimed } && claimed == directory.view().dom().len()
                }
            },
        },
{
    match legs {
        RelayLegs::Single(leg) => LegLookup::Found(leg),
        RelayLegs::PerConnection(directory) => match directory.leg_for(peer) {
            Some(leg) => LegLookup::Found(leg),
            None => {
                if !overdue {
                    LegLookup::Later
                } else {
                    let claimed = directory.claimed();
                    if claimed == 0 {
                        LegLookup::NoLegs
                    } else {
                        LegLookup::Unclaimed { claimed }
                    }
                }
            },
        },
    }
}

/// A path has the id that it was noted under: in a list that names each path
/// once, an id is found for a path exactly where the list holds the two
/// together.
pub proof fn law_path_has_the_id_it_was_noted_under(paths: Seq<(PathPair, u32)>, pair: PathPair, id: u32)
    requires
        ordered(paths),
    ensures
        lookup(paths, pair) == Some(id) <==> exists|i: int| 0 <= i < paths.len() && #[trigger] paths[i] == (pair, id),
        lookup(paths, pair) is None <==> forall|i: int| 0 <= i < paths.len() ==> (#[trigger] paths[i]).0 != pair,
{
    if lookup(paths, pair) is Some {
        lemma_lookup_some(paths, pair);
        let i = choose|i: int|
            0 <= i < paths.len() && (#[trigger] paths[i]).0 == pair && lookup(paths, pair) == Some(paths[i].1);
        assert(paths[i] == (pair, lookup(paths, pair)->0));
    }
    if exists|i: int| 0 <= i < paths.len() && #[trigger] paths[i] == (pair, id) {
        let i = choose|i: int| 0 <= i < paths.len() && #[trigger] paths[i] == (pair, id);
        lemma_lookup_at(paths, i);
    }
    if forall|i: int| 0 <= i < paths.len() ==> (#[trigger] paths[i]).0 != pair {
        lemma_lookup_absent(paths, pair);
    } else {
        let i = choose|i: int| 0 <= i < paths.len() && (#[trigger] paths[i]).0 == pair;
        lemma_lookup_at(paths, i);
    }
}

/// The path that is wanted is the one that is declared: a direct path by its
/// own id, wherever it stands among the known ones, and the relay path by the
/// id of the first path. Where no path is known, or the wanted one is neither
/// known nor the relay path, there is nothing to declare. Kept as backup are
/// all the others, the relay path first and the direct ones in their order.
pub proof fn law_wanted_path_is_the_one_declared(wanted: PathPair, relay: PathPair, paths: Seq<(PathPair, u32)>)
    requires
        forall|i: int, j: int| 0 <= i < j < paths.len() ==> (#[trigger] paths[i]).0 != (#[trigger] paths[j]).0,
    ensures
        forall|i: int|
            0 <= i < paths.len() && (#[trigger] paths[i]).0 == wanted && wanted != relay ==> (preference_spec(
                wanted,
                relay,
                paths,
            ) matches PreferenceView::Declare { available, .. } && available == paths[i].1),
        wanted == relay && paths.len() > 0 ==> (preference_spec(wanted, relay, paths) matches PreferenceView::Declare {
            available,
            ..
        } && available == 0),
        preference_spec(wanted, relay, paths) == PreferenceView::Switch <==> paths.len() == 0 || (wanted != relay && forall|
            i: int,
        |
            0 <= i < paths.len() ==> (#[trigger] paths[i]).0 != wanted),
        preference_spec(wanted, relay, paths) matches PreferenceView::Declare { available, backup } ==> {
            &&& !backup.contains(available)
            &&& available != 0 ==> backup.len() > 0 && backup[0] == 0
            &&& forall|i: int| 0 <= i < paths.len() && (#[trigger] paths[i]).1 != available ==> backup.contains(paths[i].1)
            &&& forall|k: int|
                0 <= k < backup.len() ==> backup[k] == 0 || exists|i: int| 0 <= i < paths.len() && (#[trigger] paths[i]).1 == backup[k]
        },
{
    assert forall|i: int| 0 <= i < paths.len() && (#[trigger] paths[i]).0 == wanted implies lookup(paths, wanted) == Some(
        paths[i].1,
    ) by {
        lemma_lookup_of_the_only(paths, i);
    }
    if lookup(paths, wanted) is Some {
        lemma_lookup_some(paths, wanted);
    }
    if forall|i: int| 0 <= i < paths.len() ==> (#[trigger] paths[i]).0 != wanted {
        lemma_lookup_absent(paths, wanted);
    }
    if let PreferenceView::Declare { available, backup } = preference_spec(wanted, relay, paths) {
        let known = known_ids(paths);
        lemma_others(known, available);
        if available != 0 {
            lemma_others_first(known, available);
        }
        assert forall|i: int| 0 <= i < paths.len() && (#[trigger] paths[i]).1 != available implies backup.contains(
            paths[i].1,
        ) by {
            assert(known[i + 1] == paths[i].1);
            assert(known.contains(paths[i].1));
        }
        assert forall|k: int| 0 <= k < backup.len() implies backup[k] == 0 || exists|i: int|
            0 <= i < paths.len() && (#[trigger] paths[i]).1 == backup[k] by {
            assert(backup.contains(backup[k]));
            assert(known.contains(backup[k]));
            let m = choose|m: int| 0 <= m < known.len() && known[m] == backup[k];
            if m > 0 {
                assert(paths[m - 1].1 == backup[k]);
            }
        }
    }
}

proof fn lemma_lookup_of_the_only(paths: Seq<(PathPair, u32)>, i: int)
    requires
        0 <= i < paths.len(),
        forall|j: int| i < j < paths.len() ==> (#[trigger] paths[j]).0 != paths[i].0,
    ensures
        lookup(paths, paths[i].0) == Some(paths[i].1),
    decreases paths.len(),
{
    let n = paths.len() - 1;
    if i < n {
        let rest = paths.drop_last();
        assert(paths[n].0 != paths[i].0);
        assert forall|j: int| i < j < rest.len() implies (#[trigger] rest[j]).0 != rest[i].0 by {
            assert(rest[j] == paths[j]);
        }
        lemma_lookup_of_the_only(rest, i);
    }
}

proof fn lemma_others_first(s: Seq<u32>, id: u32)
    requires
        s.len() > 0,
        s[0] != id,
    ensures
        others(s, id).len() > 0,
        others(s, id)[0] == s[0],
    decreases s.len(),
{
    if s.len() > 1 {
        lemma_others_first(s.drop_last(), id);
    } else {
        reveal_with_fuel(others, 2);
    }
}

/// The ids other than one are picked one by one and keep their order.
pub proof fn law_backups_keep_their_order(a: Seq<u32>, b: Seq<u32>, one: u32, id: u32)
    ensures
        others(a + b, id) == others(a, id) + others(b, id),
        one == id ==> others(seq![one], id) == Seq::<u32>::empty(),
        one != id ==> others(seq![one], id) == seq![one],
    decreases b.len(),
{
    reveal_with_fuel(others, 2);
    assert(seq![one].drop_last() =~= Seq::<u32>::empty());
    assert(Seq::<u32>::empty().push(one) =~= seq![one]);
    if b.len() == 0 {
        assert(a + b =~= a);
        assert(others(a, id) + others(b, id) =~= others(a, id));
    } else {
        law_backups_keep_their_order(a, b.drop_last(), one, id);
        assert((a + b).drop_last() =~= a + b.drop_last());
        assert(others(a + b, id) =~= others(a, id) + others(b, id));
    }
}

/// Moving a connection ends with the wanted path and nothing else promoted:
/// the last operation promotes it or switches to it, and every one before it
/// demotes another.
pub proof fn law_move_ends_on_the_wanted_path(wanted: PathPair, preference: PreferenceView)
    ensures
        ({
            let all = operations(wanted, preference);
            &&& all.len() > 0
            &&& match preference {
                PreferenceView::Declare { available, backup } => {
                    &&& all.len() == backup.len() + 1
                    &&& all.last() == PathOperation::SetStatus { path_id: available, available: true }
                    &&& forall|i: int|
                        0 <= i < backup.len() ==> #[trigger] all[i] == (PathOperation::SetStatus {
                            path_id: backup[i],
                            available: false,
                        })
                },
                PreferenceView::Switch => all.len() == 1 && all[0] == PathOperation::Activate { pair: wanted },
            }
        }),
{
}

/// Declaring a path available adds it to those that carry traffic, declaring
/// it backup takes it off them, and nothing else about them changes; so too
/// for each operation of several.
pub proof fn law_status_is_what_was_declared(active: Set<u32>, before: Seq<PathOperation>, one: PathOperation, id: u32)
    ensures
        active_after(active, before.push(one)).contains(id) <==> (match one {
            PathOperation::SetStatus { path_id, available } if path_id == id => available,
            _ => active_after(active, before).contains(id),
        }),
        active_after(active, Seq::<PathOperation>::empty()) == active,
{
    assert(before.push(one).drop_last() =~= before);
}

/// What is undone is what was done: only operations that succeeded are, and
/// each path gets back the status that it had.
pub proof fn law_only_what_was_done_is_undone(active: Set<u32>, operations: Seq<PathOperation>, succeeded: Seq<bool>, k: int)
    requires
        0 <= k < undoing(active, operations, succeeded).len(),
    ensures
        undoing(active, operations, succeeded)[k] matches PathOperation::SetStatus { path_id, available } && available
            == active.contains(path_id) && exists|i: int|
            0 <= i < operations.len() && succeeded[i] && #[trigger] operations[i] == (PathOperation::SetStatus {
                path_id,
                available: !available,
            }),
    decreases operations.len(),
{
    let n = operations.len() - 1;
    let rest = operations.drop_last();
    let before = undoing(active, rest, succeeded);
    if k < before.len() {
        law_only_what_was_done_is_undone(active, rest, succeeded, k);
        let path_id = before[k]->path_id;
        let available = before[k]->available;
        let i = choose|i: int|
            0 <= i < rest.len() && succeeded[i] && #[trigger] rest[i] == (PathOperation::SetStatus {
                path_id,
                available: !available,
            });
        assert(operations[i] == rest[i]);
        assert(undoing(active, operations, succeeded)[k] == before[k]);
    } else {
        assert(succeeded[n] && changes(active, operations[n]));
    }
}

/// What is set up and what is told of an address hold that address and no
/// other: the observed address once, and the local one beside it exactly where
/// the two differ.
pub proof fn law_both_addresses_are_offered_where_they_differ(address: ObservedAddress, p: Preparation, a: Advertisement)
    ensures
        preparations(address).contains(p) <==> match p {
            Preparation::ShareBinding | Preparation::UnconnectedSocket | Preparation::LocalLoopback => true,
            Preparation::Candidate { local, observed } => local == address.local && observed == address.observed,
            Preparation::HostCandidate { local } => local == address.local && address.local != address.observed,
        },
        advertisements(address).contains(a) <==> match a {
            Advertisement::Bound { local } => local == address.local,
            Advertisement::Observed { local, observed } => local == address.local && observed == address.observed,
            Advertisement::Host { local } => local == address.local && address.local != address.observed,
        },
        preparations(address)[0] == Preparation::ShareBinding,
        preparations(address)[1] == Preparation::UnconnectedSocket,
        preparations(address)[2] == Preparation::LocalLoopback,
        preparations(address)[3] is Candidate,
        advertisements(address)[0] is Bound,
        advertisements(address)[1] is Observed,
        preparations(address).no_duplicates(),
        advertisements(address).no_duplicates(),
{
    let ps = preparations(address);
    let ads = advertisements(address);
    assert(ps[0] == Preparation::ShareBinding && ps[1] == Preparation::UnconnectedSocket && ps[2]
        == Preparation::LocalLoopback);
    assert(ps[3] == Preparation::Candidate { local: address.local, observed: address.observed });
    assert(ads[0] == Advertisement::Bound { local: address.local });
    assert(ads[1] == Advertisement::Observed { local: address.local, observed: address.observed });
    if address.local != address.observed {
        assert(ps[4] == Preparation::HostCandidate { local: address.local });
        assert(ads[2] == Advertisement::Host { local: address.local });
    }
}

} // verus!
