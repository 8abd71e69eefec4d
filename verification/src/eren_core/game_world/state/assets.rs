use std::collections::HashMap;

use vstd::prelude::*;
use vstd::std_specs::iter::IteratorSpec;

verus! {

broadcast use vstd::std_specs::hash::group_hash_axioms;

/// An asset is named by an integer id; a game maps its own asset enum onto it.
pub type AssetId = u64;

/// Whether some entry of `bundle` names `id`.
pub open spec fn in_bundle(bundle: Seq<(AssetId, &'static str)>, id: AssetId) -> bool {
    exists|i: int| 0 <= i < bundle.len() && #[trigger] bundle[i].0 == id
}

/// The path of the first entry of `bundle` that names `id`.
pub open spec fn first_path(bundle: Seq<(AssetId, &'static str)>, id: AssetId) -> &'static str
    decreases bundle.len(),
{
    if bundle.len() == 0 {
        arbitrary()
    } else if in_bundle(bundle.drop_last(), id) {
        first_path(bundle.drop_last(), id)
    } else {
        bundle.last().1
    }
}

/// The engine's table of assets to load once `bundle` has been checked against
/// `ready`: assets of the bundle that are ready leave it, the others enter it with
/// the first path the bundle gives them, unless they are already in it.
pub open spec fn pending_after(
    pending: Map<AssetId, &'static str>,
    ready: Seq<AssetId>,
    bundle: Seq<(AssetId, &'static str)>,
) -> Map<AssetId, &'static str> {
    Map::new(
        |id: AssetId|
            (pending.contains_key(id) || in_bundle(bundle, id)) && !(in_bundle(bundle, id)
                && ready.contains(id)),
        |id: AssetId|
            if pending.contains_key(id) {
                pending[id]
            } else {
                first_path(bundle, id)
            },
    )
}

/// The entries of `bundle` whose asset is not in `ready`, in order.
pub open spec fn not_ready(bundle: Seq<(AssetId, &'static str)>, ready: Seq<AssetId>) -> Seq<
    (AssetId, &'static str),
> {
    bundle.filter(|e: (AssetId, &'static str)| !ready.contains(e.0))
}

/// `loads` lists each entry of `pending` exactly once, in some order.
pub open spec fn lists_each_entry_once(
    loads: Seq<(AssetId, &'static str)>,
    pending: Map<AssetId, &'static str>,
) -> bool {
    &&& loads.len() == pending.dom().len()
    &&& forall|i: int, j: int| 0 <= i < j < loads.len() ==> loads[i].0 != loads[j].0
    &&& forall|i: int|
        0 <= i < loads.len() ==> #[trigger] pending.contains_key(loads[i].0) && pending[loads[i].0]
            == loads[i].1
    &&& forall|id: AssetId| #[trigger]
        pending.contains_key(id) ==> exists|i: int| 0 <= i < loads.len() && loads[i].0 == id
}

/// Exact membership test of an id in a vector of ids.
pub fn contains_id(v: &Vec<AssetId>, id: AssetId) -> (found: bool)
    ensures
        found == v@.contains(id),
{
    let mut i: usize = 0;
    while i < v.len()
        invariant
            i <= v.len(),
            forall|j: int| 0 <= j < i ==> v@[j] != id,
        decreases v.len() - i,
    {
        if v[i] == id {
            return true;
        }
        i = i + 1;
    }
    false
}

/// The assets of one kind (sprites or models): those ready for use, and those
/// asked for and waiting to be loaded, with their paths.
pub struct AssetsState {
    pub ready: Vec<AssetId>,
    pub pending: HashMap<AssetId, &'static str>,
}

impl AssetsState {
    pub fn new() -> (state: Self)
        ensures
            state.ready@ == Seq::<AssetId>::empty(),
            state.pending@ == Map::<AssetId, &'static str>::empty(),
    {
        AssetsState { ready: Vec::new(), pending: HashMap::new() }
    }

    /// Checks the entries of `bundle` against the ready assets: a ready one leaves
    /// `bundle` and the pending table, another stays in `bundle` and is entered in
    /// the pending table if it is not there yet. Answers whether `bundle` is empty.
    pub fn check_bundle(&mut self, bundle: &mut Vec<(AssetId, &'static str)>) -> (loaded: bool)
        ensures
            final(bundle)@ == not_ready(old(bundle)@, old(self).ready@),
            loaded == (final(bundle)@.len() == 0),
            final(self).ready@ == old(self).ready@,
            final(self).pending@ == pending_after(
                old(self).pending@,
                old(self).ready@,
                old(bundle)@,
            ),
    {
        let ghost entries = bundle@;
        let ghost ready = self.ready@;
        let ghost pending = self.pending@;
        let mut kept: Vec<(AssetId, &'static str)> = Vec::new();
        let mut i: usize = 0;
        assert(pending_after(pending, ready, entries.take(0)) =~= pending);
        while i < bundle.len()
            invariant
                i <= entries.len(),
                bundle@ == entries,
                self.ready@ == ready,
                kept@ == not_ready(entries.take(i as int), ready),
                self.pending@ == pending_after(pending, ready, entries.take(i as int)),
            decreases entries.len() - i,
        {
            let (id, path) = bundle[i];
            let ghost before = entries.take(i as int);
            let ghost after = entries.take(i + 1);
            assert(after.drop_last() =~= before);
            assert(after.last() == (id, path));
            assert forall|k: AssetId| #[trigger] in_bundle(after, k) == (in_bundle(before, k) || k
                == id) by {
                if in_bundle(after, k) {
                    let j = choose|j: int| 0 <= j < after.len() && #[trigger] after[j].0 == k;
                    if j < before.len() {
                        assert(before[j].0 == k);
                    }
                }
                if in_bundle(before, k) {
                    let j = choose|j: int| 0 <= j < before.len() && #[trigger] before[j].0 == k;
                    assert(after[j].0 == k);
                }
                if k == id {
                    assert(after[i as int].0 == k);
                }
            }
            reveal_with_fuel(Seq::filter, 1);
            if contains_id(&self.ready, id) {
                self.pending.remove(&id);
                assert(self.pending@ =~= pending_after(pending, ready, after));
            } else {
                if !self.pending.contains_key(&id) {
                    self.pending.insert(id, path);
                }
                assert(self.pending@ =~= pending_after(pending, ready, after));
                kept.push((id, path));
            }
            i = i + 1;
        }
        assert(entries.take(entries.len() as int) =~= entries);
        *bundle = kept;
        bundle.len() == 0
    }
    /// Hands out every pending asset with its path, in the order in which the table
    /// is walked, and moves them all to the ready list in that order.
    pub fn drain_pending(&mut self) -> (loads: Vec<(AssetId, &'static str)>)
        ensures
            lists_each_entry_once(loads@, old(self).pending@),
            final(self).pending@ == Map::<AssetId, &'static str>::empty(),
            final(self).ready@ == old(self).ready@ + loads@.map_values(
                |e: (AssetId, &'static str)| e.0,
            ),
    {
        let ghost pending = self.pending@;
        let ghost ready = self.ready@;
        let ghost walked = vstd::std_specs::hash::spec_keys_iter(&self.pending).remaining();
        let ghost keys = walked.unref();
        assert(keys.to_set() == pending.dom());
        assert(keys.len() == pending.dom().len());
        assert(keys.no_duplicates()) by {
            assert(walked.no_duplicates());
            assert forall|i: int, j: int|
                0 <= i < keys.len() && 0 <= j < keys.len() && i != j implies keys[i] != keys[j] by {
                assert(walked[i] != walked[j]);
            }
        }
        let mut loads: Vec<(AssetId, &'static str)> = Vec::new();
        for key in it: self.pending.keys()
            invariant
                self.pending@ == pending,
                it.seq().unref() == keys,
                keys.to_set() == pending.dom(),
                keys.len() == pending.dom().len(),
                keys.no_duplicates(),
                loads@.len() == it.index(),
                it.seq().len() == keys.len(),
                forall|i: int| 0 <= i < it.index() ==> #[trigger] loads@[i].0 == keys[i],
                forall|i: int|
                    0 <= i < loads@.len() ==> #[trigger] pending.contains_key(loads@[i].0)
                        && pending[loads@[i].0] == loads@[i].1,
                self.ready@ == ready + loads@.map_values(|e: (AssetId, &'static str)| e.0),
        {
            let id = *key;
            assert(keys[loads@.len() as int] == id);
            assert(keys.to_set().contains(id));
            let path = *self.pending.get(&id).unwrap();
            loads.push((id, path));
            self.ready.push(id);
            assert(self.ready@ =~= ready + loads@.map_values(|e: (AssetId, &'static str)| e.0));
        }
        assert(loads@.len() == keys.len());
        assert forall|i: int, j: int| 0 <= i < j < loads@.len() implies loads@[i].0 != loads@[j].0 by {
            assert(keys[i] != keys[j]);
        }
        assert forall|id: AssetId| #[trigger] pending.contains_key(id) implies exists|i: int|
            0 <= i < loads@.len() && loads@[i].0 == id by {
            assert(keys.to_set().contains(id));
            let i = choose|i: int| 0 <= i < keys.len() && keys[i] == id;
            assert(loads@[i].0 == id);
        }
        self.pending.clear();
        loads
    }
}

/// A bundle is loaded once the engine has drained what checking it asked for: after
/// `check_bundle` and `drain_pending`, a second `check_bundle` of what was left finds
/// every asset ready.
pub proof fn law_bundle_ready_after_drain(
    pending: Map<AssetId, &'static str>,
    ready: Seq<AssetId>,
    bundle: Seq<(AssetId, &'static str)>,
    loads: Seq<(AssetId, &'static str)>,
)
    requires
        lists_each_entry_once(loads, pending_after(pending, ready, bundle)),
    ensures
        not_ready(
            not_ready(bundle, ready),
            ready + loads.map_values(|e: (AssetId, &'static str)| e.0),
        ).len() == 0,
{
    let left = not_ready(bundle, ready);
    let now_ready = ready + loads.map_values(|e: (AssetId, &'static str)| e.0);
    let still = |e: (AssetId, &'static str)| !now_ready.contains(e.0);
    let waiting = |e: (AssetId, &'static str)| !ready.contains(e.0);
    assert forall|i: int| 0 <= i < left.len() implies !still(#[trigger] left[i]) by {
        let e = left[i];
        bundle.lemma_filter_pred(waiting, i);
        assert(left.contains(e));
        bundle.lemma_filter_contains_rev(waiting, e);
        let k = choose|k: int| 0 <= k < bundle.len() && bundle[k] == e;
        assert(bundle[k].0 == e.0);
        assert(in_bundle(bundle, e.0));
        assert(pending_after(pending, ready, bundle).contains_key(e.0));
        let j = choose|j: int| 0 <= j < loads.len() && loads[j].0 == e.0;
        assert(now_ready[ready.len() + j] == e.0);
    }
    left.lemma_all_neg_filter_empty(still);
}

/// Checking a bundle a second time, with nothing loaded in between, changes
/// neither the bundle nor the pending table.
pub proof fn law_check_bundle_idempotent(
    pending: Map<AssetId, &'static str>,
    ready: Seq<AssetId>,
    bundle: Seq<(AssetId, &'static str)>,
)
    ensures
        not_ready(not_ready(bundle, ready), ready) == not_ready(bundle, ready),
        pending_after(pending_after(pending, ready, bundle), ready, not_ready(bundle, ready))
            == pending_after(pending, ready, bundle),
{
    let left = not_ready(bundle, ready);
    let waiting = |e: (AssetId, &'static str)| !ready.contains(e.0);
    let p1 = pending_after(pending, ready, bundle);
    assert forall|i: int| 0 <= i < left.len() implies waiting(#[trigger] left[i]) by {
        bundle.lemma_filter_pred(waiting, i);
    }
    lemma_filter_all_keeps(left, waiting);
    assert forall|id: AssetId| #[trigger] in_bundle(left, id) implies in_bundle(bundle, id)
        && !ready.contains(id) by {
        let i = choose|i: int| 0 <= i < left.len() && #[trigger] left[i].0 == id;
        bundle.lemma_filter_pred(waiting, i);
        assert(left.contains(left[i]));
        bundle.lemma_filter_contains_rev(waiting, left[i]);
        let k = choose|k: int| 0 <= k < bundle.len() && bundle[k] == left[i];
        assert(bundle[k].0 == id);
    }
    assert(pending_after(p1, ready, left) =~= p1);
}

/// Filtering keeps a sequence whose elements all pass.
proof fn lemma_filter_all_keeps(s: Seq<(AssetId, &'static str)>, pred: spec_fn((AssetId, &'static str)) -> bool)
    requires
        forall|i: int| 0 <= i < s.len() ==> pred(#[trigger] s[i]),
    ensures
        s.filter(pred) == s,
    decreases s.len(),
{
    reveal_with_fuel(Seq::filter, 1);
    if s.len() > 0 {
        lemma_filter_all_keeps(s.drop_last(), pred);
        assert(s.drop_last().push(s.last()) =~= s);
    } else {
        assert(s.filter(pred) =~= s);
    }
}

} // verus!

verus! {

/// `first_path` is the path of the earliest entry naming `id`.
pub proof fn law_first_path_is_earliest(bundle: Seq<(AssetId, &'static str)>, id: AssetId)
    requires
        in_bundle(bundle, id),
    ensures
        exists|i: int|
            0 <= i < bundle.len() && #[trigger] bundle[i].0 == id && first_path(bundle, id) == bundle[i].1
                && forall|j: int| 0 <= j < i ==> #[trigger] bundle[j].0 != id,
    decreases bundle.len(),
{
    let rest = bundle.drop_last();
    if in_bundle(rest, id) {
        law_first_path_is_earliest(rest, id);
        let i = choose|i: int|
            0 <= i < rest.len() && #[trigger] rest[i].0 == id && first_path(rest, id) == rest[i].1
                && forall|j: int| 0 <= j < i ==> #[trigger] rest[j].0 != id;
        assert(bundle[i] == rest[i]);
        assert forall|j: int| 0 <= j < i implies #[trigger] bundle[j].0 != id by {
            assert(bundle[j] == rest[j]);
        }
    } else {
        let i = bundle.len() - 1;
        assert forall|j: int| 0 <= j < i implies #[trigger] bundle[j].0 != id by {
            assert(bundle[j] == rest[j]);
            if bundle[j].0 == id {
                assert(rest[j].0 == id);
            }
        }
        let k = choose|k: int| 0 <= k < bundle.len() && #[trigger] bundle[k].0 == id;
        assert(k == i);
    }
}

} // verus!
