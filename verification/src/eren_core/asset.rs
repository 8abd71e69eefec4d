use vstd::prelude::*;

use crate::eren_core::game::state::{contains_string, strings_contain, GameState};

verus! {

/// `required` after `id` has been asked for and found missing: it is added once.
pub open spec fn register_required(required: Seq<String>, id: String) -> Seq<String> {
    if strings_contain(required, id@) {
        required
    } else {
        required.push(id)
    }
}

/// The entries of `pending` whose asset is not among `loaded`, in order.
pub open spec fn still_pending(pending: Seq<(String, String)>, loaded: Seq<String>) -> Seq<
    (String, String),
>
    decreases pending.len(),
{
    if pending.len() == 0 {
        pending
    } else {
        let rest = still_pending(pending.drop_last(), loaded);
        if strings_contain(loaded, pending.last().0@) {
            rest
        } else {
            rest.push(pending.last())
        }
    }
}

/// `required` after every entry of `pending`, in order, has been asked for.
pub open spec fn required_after(
    required: Seq<String>,
    pending: Seq<(String, String)>,
    loaded: Seq<String>,
) -> Seq<String>
    decreases pending.len(),
{
    if pending.len() == 0 {
        required
    } else {
        let before = required_after(required, pending.drop_last(), loaded);
        if strings_contain(loaded, pending.last().0@) {
            before
        } else {
            register_required(before, pending.last().0)
        }
    }
}

/// A group of `(asset id, path)` pairs that a screen waits for.
pub struct AssetBundle {
    pending_assets: Vec<(String, String)>,
}

impl View for AssetBundle {
    type V = Seq<(String, String)>;

    closed spec fn view(&self) -> Seq<(String, String)> {
        self.pending_assets@
    }
}

impl AssetBundle {
    pub fn new(assets: Vec<(String, String)>) -> (bundle: Self)
        ensures
            bundle@ == assets@,
    {
        AssetBundle { pending_assets: assets }
    }

    /// Drops from the bundle every asset that `state` has loaded, asks `state` for
    /// the others, and answers whether nothing is left to wait for.
    pub fn is_loaded(&mut self, state: &mut GameState) -> (loaded: bool)
        ensures
            final(self)@ == still_pending(old(self)@, old(state).loaded_assets@),
            loaded == (final(self)@.len() == 0),
            final(state).loaded_assets@ == old(state).loaded_assets@,
            final(state).required_assets@ == required_after(
                old(state).required_assets@,
                old(self)@,
                old(state).loaded_assets@,
            ),
            final(self)@ == old(self)@.filter(
                |e: (String, String)| entry_not_loaded(old(state).loaded_assets@, e),
            ),
            forall|i: int|
                0 <= i < old(self)@.len() && !strings_contain(
                    old(state).loaded_assets@,
                    #[trigger] old(self)@[i].0@,
                ) ==> strings_contain(final(state).required_assets@, old(self)@[i].0@),
    {
        let ghost pending = self.pending_assets@;
        let ghost loaded = state.loaded_assets@;
        let ghost required = state.required_assets@;
        let mut kept: Vec<(String, String)> = Vec::new();
        let mut i: usize = 0;
        while i < self.pending_assets.len()
            invariant
                i <= pending.len(),
                self.pending_assets@ == pending,
                state.loaded_assets@ == loaded,
                kept@ == still_pending(pending.take(i as int), loaded),
                state.required_assets@ == required_after(required, pending.take(i as int), loaded),
            decreases pending.len() - i,
        {
            assert(pending.take(i + 1).drop_last() =~= pending.take(i as int));
            let id = self.pending_assets[i].0.clone();
            let path = self.pending_assets[i].1.clone();
            let was_loaded = state.is_asset_loaded(id.clone());
            if !was_loaded {
                kept.push((id, path));
            }
            i = i + 1;
        }
        assert(pending.take(pending.len() as int) =~= pending);
        proof {
            law_bundle_keeps_every_unloaded_entry(pending, loaded);
            law_every_missing_asset_is_required(required, pending, loaded);
        }
        self.pending_assets = kept;
        self.pending_assets.len() == 0
    }
}

/// Whether no two strings of `s` have the same characters.
pub open spec fn distinct_strings(s: Seq<String>) -> bool {
    forall|i: int, j: int| 0 <= i < j < s.len() ==> #[trigger] s[i]@ != #[trigger] s[j]@
}

/// Asking `state` for assets records each missing asset once: the required list
/// only grows, at its end, and stays free of repeats.
pub proof fn law_required_assets_recorded_once(
    required: Seq<String>,
    pending: Seq<(String, String)>,
    loaded: Seq<String>,
)
    requires
        distinct_strings(required),
    ensures
        distinct_strings(required_after(required, pending, loaded)),
        required_after(required, pending, loaded).len() >= required.len(),
        required_after(required, pending, loaded).take(required.len() as int) == required,
    decreases pending.len(),
{
    if pending.len() > 0 {
        law_required_assets_recorded_once(required, pending.drop_last(), loaded);
        let before = required_after(required, pending.drop_last(), loaded);
        let id = pending.last().0;
        if !strings_contain(loaded, id@) && !strings_contain(before, id@) {
            let after = before.push(id);
            assert forall|i: int, j: int| 0 <= i < j < after.len() implies #[trigger] after[i]@
                != #[trigger] after[j]@ by {
                if j == before.len() {
                    assert(before[i] == after[i]);
                }
            }
            assert(after.take(required.len() as int) =~= before.take(required.len() as int));
        }
    } else {
        assert(required.take(required.len() as int) =~= required);
    }
}

/// Checking a bundle a second time, with nothing loaded in between, changes
/// neither the bundle nor the required list.
pub proof fn law_is_loaded_idempotent(
    required: Seq<String>,
    pending: Seq<(String, String)>,
    loaded: Seq<String>,
)
    ensures
        still_pending(still_pending(pending, loaded), loaded) == still_pending(pending, loaded),
        required_after(
            required_after(required, pending, loaded),
            still_pending(pending, loaded),
            loaded,
        ) == required_after(required, pending, loaded),
{
    lemma_still_pending_not_loaded(pending, loaded);
    lemma_still_pending_keeps_unloaded(still_pending(pending, loaded), loaded);
    lemma_still_pending_required(required, pending, loaded);
    lemma_required_after_known(
        required_after(required, pending, loaded),
        still_pending(pending, loaded),
        loaded,
    );
}

/// The entries left pending are those whose asset is not loaded.
proof fn lemma_still_pending_not_loaded(pending: Seq<(String, String)>, loaded: Seq<String>)
    ensures
        forall|i: int|
            0 <= i < still_pending(pending, loaded).len() ==> !strings_contain(
                loaded,
                #[trigger] still_pending(pending, loaded)[i].0@,
            ),
    decreases pending.len(),
{
    if pending.len() > 0 {
        let rest = still_pending(pending.drop_last(), loaded);
        lemma_still_pending_not_loaded(pending.drop_last(), loaded);
        assert forall|i: int| 0 <= i < still_pending(pending, loaded).len() implies !strings_contain(
            loaded,
            #[trigger] still_pending(pending, loaded)[i].0@,
        ) by {
            if i < rest.len() {
                assert(still_pending(pending, loaded)[i] == rest[i]);
            }
        }
    }
}

/// Entries whose assets are none loaded all stay pending.
proof fn lemma_still_pending_keeps_unloaded(pending: Seq<(String, String)>, loaded: Seq<String>)
    requires
        forall|i: int| 0 <= i < pending.len() ==> !strings_contain(loaded, #[trigger] pending[i].0@),
    ensures
        still_pending(pending, loaded) == pending,
    decreases pending.len(),
{
    if pending.len() > 0 {
        lemma_still_pending_keeps_unloaded(pending.drop_last(), loaded);
        assert(pending.drop_last().push(pending.last()) =~= pending);
    } else {
        assert(still_pending(pending, loaded) =~= pending);
    }
}

/// Every asset left pending is recorded as required.
proof fn lemma_still_pending_required(
    required: Seq<String>,
    pending: Seq<(String, String)>,
    loaded: Seq<String>,
)
    ensures
        forall|i: int|
            0 <= i < still_pending(pending, loaded).len() ==> strings_contain(
                required_after(required, pending, loaded),
                #[trigger] still_pending(pending, loaded)[i].0@,
            ),
    decreases pending.len(),
{
    if pending.len() > 0 {
        let rest = pending.drop_last();
        lemma_still_pending_required(required, rest, loaded);
        let before = required_after(required, rest, loaded);
        let after = required_after(required, pending, loaded);
        let id = pending.last().0;
        assert forall|i: int| 0 <= i < still_pending(rest, loaded).len() implies strings_contain(
            after,
            #[trigger] still_pending(rest, loaded)[i].0@,
        ) by {
            let s = still_pending(rest, loaded)[i].0@;
            let k = choose|k: int| 0 <= k < before.len() && #[trigger] before[k]@ == s;
            assert(before.push(id)[k]@ == s);
        }
        if !strings_contain(loaded, id@) && !strings_contain(before, id@) {
            assert(before.push(id)[before.len() as int]@ == id@);
        }
    }
}

/// Recording assets that are all already required changes nothing.
proof fn lemma_required_after_known(
    required: Seq<String>,
    pending: Seq<(String, String)>,
    loaded: Seq<String>,
)
    requires
        forall|i: int| 0 <= i < pending.len() ==> strings_contain(required, #[trigger] pending[i].0@),
    ensures
        required_after(required, pending, loaded) == required,
    decreases pending.len(),
{
    if pending.len() > 0 {
        assert forall|i: int| 0 <= i < pending.drop_last().len() implies strings_contain(
            required,
            #[trigger] pending.drop_last()[i].0@,
        ) by {
            assert(pending.drop_last()[i] == pending[i]);
        }
        lemma_required_after_known(required, pending.drop_last(), loaded);
        assert(strings_contain(required, pending[pending.len() - 1].0@));
    }
}

} // verus!

verus! {

/// Whether the asset of entry `e` is not among `loaded`.
pub open spec fn entry_not_loaded(loaded: Seq<String>, e: (String, String)) -> bool {
    !strings_contain(loaded, e.0@)
}

/// A bundle keeps exactly its entries whose asset is not loaded, in their order:
/// every such entry, and no other, whatever the other entries are.
pub proof fn law_bundle_keeps_every_unloaded_entry(
    pending: Seq<(String, String)>,
    loaded: Seq<String>,
)
    ensures
        still_pending(pending, loaded) == pending.filter(|e: (String, String)| entry_not_loaded(loaded, e)),
        forall|i: int|
            0 <= i < pending.len() && entry_not_loaded(loaded, #[trigger] pending[i]) ==> still_pending(
                pending,
                loaded,
            ).contains(pending[i]),
        forall|k: int|
            0 <= k < still_pending(pending, loaded).len() ==> entry_not_loaded(
                loaded,
                #[trigger] still_pending(pending, loaded)[k],
            ) && pending.contains(still_pending(pending, loaded)[k]),
    decreases pending.len(),
{
    let f = |e: (String, String)| entry_not_loaded(loaded, e);
    reveal_with_fuel(Seq::filter, 1);
    if pending.len() > 0 {
        law_bundle_keeps_every_unloaded_entry(pending.drop_last(), loaded);
        assert(still_pending(pending, loaded) =~= pending.filter(f));
    } else {
        assert(still_pending(pending, loaded) =~= pending.filter(f));
    }
    assert forall|i: int| 0 <= i < pending.len() && entry_not_loaded(loaded, #[trigger] pending[i]) implies still_pending(
        pending,
        loaded,
    ).contains(pending[i]) by {
        pending.lemma_filter_contains(f, i);
    }
    assert forall|k: int| 0 <= k < still_pending(pending, loaded).len() implies entry_not_loaded(
        loaded,
        #[trigger] still_pending(pending, loaded)[k],
    ) && pending.contains(still_pending(pending, loaded)[k]) by {
        let kept = pending.filter(f);
        pending.lemma_filter_pred(f, k);
        assert(kept.contains(kept[k]));
        pending.lemma_filter_contains_rev(f, kept[k]);
    }
}

/// Asking for a bundle records the asset of every entry that is not loaded, and
/// records nothing else: every recorded asset was required before or belongs to
/// an entry of the bundle that is not loaded.
pub proof fn law_every_missing_asset_is_required(
    required: Seq<String>,
    pending: Seq<(String, String)>,
    loaded: Seq<String>,
)
    ensures
        forall|s: Seq<char>| #[trigger] strings_contain(required, s) ==> strings_contain(
            required_after(required, pending, loaded),
            s,
        ),
        forall|i: int|
            0 <= i < pending.len() && !strings_contain(loaded, #[trigger] pending[i].0@) ==> strings_contain(
                required_after(required, pending, loaded),
                pending[i].0@,
            ),
        forall|k: int|
            0 <= k < required_after(required, pending, loaded).len() ==> strings_contain(
                required,
                #[trigger] required_after(required, pending, loaded)[k]@,
            ) || exists|i: int|
                0 <= i < pending.len() && !strings_contain(loaded, pending[i].0@) && pending[i].0@
                    == required_after(required, pending, loaded)[k]@,
    decreases pending.len(),
{
    if pending.len() > 0 {
        let rest = pending.drop_last();
        law_every_missing_asset_is_required(required, rest, loaded);
        let before = required_after(required, rest, loaded);
        let after = required_after(required, pending, loaded);
        let last = pending.last();
        assert forall|s: Seq<char>| #[trigger] strings_contain(before, s) implies strings_contain(after, s) by {
            let k = choose|k: int| 0 <= k < before.len() && #[trigger] before[k]@ == s;
            if after != before {
                assert(after == before.push(last.0));
                assert(after[k] == before[k]);
            }
        }
        assert forall|s: Seq<char>| #[trigger] strings_contain(required, s) implies strings_contain(after, s) by {
            assert(strings_contain(before, s));
        }
        assert forall|i: int|
            0 <= i < pending.len() && !strings_contain(loaded, #[trigger] pending[i].0@) implies strings_contain(
                after,
                pending[i].0@,
            ) by {
            if i < rest.len() {
                assert(rest[i] == pending[i]);
                assert(strings_contain(before, pending[i].0@));
            } else if !strings_contain(before, last.0@) {
                assert(after[before.len() as int] == last.0);
            } else {
                assert(strings_contain(before, last.0@));
            }
        }
        assert forall|k: int| 0 <= k < after.len() implies strings_contain(
            required,
            #[trigger] after[k]@,
        ) || exists|i: int|
            0 <= i < pending.len() && !strings_contain(loaded, pending[i].0@) && pending[i].0@
                == after[k]@ by {
            if k < before.len() {
                assert(after[k] == before[k]);
                if !strings_contain(required, before[k]@) {
                    let i = choose|i: int|
                        0 <= i < rest.len() && !strings_contain(loaded, rest[i].0@) && rest[i].0@
                            == before[k]@;
                    assert(pending[i] == rest[i]);
                }
            } else {
                assert(after[k] == last.0);
                assert(pending[pending.len() - 1] == last);
            }
        }
    }
}

} // verus!
