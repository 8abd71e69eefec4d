use std::collections::HashMap;

use vstd::prelude::*;
use vstd::std_specs::iter::IteratorSpec;

use crate::eren_core::game_world::state::assets::AssetId;

verus! {

broadcast use vstd::std_specs::hash::group_hash_axioms;

/// `ids` names each key of `m` exactly once, in some order.
pub open spec fn names_each_key_once<V>(ids: Seq<AssetId>, m: Map<AssetId, V>) -> bool {
    &&& ids.no_duplicates()
    &&& ids.to_set() == m.dom()
}

/// The assets of an asset manager: the CPU-side data of every asset loaded
/// (decoded images, parsed models), and the GPU resources made from them, which
/// exist only while the GPU device does.
pub struct GpuAssetCache<D, R> {
    loaded: HashMap<AssetId, D>,
    gpu_resources: HashMap<AssetId, R>,
    gpu_ready: bool,
}

impl<D, R> GpuAssetCache<D, R> {
    pub closed spec fn loaded(&self) -> Map<AssetId, D> {
        self.loaded@
    }

    pub closed spec fn gpu_resources(&self) -> Map<AssetId, R> {
        self.gpu_resources@
    }

    pub closed spec fn gpu_ready(&self) -> bool {
        self.gpu_ready
    }

    /// Resources exist only while the GPU does, and then for every loaded asset.
    pub open spec fn wf(&self) -> bool {
        &&& !self.gpu_ready() ==> self.gpu_resources().dom().is_empty()
        &&& self.gpu_ready() ==> self.gpu_resources().dom() == self.loaded().dom()
    }

    pub fn new() -> (cache: Self)
        ensures
            cache.wf(),
            !cache.gpu_ready(),
            cache.loaded() == Map::<AssetId, D>::empty(),
            cache.gpu_resources() == Map::<AssetId, R>::empty(),
    {
        GpuAssetCache { loaded: HashMap::new(), gpu_resources: HashMap::new(), gpu_ready: false }
    }

    /// Whether the GPU device exists.
    pub fn is_gpu_ready(&self) -> (ready: bool)
        ensures
            ready == self.gpu_ready(),
    {
        self.gpu_ready
    }

    /// Every loaded asset, each once, in the order in which the table is walked.
    pub fn loaded_assets(&self) -> (ids: Vec<AssetId>)
        ensures
            names_each_key_once(ids@, self.loaded()),
    {
        let ghost walked = vstd::std_specs::hash::spec_keys_iter(&self.loaded).remaining();
        let ghost keys = walked.unref();
        assert(keys.to_set() == self.loaded@.dom());
        assert(keys.no_duplicates()) by {
            assert forall|i: int, j: int|
                0 <= i < keys.len() && 0 <= j < keys.len() && i != j implies keys[i] != keys[j] by {
                assert(walked[i] != walked[j]);
            }
        }
        let mut ids: Vec<AssetId> = Vec::new();
        for id in it: self.loaded.keys()
            invariant
                it.seq().unref() == keys,
                it.seq().len() == keys.len(),
                ids@ == keys.take(it.index() as int),
        {
            assert(keys.take(it.index() + 1) =~= keys.take(it.index() as int).push(*id));
            ids.push(*id);
        }
        assert(keys.take(keys.len() as int) =~= keys);
        ids
    }

    /// The GPU device now exists: makes the resource of every loaded asset with
    /// `upload`, from the asset's data.
    pub fn on_gpu_resources_ready<F: Fn(&D) -> R>(&mut self, upload: F)
        requires
            old(self).wf(),
            !old(self).gpu_ready(),
            forall|d: &D| upload.requires((d,)),
        ensures
            final(self).wf(),
            final(self).gpu_ready(),
            final(self).loaded() == old(self).loaded(),
            forall|a: AssetId|
                #[trigger] final(self).gpu_resources().contains_key(a) ==> upload.ensures(
                    (&old(self).loaded()[a],),
                    final(self).gpu_resources()[a],
                ),
    {
        let ids = self.loaded_assets();
        let ghost loaded = self.loaded@;
        let mut i: usize = 0;
        while i < ids.len()
            invariant
                names_each_key_once(ids@, loaded),
                self.loaded@ == loaded,
                !self.gpu_ready,
                i <= ids@.len(),
                forall|d: &D| upload.requires((d,)),
                forall|a: AssetId|
                    #[trigger] self.gpu_resources@.contains_key(a) <==> ids@.take(i as int).contains(a),
                forall|a: AssetId|
                    #[trigger] self.gpu_resources@.contains_key(a) ==> upload.ensures(
                        (&loaded[a],),
                        self.gpu_resources@[a],
                    ),
            decreases ids@.len() - i,
        {
            let id = ids[i];
            assert(ids@.contains(id));
            assert(loaded.contains_key(id));
            assert(ids@.take(i + 1) =~= ids@.take(i as int).push(id));
            if let Some(d) = self.loaded.get(&id) {
                let r = upload(d);
                self.gpu_resources.insert(id, r);
            }
            assert forall|a: AssetId| #[trigger] self.gpu_resources@.contains_key(a) <==> ids@.take(
                i + 1,
            ).contains(a) by {
                let before = ids@.take(i as int);
                let after = ids@.take(i + 1);
                assert(after[i as int] == id);
                if before.contains(a) {
                    let k = choose|k: int| 0 <= k < before.len() && before[k] == a;
                    assert(after[k] == a);
                }
                if after.contains(a) && a != id {
                    let k = choose|k: int| 0 <= k < after.len() && after[k] == a;
                    assert(before[k] == a);
                }
            }
            i = i + 1;
        }
        assert(ids@.take(ids@.len() as int) =~= ids@);
        assert(self.gpu_resources@.dom() =~= loaded.dom()) by {
            assert forall|a: AssetId| #[trigger] loaded.dom().contains(a) implies self.gpu_resources@.dom().contains(a) by {
                assert(ids@.to_set().contains(a));
            }
        }
        self.gpu_ready = true;
    }

    /// The GPU device is gone, and every resource made on it.
    pub fn on_gpu_resources_lost(&mut self)
        requires
            old(self).wf(),
        ensures
            final(self).wf(),
            !final(self).gpu_ready(),
            final(self).loaded() == old(self).loaded(),
            final(self).gpu_resources() == Map::<AssetId, R>::empty(),
    {
        self.gpu_ready = false;
        self.gpu_resources.clear();
    }

    /// Keeps the CPU-side data of `asset`, and, while the GPU exists, makes its
    /// resource with `upload`: answers the resource it replaces, if any.
    pub fn load<F: Fn(&D) -> R>(&mut self, asset: AssetId, data: D, upload: F) -> (replaced: Option<R>)
        requires
            old(self).wf(),
            upload.requires((&data,)),
        ensures
            final(self).wf(),
            final(self).gpu_ready() == old(self).gpu_ready(),
            final(self).loaded() == old(self).loaded().insert(asset, data),
            !old(self).gpu_ready() ==> final(self).gpu_resources() == old(self).gpu_resources()
                && replaced is None,
            old(self).gpu_ready() ==> {
                &&& final(self).gpu_resources().contains_key(asset)
                &&& upload.ensures((&data,), final(self).gpu_resources()[asset])
                &&& final(self).gpu_resources() == old(self).gpu_resources().insert(
                    asset,
                    final(self).gpu_resources()[asset],
                )
                &&& replaced == (if old(self).gpu_resources().contains_key(asset) {
                    Some(old(self).gpu_resources()[asset])
                } else {
                    None
                })
            },
    {
        let replaced = if self.gpu_ready {
            let r = upload(&data);
            self.gpu_resources.insert(asset, r)
        } else {
            None
        };
        self.loaded.insert(asset, data);
        proof {
            if self.gpu_ready {
                assert(self.gpu_resources@.dom() =~= self.loaded@.dom());
            }
        }
        replaced
    }

    /// The CPU-side data of `asset`, if it was loaded.
    pub fn loaded_data(&self, asset: AssetId) -> (data: Option<&D>)
        ensures
            match data {
                Some(d) => self.loaded().contains_key(asset) && *d == self.loaded()[asset],
                None => !self.loaded().contains_key(asset),
            },
    {
        self.loaded.get(&asset)
    }

    /// The GPU resource of `asset`, if it has one.
    pub fn get_gpu_resource(&self, asset: AssetId) -> (resource: Option<&R>)
        ensures
            match resource {
                Some(r) => self.gpu_resources().contains_key(asset) && *r
                    == self.gpu_resources()[asset],
                None => !self.gpu_resources().contains_key(asset),
            },
    {
        self.gpu_resources.get(&asset)
    }
}

/// A loaded asset has a GPU resource exactly while the GPU exists.
pub proof fn law_resource_iff_loaded_and_ready<D, R>(cache: GpuAssetCache<D, R>, asset: AssetId)
    requires
        cache.wf(),
    ensures
        cache.gpu_resources().contains_key(asset) <==> (cache.gpu_ready() && cache.loaded().contains_key(
            asset,
        )),
{
}

/// The requests, by index, whose asset has a GPU resource in `resources`, in order:
/// the ones a frame draws.
pub open spec fn drawable_indices<R>(asset_ids: Seq<AssetId>, resources: Map<AssetId, R>) -> Seq<
    usize,
>
    decreases asset_ids.len(),
{
    if asset_ids.len() == 0 {
        Seq::empty()
    } else {
        let before = drawable_indices(asset_ids.drop_last(), resources);
        if resources.contains_key(asset_ids.last()) {
            before.push((asset_ids.len() - 1) as usize)
        } else {
            before
        }
    }
}

impl<D, R> GpuAssetCache<D, R> {
    /// Of the render requests for `asset_ids`, in order, those that can be drawn:
    /// their asset has a GPU resource. The others are skipped this frame.
    pub fn drawable_requests(&self, asset_ids: &Vec<AssetId>) -> (drawable: Vec<usize>)
        ensures
            drawable@ == drawable_indices(asset_ids@, self.gpu_resources()),
            forall|k: int|
                0 <= k < drawable@.len() ==> (#[trigger] drawable@[k]) < asset_ids@.len()
                    && self.gpu_resources().contains_key(asset_ids@[drawable@[k] as int]),
            forall|i: int|
                0 <= i < asset_ids@.len() && self.gpu_resources().contains_key(#[trigger] asset_ids@[i])
                    ==> exists|k: int| 0 <= k < drawable@.len() && drawable@[k] == i,
            forall|k: int, l: int|
                0 <= k < l < drawable@.len() ==> #[trigger] drawable@[k] < #[trigger] drawable@[l],
    {
        let mut drawable: Vec<usize> = Vec::new();
        let mut i: usize = 0;
        while i < asset_ids.len()
            invariant
                i <= asset_ids@.len(),
                drawable@ == drawable_indices(asset_ids@.take(i as int), self.gpu_resources()),
            decreases asset_ids@.len() - i,
        {
            assert(asset_ids@.take(i + 1).drop_last() =~= asset_ids@.take(i as int));
            if self.gpu_resources.contains_key(&asset_ids[i]) {
                drawable.push(i);
            }
            i = i + 1;
        }
        assert(asset_ids@.take(i as int) =~= asset_ids@);
        proof {
            law_drawable_requests_exact(asset_ids@, self.gpu_resources());
        }
        drawable
    }
}

} // verus!

verus! {

/// The requests drawn are exactly those whose asset has a GPU resource, each
/// judged on its own, in increasing order: request `i` is drawn iff `resources`
/// holds `asset_ids[i]`.
pub proof fn law_drawable_requests_exact<R>(asset_ids: Seq<AssetId>, resources: Map<AssetId, R>)
    requires
        asset_ids.len() <= usize::MAX,
    ensures
        forall|k: int|
            0 <= k < drawable_indices(asset_ids, resources).len() ==> {
                let i = #[trigger] drawable_indices(asset_ids, resources)[k];
                &&& i < asset_ids.len()
                &&& resources.contains_key(asset_ids[i as int])
            },
        forall|i: int|
            0 <= i < asset_ids.len() && resources.contains_key(#[trigger] asset_ids[i]) ==> exists|k: int|
                0 <= k < drawable_indices(asset_ids, resources).len() && drawable_indices(
                    asset_ids,
                    resources,
                )[k] == i,
        forall|k: int, l: int|
            0 <= k < l < drawable_indices(asset_ids, resources).len() ==> #[trigger] drawable_indices(
                asset_ids,
                resources,
            )[k] < #[trigger] drawable_indices(asset_ids, resources)[l],
    decreases asset_ids.len(),
{
    if asset_ids.len() > 0 {
        let rest = asset_ids.drop_last();
        law_drawable_requests_exact(rest, resources);
        let before = drawable_indices(rest, resources);
        let d = drawable_indices(asset_ids, resources);
        assert forall|k: int| 0 <= k < before.len() implies #[trigger] d[k] == before[k] by {}
        assert forall|i: int|
            0 <= i < asset_ids.len() && resources.contains_key(#[trigger] asset_ids[i]) implies exists|k: int|
                0 <= k < d.len() && d[k] == i by {
            if i < rest.len() {
                assert(rest[i] == asset_ids[i]);
                let k = choose|k: int| 0 <= k < before.len() && before[k] == i;
                assert(d[k] == i);
            } else {
                assert(d[before.len() as int] == i);
            }
        }
        assert forall|k: int| 0 <= k < d.len() implies (#[trigger] d[k]) < asset_ids.len()
            && resources.contains_key(asset_ids[d[k] as int]) by {
            if k < before.len() {
                assert(rest[before[k] as int] == asset_ids[before[k] as int]);
            }
        }
    }
}

} // verus!
