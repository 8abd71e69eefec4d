use vstd::prelude::*;
use vstd::string::StringSliceAdditionalSpecFns;
use vstd::utf8::encode_utf8;

use crate::eren_core::game::state::{contains_string, strings_contain};

verus! {

/// The byte `.`.
pub const DOT: u8 = 46;

/// The index of the last `.` of `bytes`, or -1 when there is none.
pub open spec fn last_dot(bytes: Seq<u8>) -> int
    decreases bytes.len(),
{
    if bytes.len() == 0 {
        -1
    } else if bytes.last() == DOT {
        bytes.len() - 1
    } else {
        last_dot(bytes.drop_last())
    }
}

/// The extension of a path: what follows its last `.`, or the whole path when it
/// has none.
pub open spec fn extension_of(bytes: Seq<u8>) -> Seq<u8> {
    bytes.subrange(last_dot(bytes) + 1, bytes.len() as int)
}

/// Where the extension of `path` starts: just after its last `.`, or at 0.
pub fn extension_start(path: &[u8]) -> (start: usize)
    ensures
        start == last_dot(path@) + 1,
        start <= path@.len(),
{
    let mut i: usize = path.len();
    assert(path@.take(i as int) =~= path@);
    while i > 0
        invariant
            i <= path@.len(),
            forall|k: int| i <= k < path@.len() ==> path@[k] != DOT,
            last_dot(path@) == last_dot(path@.take(i as int)),
        decreases i,
    {
        assert(path@.take(i as int).drop_last() =~= path@.take(i - 1));
        if path[i - 1] == DOT {
            return i;
        }
        i = i - 1;
    }
    assert(path@.take(0) =~= Seq::<u8>::empty());
    0
}

/// Whether `bytes` from `start` on are exactly `expected`.
pub fn suffix_equals(bytes: &[u8], start: usize, expected: &[u8]) -> (equal: bool)
    requires
        start <= bytes@.len(),
    ensures
        equal == (bytes@.subrange(start as int, bytes@.len() as int) == expected@),
{
    if bytes.len() - start != expected.len() {
        proof {
            assert(bytes@.subrange(start as int, bytes@.len() as int).len() != expected@.len());
        }
        return false;
    }
    let n = bytes.len();
    let mut i: usize = 0;
    while i < expected.len()
        invariant
            n == bytes@.len(),
            start <= bytes@.len(),
            start + expected@.len() == bytes@.len(),
            i <= expected@.len(),
            forall|k: int| 0 <= k < i ==> bytes@[start + k] == expected@[k],
        decreases expected@.len() - i,
    {
        assert(start + i < n);
        if bytes[start + i] != expected[i] {
            assert(bytes@.subrange(start as int, bytes@.len() as int)[i as int] != expected@[i as int]);
            return false;
        }
        i = i + 1;
    }
    assert(bytes@.subrange(start as int, bytes@.len() as int) =~= expected@);
    true
}

/// The index of the first loader whose extension's UTF-8 bytes are the extension
/// of `path`, if any.
pub open spec fn loader_for(extensions: Seq<String>, path: Seq<char>) -> Option<int> {
    if exists|k: int|
        0 <= k < extensions.len() && encode_utf8(#[trigger] extensions[k]@) == extension_of(
            encode_utf8(path),
        ) {
        Some(
            choose|k: int|
                0 <= k < extensions.len() && encode_utf8(#[trigger] extensions[k]@)
                    == extension_of(encode_utf8(path)) && forall|j: int|
                    0 <= j < k ==> encode_utf8(#[trigger] extensions[j]@) != extension_of(
                        encode_utf8(path),
                    ),
        )
    } else {
        None
    }
}

/// The asset list and load requests after `required`, in order, has been seen: an
/// asset not yet loading starts loading, through the loader for its extension
/// when there is one.
pub open spec fn loading_after(
    extensions: Seq<String>,
    loading: Seq<String>,
    required: Seq<String>,
) -> (Seq<String>, Seq<(usize, String)>)
    decreases required.len(),
{
    if required.len() == 0 {
        (loading, Seq::empty())
    } else {
        let (before, requests) = loading_after(extensions, loading, required.drop_last());
        let asset = required.last();
        if strings_contain(before, asset@) {
            (before, requests)
        } else {
            match loader_for(extensions, asset@) {
                Some(k) => (before.push(asset), requests.push((k as usize, asset))),
                None => (before.push(asset), requests),
            }
        }
    }
}

/// Each asset path is handed to a loader at most once: a request is for a path
/// that was not loading yet, no two requests of a call share a path, every
/// requested path is loading afterwards, and the loading list only grows at its
/// end, so no later call asks for it again.
pub proof fn law_each_asset_handed_out_once(
    extensions: Seq<String>,
    loading: Seq<String>,
    required: Seq<String>,
)
    ensures
        ({
            let (after, requests) = loading_after(extensions, loading, required);
            &&& after.len() >= loading.len()
            &&& after.take(loading.len() as int) == loading
            &&& forall|i: int|
                0 <= i < requests.len() ==> !strings_contain(loading, #[trigger] requests[i].1@)
                    && strings_contain(after, requests[i].1@)
            &&& forall|i: int, j: int|
                0 <= i < j < requests.len() ==> #[trigger] requests[i].1@ != #[trigger] requests[j].1@
        }),
    decreases required.len(),
{
    if required.len() == 0 {
        assert(loading.take(loading.len() as int) =~= loading);
    } else {
        law_each_asset_handed_out_once(extensions, loading, required.drop_last());
        let (before, reqs) = loading_after(extensions, loading, required.drop_last());
        let asset = required.last();
        if !strings_contain(before, asset@) {
            let after = before.push(asset);
            assert(after.take(loading.len() as int) =~= before.take(loading.len() as int));
            assert(after[before.len() as int] == asset);
            assert forall|i: int| 0 <= i < reqs.len() implies strings_contain(after, #[trigger] reqs[i].1@) by {
                let k = choose|k: int| 0 <= k < before.len() && #[trigger] before[k]@ == reqs[i].1@;
                assert(after[k] == before[k]);
            }
            assert(!strings_contain(loading, asset@)) by {
                if strings_contain(loading, asset@) {
                    let k = choose|k: int| 0 <= k < loading.len() && #[trigger] loading[k]@ == asset@;
                    assert(before.take(loading.len() as int)[k] == before[k]);
                    assert(before[k]@ == asset@);
                }
            }
        }
    }
}

/// Loads the assets of one file extension, and makes their GPU resources while
/// the surface's device exists. Implemented by users of the engine.
///
/// `handed` and `has_device` describe a loader for the contracts below. Their
/// default bodies only let implementations written outside Verus compile: code
/// that is generic over the trait never sees them, and for such implementations
/// the contracts are trusted, not checked.
pub trait WgpuAssetLoader {
    type Device;
    type Queue;

    /// The asset paths handed to the loader so far, in order.
    closed spec fn handed(&self) -> Seq<String> {
        Seq::empty()
    }

    /// Whether the loader holds a device to make GPU resources on.
    closed spec fn has_device(&self) -> bool {
        false
    }

    fn load(&mut self, path: String)
        ensures
            final(self).handed() == old(self).handed().push(path),
            final(self).has_device() == old(self).has_device(),
    ;

    fn surface_created(&mut self, device: &Self::Device, queue: &Self::Queue)
        ensures
            final(self).has_device(),
            final(self).handed() == old(self).handed(),
    ;

    fn surface_destroyed(&mut self)
        ensures
            !final(self).has_device(),
            final(self).handed() == old(self).handed(),
    ;
}

/// The paths of `requests` made to the loader in `slot`, in order.
pub open spec fn requests_for(requests: Seq<(usize, String)>, slot: int) -> Seq<String>
    decreases requests.len(),
{
    if requests.len() == 0 {
        Seq::empty()
    } else {
        let before = requests_for(requests.drop_last(), slot);
        if requests.last().0 == slot {
            before.push(requests.last().1)
        } else {
            before
        }
    }
}

/// Routes asset paths to the loader registered for their extension, and
/// remembers which assets were already handed to a loader.
pub struct WgpuAssetManager<L> {
    loader_extensions: Vec<String>,
    loaders: Vec<L>,
    loading_assets: Vec<String>,
}

impl<L> WgpuAssetManager<L> {
    /// The extensions that have a loader; loader `k` serves the `k`-th.
    pub closed spec fn loader_extensions(&self) -> Seq<String> {
        self.loader_extensions@
    }

    /// The loaders, by slot.
    pub closed spec fn loaders(&self) -> Seq<L> {
        self.loaders@
    }

    /// Each extension has its loader, and no extension is registered twice.
    pub open spec fn wf(&self) -> bool {
        &&& self.loaders().len() == self.loader_extensions().len()
        &&& forall|i: int, j: int|
            0 <= i < j < self.loader_extensions().len() ==> #[trigger] self.loader_extensions()[i]@
                != #[trigger] self.loader_extensions()[j]@
    }

    /// The assets already handed out, in order.
    pub closed spec fn loading_assets(&self) -> Seq<String> {
        self.loading_assets@
    }

    pub fn new() -> (manager: Self)
        ensures
            manager.wf(),
            manager.loader_extensions() == Seq::<String>::empty(),
            manager.loaders() == Seq::<L>::empty(),
            manager.loading_assets() == Seq::<String>::empty(),
    {
        WgpuAssetManager { loader_extensions: Vec::new(), loaders: Vec::new(), loading_assets: Vec::new() }
    }

    /// Registers `loader` for `extension`, in place of the one it had: answers the
    /// loader's slot.
    pub fn add_loader(&mut self, extension: String, loader: L) -> (slot: usize)
        requires
            old(self).wf(),
        ensures
            final(self).wf(),
            final(self).loading_assets() == old(self).loading_assets(),
            strings_contain(old(self).loader_extensions(), extension@) ==> {
                &&& final(self).loader_extensions() == old(self).loader_extensions()
                &&& slot < old(self).loader_extensions().len()
                &&& old(self).loader_extensions()[slot as int]@ == extension@
                &&& final(self).loaders() == old(self).loaders().update(slot as int, loader)
            },
            !strings_contain(old(self).loader_extensions(), extension@) ==> {
                &&& final(self).loader_extensions() == old(self).loader_extensions().push(extension)
                &&& slot == old(self).loader_extensions().len()
                &&& final(self).loaders() == old(self).loaders().push(loader)
            },
    {
        let mut i: usize = 0;
        while i < self.loader_extensions.len()
            invariant
                self.loader_extensions@ == old(self).loader_extensions@,
                self.loaders@ == old(self).loaders@,
                self.loading_assets@ == old(self).loading_assets@,
                self.wf(),
                i <= self.loader_extensions@.len(),
                forall|j: int| 0 <= j < i ==> #[trigger] self.loader_extensions@[j]@ != extension@,
            decreases self.loader_extensions@.len() - i,
        {
            if self.loader_extensions[i] == extension {
                self.loaders.set(i, loader);
                return i;
            }
            i = i + 1;
        }
        self.loader_extensions.push(extension);
        self.loaders.push(loader);
        i
    }

    /// The loader in `slot`.
    pub fn loader(&self, slot: usize) -> (loader: &L)
        requires
            slot < self.loaders().len(),
        ensures
            *loader == self.loaders()[slot as int],
    {
        &self.loaders[slot]
    }

    /// The loader for `path`'s extension, if one is registered.
    pub fn find_loader(&self, path: &String) -> (slot: Option<usize>)
        ensures
            slot matches Some(k) ==> k < self.loader_extensions().len(),
            slot == (match loader_for(self.loader_extensions(), path@) {
                Some(k) => Some(k as usize),
                None => None,
            }),
    {
        let bytes = path.as_str().as_bytes();
        let start = extension_start(bytes);
        let ghost ext = extension_of(encode_utf8(path@));
        let mut k: usize = 0;
        while k < self.loader_extensions.len()
            invariant
                bytes@ == encode_utf8(path@),
                start == last_dot(bytes@) + 1 <= bytes@.len(),
                ext == extension_of(bytes@),
                k <= self.loader_extensions@.len(),
                forall|j: int| 0 <= j < k ==> encode_utf8(#[trigger] self.loader_extensions@[j]@) != ext,
            decreases self.loader_extensions@.len() - k,
        {
            let candidate = self.loader_extensions[k].as_str().as_bytes();
            if suffix_equals(bytes, start, candidate) {
                proof {
                    let found = k as int;
                    assert(encode_utf8(self.loader_extensions@[found]@) == ext);
                    let chosen = choose|c: int|
                        0 <= c < self.loader_extensions@.len() && encode_utf8(
                            #[trigger] self.loader_extensions@[c]@,
                        ) == ext && forall|j: int|
                            0 <= j < c ==> encode_utf8(#[trigger] self.loader_extensions@[j]@) != ext;
                    assert(0 <= found < self.loader_extensions@.len() && encode_utf8(
                        self.loader_extensions@[found]@,
                    ) == ext && forall|j: int|
                        0 <= j < found ==> encode_utf8(#[trigger] self.loader_extensions@[j]@) != ext);
                    if chosen < found {
                    } else if chosen > found {
                    }
                    assert(chosen == found);
                }
                return Some(k);
            }
            k = k + 1;
        }
        None
    }

}

impl<L: WgpuAssetLoader> WgpuAssetManager<L> {
    /// Hands every required asset that is not loading yet to the loader for its
    /// extension, with `load`: answers those requests, as loader slot and asset
    /// path, in the order in which they were made.
    pub fn ensure_asset_loaded(&mut self, required_assets: &Vec<String>) -> (requests: Vec<
        (usize, String),
    >)
        requires
            old(self).wf(),
        ensures
            final(self).wf(),
            final(self).loaders().len() == old(self).loaders().len(),
            forall|j: int|
                0 <= j < old(self).loaders().len() ==> (#[trigger] final(self).loaders()[j]).handed()
                    == old(self).loaders()[j].handed() + requests_for(requests@, j)
                    && final(self).loaders()[j].has_device() == old(self).loaders()[j].has_device(),
            final(self).loader_extensions() == old(self).loader_extensions(),
            (final(self).loading_assets(), requests@) == loading_after(
                old(self).loader_extensions(),
                old(self).loading_assets(),
                required_assets@,
            ),
    {
        let ghost loading = self.loading_assets@;
        let ghost extensions = self.loader_extensions@;
        let mut requests: Vec<(usize, String)> = Vec::new();
        let mut i: usize = 0;
        while i < required_assets.len()
            invariant
                i <= required_assets@.len(),
                self.loader_extensions@ == extensions,
                self.loaders@.len() == extensions.len(),
                old(self).wf(),
                extensions == old(self).loader_extensions(),
                forall|j: int|
                    0 <= j < old(self).loaders().len() ==> (#[trigger] self.loaders@[j]).handed()
                        == old(self).loaders()[j].handed() + requests_for(requests@, j)
                        && self.loaders@[j].has_device() == old(self).loaders()[j].has_device(),
                (self.loading_assets@, requests@) == loading_after(
                    extensions,
                    loading,
                    required_assets@.take(i as int),
                ),
            decreases required_assets@.len() - i,
        {
            assert(required_assets@.take(i + 1).drop_last() =~= required_assets@.take(i as int));
            let asset = &required_assets[i];
            let ghost prev = loading_after(extensions, loading, required_assets@.take(i as int));
            if !contains_string(&self.loading_assets, asset) {
                let slot = self.find_loader(asset);
                self.loading_assets.push(asset.clone());
                assert(self.loading_assets@ == prev.0.push(*asset));
                if let Some(k) = slot {
                    let path = asset.clone();
                    let ghost before = requests@;
                    requests.push((k, path.clone()));
                    self.hand_to_loader(k, path);
                    assert(requests@.drop_last() == before);
                    assert forall|j: int| 0 <= j < old(self).loaders().len() implies (
                    #[trigger] self.loaders@[j]).handed() == old(self).loaders()[j].handed()
                        + requests_for(requests@, j) by {
                        if j == k {
                            assert(requests_for(requests@, j) == requests_for(before, j).push(
                                requests@.last().1,
                            ));
                        }
                    }
                }
            }
            i = i + 1;
        }
        assert(required_assets@.take(i as int) =~= required_assets@);
        requests
    }

    /// Gives `path` to the loader in `slot`.
    fn hand_to_loader(&mut self, slot: usize, path: String)
        requires
            old(self).wf(),
            slot < old(self).loaders().len(),
        ensures
            final(self).loaders() == old(self).loaders().update(slot as int, final(self).loaders()[slot as int]),
            final(self).loaders()[slot as int].handed() == old(self).loaders()[slot as int].handed().push(path),
            final(self).loaders()[slot as int].has_device() == old(self).loaders()[slot as int].has_device(),
            final(self).loader_extensions() == old(self).loader_extensions(),
            final(self).loading_assets() == old(self).loading_assets(),
    {
        self.loaders[slot].load(path);
    }

    /// Tells every loader, in slot order, that the surface's device now exists.
    pub fn surface_created(&mut self, device: &L::Device, queue: &L::Queue)
        requires
            old(self).wf(),
        ensures
            final(self).wf(),
            final(self).loaders().len() == old(self).loaders().len(),
            final(self).loader_extensions() == old(self).loader_extensions(),
            final(self).loading_assets() == old(self).loading_assets(),
            forall|j: int|
                0 <= j < final(self).loaders().len() ==> final(self).loaders()[j].has_device()
                    && (#[trigger] final(self).loaders()[j]).handed() == old(self).loaders()[j].handed(),
    {
        let mut k: usize = 0;
        while k < self.loaders.len()
            invariant
                self.loaders@.len() == old(self).loaders@.len(),
                self.loader_extensions@ == old(self).loader_extensions@,
                self.loading_assets@ == old(self).loading_assets@,
                self.wf(),
                k <= self.loaders@.len(),
                forall|j: int|
                    0 <= j < k ==> self.loaders@[j].has_device() && (#[trigger] self.loaders@[j]).handed()
                        == old(self).loaders()[j].handed(),
                forall|j: int|
                    k <= j < self.loaders@.len() ==> #[trigger] self.loaders@[j] == old(self).loaders()[j],
            decreases self.loaders@.len() - k,
        {
            self.loaders[k].surface_created(device, queue);
            k = k + 1;
        }
    }

    /// Tells every loader, in slot order, that the surface's device is gone.
    pub fn surface_destroyed(&mut self)
        requires
            old(self).wf(),
        ensures
            final(self).wf(),
            final(self).loaders().len() == old(self).loaders().len(),
            final(self).loader_extensions() == old(self).loader_extensions(),
            final(self).loading_assets() == old(self).loading_assets(),
            forall|j: int|
                0 <= j < final(self).loaders().len() ==> !final(self).loaders()[j].has_device()
                    && (#[trigger] final(self).loaders()[j]).handed() == old(self).loaders()[j].handed(),
    {
        let mut k: usize = 0;
        while k < self.loaders.len()
            invariant
                self.loaders@.len() == old(self).loaders@.len(),
                self.loader_extensions@ == old(self).loader_extensions@,
                self.loading_assets@ == old(self).loading_assets@,
                self.wf(),
                k <= self.loaders@.len(),
                forall|j: int|
                    0 <= j < k ==> !self.loaders@[j].has_device() && (#[trigger] self.loaders@[j]).handed()
                        == old(self).loaders()[j].handed(),
                forall|j: int|
                    k <= j < self.loaders@.len() ==> #[trigger] self.loaders@[j] == old(self).loaders()[j],
            decreases self.loaders@.len() - k,
        {
            self.loaders[k].surface_destroyed();
            k = k + 1;
        }
    }
}

} // verus!

verus! {

/// `last_dot` is the position of the last `.` of `bytes`: a `.` stands there and
/// none after it; it is -1 exactly when `bytes` has no `.`.
pub proof fn law_last_dot(bytes: Seq<u8>)
    ensures
        -1 <= last_dot(bytes) < bytes.len(),
        last_dot(bytes) >= 0 ==> bytes[last_dot(bytes)] == DOT,
        forall|j: int| last_dot(bytes) < j < bytes.len() ==> #[trigger] bytes[j] != DOT,
    decreases bytes.len(),
{
    if bytes.len() > 0 && bytes.last() != DOT {
        law_last_dot(bytes.drop_last());
        assert forall|j: int| last_dot(bytes) < j < bytes.len() implies #[trigger] bytes[j] != DOT by {
            if j < bytes.len() - 1 {
                assert(bytes.drop_last()[j] == bytes[j]);
            }
        }
    }
}

/// Seeing one more required asset keeps every asset that was loading.
proof fn lemma_loading_grows(extensions: Seq<String>, loading: Seq<String>, required: Seq<String>)
    requires
        required.len() > 0,
    ensures
        forall|s: Seq<char>|
            #[trigger] strings_contain(loading_after(extensions, loading, required.drop_last()).0, s)
                ==> strings_contain(loading_after(extensions, loading, required).0, s),
        strings_contain(loading_after(extensions, loading, required).0, required.last()@),
{
    let (before, reqs) = loading_after(extensions, loading, required.drop_last());
    let after = loading_after(extensions, loading, required).0;
    assert forall|s: Seq<char>| #[trigger] strings_contain(before, s) implies strings_contain(after, s) by {
        let k = choose|k: int| 0 <= k < before.len() && #[trigger] before[k]@ == s;
        if after != before {
            assert(after[k] == before[k]);
        }
    }
    if !strings_contain(before, required.last()@) {
        assert(after[before.len() as int] == required.last());
    }
}

/// Whether extension `k` of `extensions` is `ext`, and no earlier one is.
pub open spec fn first_match(extensions: Seq<String>, ext: Seq<u8>, k: int) -> bool {
    &&& 0 <= k < extensions.len()
    &&& encode_utf8(extensions[k]@) == ext
    &&& forall|j: int| 0 <= j < k ==> encode_utf8(#[trigger] extensions[j]@) != ext
}

/// When some extension among the first `n` is `ext`, a first one is.
proof fn lemma_first_match_exists(extensions: Seq<String>, ext: Seq<u8>, n: int)
    requires
        0 <= n <= extensions.len(),
        exists|k: int| 0 <= k < n && encode_utf8(#[trigger] extensions[k]@) == ext,
    ensures
        exists|k: int| first_match(extensions, ext, k),
    decreases n,
{
    if exists|k: int| 0 <= k < n - 1 && encode_utf8(#[trigger] extensions[k]@) == ext {
        lemma_first_match_exists(extensions, ext, n - 1);
    } else {
        assert(first_match(extensions, ext, n - 1));
    }
}

/// A picked loader is one of the registered ones.
proof fn lemma_loader_for_in_range(extensions: Seq<String>, path: Seq<char>)
    ensures
        loader_for(extensions, path) matches Some(k) ==> 0 <= k < extensions.len(),
{
    let ext = extension_of(encode_utf8(path));
    if exists|k: int| 0 <= k < extensions.len() && encode_utf8(#[trigger] extensions[k]@) == ext {
        lemma_first_match_exists(extensions, ext, extensions.len() as int);
        let w = choose|k: int| first_match(extensions, ext, k);
        assert(first_match(extensions, ext, w));
    }
}

/// Every load request goes to the loader that `loader_for` picks for its path.
pub proof fn law_requests_go_to_their_loader(
    extensions: Seq<String>,
    loading: Seq<String>,
    required: Seq<String>,
)
    requires
        extensions.len() <= usize::MAX,
    ensures
        forall|i: int|
            0 <= i < loading_after(extensions, loading, required).1.len() ==> loader_for(
                extensions,
                (#[trigger] loading_after(extensions, loading, required).1[i]).1@,
            ) == Some(loading_after(extensions, loading, required).1[i].0 as int),
    decreases required.len(),
{
    if required.len() > 0 {
        law_requests_go_to_their_loader(extensions, loading, required.drop_last());
        let asset = required.last();
        let pick = loader_for(extensions, asset@);
        lemma_loader_for_in_range(extensions, asset@);
        let prev = loading_after(extensions, loading, required.drop_last());
        let reqs = prev.1;
        let requests = loading_after(extensions, loading, required).1;
        if !strings_contain(prev.0, asset@) && pick is Some {
            let k = pick->0;
            assert(requests == reqs.push((k as usize, asset)));
            assert((k as usize) as int == k);
            assert forall|i: int| 0 <= i < requests.len() implies loader_for(
                extensions,
                (#[trigger] requests[i]).1@,
            ) == Some(requests[i].0 as int) by {
                if i < reqs.len() {
                    assert(requests[i] == reqs[i]);
                }
            }
        } else {
            assert(requests == reqs);
        }
    }
}

/// Every required asset is loading afterwards, and every asset that starts
/// loading and has a loader is requested.
pub proof fn law_new_assets_are_requested(
    extensions: Seq<String>,
    loading: Seq<String>,
    required: Seq<String>,
)
    ensures
        ({
            let (after, requests) = loading_after(extensions, loading, required);
            &&& forall|i: int| 0 <= i < required.len() ==> strings_contain(after, #[trigger] required[i]@)
            &&& forall|b: int|
                loading.len() <= b < after.len() && loader_for(extensions, (#[trigger] after[b])@)
                    is Some ==> exists|k: int| 0 <= k < requests.len() && requests[k].1@ == after[b]@
        }),
    decreases required.len(),
{
    if required.len() > 0 {
        let rest = required.drop_last();
        law_new_assets_are_requested(extensions, loading, rest);
        law_each_asset_handed_out_once(extensions, loading, rest);
        lemma_loading_grows(extensions, loading, required);
        let (before, reqs) = loading_after(extensions, loading, rest);
        let (after, requests) = loading_after(extensions, loading, required);
        let asset = required.last();
        assert forall|k: int| 0 <= k < reqs.len() implies #[trigger] requests[k] == reqs[k] by {}
        assert forall|i: int| 0 <= i < required.len() implies strings_contain(after, #[trigger] required[i]@) by {
            if i < rest.len() {
                assert(rest[i] == required[i]);
                assert(strings_contain(before, rest[i]@));
            }
        }
        assert forall|b: int|
            loading.len() <= b < after.len() && loader_for(extensions, (#[trigger] after[b])@)
                is Some implies exists|k: int| 0 <= k < requests.len() && requests[k].1@ == after[b]@ by {
            if b < before.len() {
                assert(after[b] == before[b]);
                let k = choose|k: int| 0 <= k < reqs.len() && reqs[k].1@ == before[b]@;
                assert(requests[k] == reqs[k]);
            } else {
                assert(after[b] == asset);
                assert(requests[reqs.len() as int].1 == asset);
            }
        }
    }
}

/// Every required asset that was not loading yet and has a loader is requested.
pub proof fn law_missing_assets_with_a_loader_are_requested(
    extensions: Seq<String>,
    loading: Seq<String>,
    required: Seq<String>,
)
    ensures
        forall|i: int|
            0 <= i < required.len() && !strings_contain(loading, #[trigger] required[i]@) && loader_for(
                extensions,
                required[i]@,
            ) is Some ==> exists|k: int|
                0 <= k < loading_after(extensions, loading, required).1.len() && loading_after(
                    extensions,
                    loading,
                    required,
                ).1[k].1@ == required[i]@,
{
    law_new_assets_are_requested(extensions, loading, required);
    law_each_asset_handed_out_once(extensions, loading, required);
    let (after, requests) = loading_after(extensions, loading, required);
    assert forall|i: int|
        0 <= i < required.len() && !strings_contain(loading, #[trigger] required[i]@) && loader_for(
            extensions,
            required[i]@,
        ) is Some implies exists|k: int| 0 <= k < requests.len() && requests[k].1@ == required[i]@ by {
        assert(strings_contain(after, required[i]@));
        let b = choose|b: int| 0 <= b < after.len() && #[trigger] after[b]@ == required[i]@;
        if b < loading.len() {
            assert(after.take(loading.len() as int)[b] == after[b]);
            assert(loading[b]@ == required[i]@);
        }
        assert(loader_for(extensions, after[b]@) is Some);
    }
}

} // verus!

verus! {

/// The paths a loader receives are those of the requests made to its slot, in
/// order, and nothing else.
pub proof fn law_requests_for_slot(requests: Seq<(usize, String)>, slot: int)
    ensures
        requests_for(requests, slot) == requests.filter(|r: (usize, String)| r.0 == slot).map_values(
            |r: (usize, String)| r.1,
        ),
    decreases requests.len(),
{
    reveal_with_fuel(Seq::filter, 1);
    if requests.len() > 0 {
        law_requests_for_slot(requests.drop_last(), slot);
        let f = |r: (usize, String)| r.0 == slot;
        let g = |r: (usize, String)| r.1;
        let sub = requests.drop_last().filter(f);
        if f(requests.last()) {
            assert(sub.push(requests.last()).map_values(g) =~= sub.map_values(g).push(requests.last().1));
        }
    } else {
        assert(requests.filter(|r: (usize, String)| r.0 == slot).map_values(|r: (usize, String)| r.1)
            =~= Seq::<String>::empty());
    }
}

} // verus!
