use vstd::prelude::*;

use crate::eren_core::game_world::state::assets::{
    not_ready, pending_after, AssetId, AssetsState,
};

verus! {

/// The models that a screen needs, each with the path it is loaded from.
pub struct AssetBundle {
    pending_model_assets: Vec<(AssetId, &'static str)>,
}

impl View for AssetBundle {
    type V = Seq<(AssetId, &'static str)>;

    closed spec fn view(&self) -> Seq<(AssetId, &'static str)> {
        self.pending_model_assets@
    }
}

impl AssetBundle {
    pub fn new(model_assets: Vec<(AssetId, &'static str)>) -> (bundle: Self)
        ensures
            bundle@ == model_assets@,
    {
        AssetBundle { pending_model_assets: model_assets }
    }

    /// Whether every model of the bundle is ready; those that are not are asked
    /// of the engine through `model_assets.pending`.
    pub fn is_loaded(&mut self, model_assets: &mut AssetsState) -> (loaded: bool)
        ensures
            final(self)@ == not_ready(old(self)@, old(model_assets).ready@),
            loaded == (final(self)@.len() == 0),
            final(model_assets).ready@ == old(model_assets).ready@,
            final(model_assets).pending@ == pending_after(
                old(model_assets).pending@,
                old(model_assets).ready@,
                old(self)@,
            ),
    {
        model_assets.check_bundle(&mut self.pending_model_assets)
    }
}

} // verus!
