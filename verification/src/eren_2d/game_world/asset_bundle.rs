use vstd::prelude::*;

use crate::eren_core::game_world::state::assets::{
    not_ready, pending_after, AssetId, AssetsState,
};

verus! {

/// The sprites that a screen needs, each with the path it is loaded from.
pub struct AssetBundle {
    pending_sprite_assets: Vec<(AssetId, &'static str)>,
}

impl View for AssetBundle {
    type V = Seq<(AssetId, &'static str)>;

    closed spec fn view(&self) -> Seq<(AssetId, &'static str)> {
        self.pending_sprite_assets@
    }
}

impl AssetBundle {
    pub fn new(sprite_assets: Vec<(AssetId, &'static str)>) -> (bundle: Self)
        ensures
            bundle@ == sprite_assets@,
    {
        AssetBundle { pending_sprite_assets: sprite_assets }
    }

    /// Whether every sprite of the bundle is ready; those that are not are asked
    /// of the engine through `sprite_assets.pending`.
    pub fn is_loaded(&mut self, sprite_assets: &mut AssetsState) -> (loaded: bool)
        ensures
            final(self)@ == not_ready(old(self)@, old(sprite_assets).ready@),
            loaded == (final(self)@.len() == 0),
            final(sprite_assets).ready@ == old(sprite_assets).ready@,
            final(sprite_assets).pending@ == pending_after(
                old(sprite_assets).pending@,
                old(sprite_assets).ready@,
                old(self)@,
            ),
    {
        if self.pending_sprite_assets.len() == 0 {
            proof {
                reveal_with_fuel(Seq::filter, 1);
                assert(pending_after(
                    sprite_assets.pending@,
                    sprite_assets.ready@,
                    self.pending_sprite_assets@,
                ) =~= sprite_assets.pending@);
            }
            return true;
        }
        sprite_assets.check_bundle(&mut self.pending_sprite_assets)
    }
}

} // verus!
