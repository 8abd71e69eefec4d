pub mod sprite_asset_manager;
