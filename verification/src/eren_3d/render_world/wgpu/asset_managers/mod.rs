pub mod model_asset_manager;
