pub mod asset_bundle;
