pub mod virtual_asset;
pub mod registry;
pub mod route;
pub mod overlay;
