pub mod arguments;
pub mod asset_index;
pub mod authlib_injector;
pub mod component;
pub mod fabric;
pub mod instance;
pub mod library;
pub mod minecraft;
pub mod rules;
pub mod text;
pub mod utils;
pub mod version;
pub mod version_manifest;
