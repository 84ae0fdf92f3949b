//! Navigation, credential-index, download-naming and shortcut logic of the
//! Velo browser, with the decisions its user interface acts on.

pub mod text;
pub mod navigation;
pub mod records;
pub mod credentials;
pub mod credential_order;
pub mod downloads;
pub mod sidebar;
pub mod tabs;
pub mod shortcuts;
pub mod panels;
pub mod find;
pub mod paths;
pub mod service;
