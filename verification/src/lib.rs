//! Incremental synchronisation of image assets.
//!
//! A pass catalogues the images of a project ([`catalog`]), decides against
//! the manifest of the last pass which of them changed ([`sync`]), uploads
//! those through a backend that may retry ([`sync_backend`], with the
//! decisions of the clients in [`roblox_api`]), and generates bindings that
//! let code name the assets ([`codegen`], [`bindings`], [`lua`],
//! [`typescript`]).
//!
//! The library computes and decides; it reads no file and opens no
//! connection. What it states of its functions is proved, except for the
//! few functions of the standard library and of other crates that it calls
//! through wrappers in [`path`], [`text`], [`roblox_api`] and
//! [`sync_backend`], whose contracts are taken on trust.

pub mod bindings;
pub mod catalog;
pub mod codegen;
pub mod data;
pub mod lua;
pub mod options;
pub mod path;
pub mod roblox_api;
pub mod roblox_cloud_api;
pub mod sync;
pub mod sync_backend;
pub mod text;
pub mod typescript;
