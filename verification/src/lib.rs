//! A model of the package data of pacman's library, with verified version
//! ordering, dependency reading and matching, target parsing, database
//! lookups, orphan detection, file lists and configuration settings.
pub mod text;
pub mod version;
pub mod deps;
pub mod satisfy;
pub mod target;
pub mod package;
pub mod error;
pub mod db;
pub mod orphans;
pub mod filelist;
pub mod signing;
pub mod conflict;
pub mod trans;
pub mod types;
pub mod flags;
pub mod conf;
pub mod list;
pub mod resolve;
pub mod events;
