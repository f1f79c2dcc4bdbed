//! Core of a package registry: references that address packages, and the
//! bookkeeping of published packages.

pub mod db;
pub mod error;
pub mod extractor;
pub mod models;
pub mod net;
pub mod net_laws;
pub mod numeral;
pub mod pkg;
pub mod publish;
pub mod round_trip;
pub mod semver;
pub mod text;
pub mod weburl;
