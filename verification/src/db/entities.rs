//! The rows of the tables, one module for each table.

pub mod author;
pub mod capabilities;
pub mod git_info;
pub mod index;
pub mod meta;
pub mod package;
pub mod package_author;
pub mod registry;
pub mod source;
pub mod url_white_list;

pub use crate::text::opt_text;
use vstd::prelude::*;

verus! {

/// What happens to a row when the row that it refers to is deleted.
#[derive(Debug, Clone, Copy, PartialEq, Eq)]
pub enum ForeignKeyAction {
    /// The row is deleted too.
    Cascade,
    /// The reference is set to null and the row stays.
    SetNull,
    /// Nothing happens to the row.
    NoAction,
}

/// The bytes of a blob that may be missing.
pub open spec fn opt_bytes(o: Option<Vec<u8>>) -> Option<Seq<u8>> {
    match o {
        Some(b) => Some(b@),
        None => None,
    }
}

/// A copy of a string that may be missing.
pub fn clone_text(o: &Option<String>) -> (r: Option<String>)
    ensures
        opt_text(r) == opt_text(*o),
{
    match o {
        Some(s) => Some(s.clone()),
        None => None,
    }
}

} // verus!
