//! The table `git_info`.

use crate::db::entities::{opt_text};
use crate::db::store::Store;
use crate::error::Error;
use crate::pkg::GitInfo;
use vstd::prelude::*;

verus! {

/// Where in a git history a package was built.
#[derive(Debug, Clone, PartialEq, Eq)]
pub struct Model {
    pub id: u64,
    pub commit_hash_short: String,
    pub commits_past_tag: Option<u64>,
    pub tag: Option<String>,
    pub dirty: bool,
}

/// What a [`Model`] stands for.
pub struct ModelView {
    pub id: u64,
    pub commit_hash_short: Seq<char>,
    pub commits_past_tag: Option<u64>,
    pub tag: Option<Seq<char>>,
    pub dirty: bool,
}

impl View for Model {
    type V = ModelView;

    open spec fn view(&self) -> ModelView {
        ModelView {
            id: self.id,
            commit_hash_short: self.commit_hash_short@,
            commits_past_tag: self.commits_past_tag,
            tag: opt_text(self.tag),
            dirty: self.dirty,
        }
    }
}

/// What the rows of the table stand for.
pub open spec fn table_view(rows: Seq<Model>) -> Seq<ModelView> {
    rows.map_values(|r: Model| r@)
}

/// Puts git information into the store.
pub struct ActiveGitInfo;

impl ActiveGitInfo {
    /// Puts in git information and returns the id. Where the store has no
    /// id left the result is `Storage` and the store is as it was.
    pub fn from_model(txn: &mut Store, git_info: GitInfo) -> (r: Result<u64, Error>)
        requires
            old(txn)@.wf(),
        ensures
            final(txn)@.wf(),
            match r {
                Ok(id) => old(txn)@.room(1) && id == old(txn)@.next_id && final(txn)@ == old(txn)@.add_git_info(git_info),
                Err(e) => !old(txn)@.room(1) && e == Error::Storage && final(txn)@ == old(txn)@,
            },
    {
        if !txn.has_room(1) {
            return Err(Error::Storage);
        }
        Ok(txn.add_git_info(&git_info))
    }
}

} // verus!
