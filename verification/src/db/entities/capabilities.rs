//! The table `capabilities`.

use crate::db::store::{capabilities_ids, Store};
use crate::error::Error;
use crate::pkg::Capabilities;
use vstd::prelude::*;

verus! {

/// What a package may do on the network.
#[derive(Debug, Clone, PartialEq, Eq)]
pub struct Model {
    pub id: u64,
    pub network: bool,
    pub websocket: bool,
}

/// What a [`Model`] stands for.
pub struct ModelView {
    pub id: u64,
    pub network: bool,
    pub websocket: bool,
}

impl View for Model {
    type V = ModelView;

    open spec fn view(&self) -> ModelView {
        ModelView {
            id: self.id,
            network: self.network,
            websocket: self.websocket,
        }
    }
}

/// What the rows of the table stand for.
pub open spec fn table_view(rows: Seq<Model>) -> Seq<ModelView> {
    rows.map_values(|r: Model| r@)
}

/// Puts capabilities into the store.
pub struct ActiveCapabilities;

impl ActiveCapabilities {
    /// Puts in capabilities, and each of their URLs as a row of its own.
    /// Returns the id of the capabilities. Where the store has not an id
    /// for each of the rows the result is `Storage` and the store is as it
    /// was.
    pub fn from_model(txn: &mut Store, capabilities: Capabilities) -> (r: Result<u64, Error>)
        requires
            old(txn)@.wf(),
        ensures
            final(txn)@.wf(),
            match r {
                Ok(id) => old(txn)@.room(capabilities_ids(capabilities)) && id == old(txn)@.next_id && final(txn)@ == old(txn)@.add_capabilities(capabilities),
                Err(e) => !old(txn)@.room(capabilities_ids(capabilities)) && e == Error::Storage
                    && final(txn)@ == old(txn)@,
            },
    {
        if !txn.has_room(1 + capabilities.url_whitelist.len() as u128) {
            return Err(Error::Storage);
        }
        Ok(txn.add_capabilities(&capabilities))
    }
}

} // verus!
