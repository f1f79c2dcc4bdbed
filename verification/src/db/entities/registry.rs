//! The table `registries`.

use crate::db::entities::{opt_text};
use crate::db::store::Store;
use crate::error::Error;
use crate::pkg::Registry;
use vstd::prelude::*;

verus! {

/// A remote registry that holds the code of a package.
#[derive(Debug, Clone, PartialEq, Eq)]
pub struct Model {
    pub id: u64,
    pub registry_type: Option<String>,
    pub hostname: String,
    pub namespace: String,
}

/// What a [`Model`] stands for.
pub struct ModelView {
    pub id: u64,
    pub registry_type: Option<Seq<char>>,
    pub hostname: Seq<char>,
    pub namespace: Seq<char>,
}

impl View for Model {
    type V = ModelView;

    open spec fn view(&self) -> ModelView {
        ModelView {
            id: self.id,
            registry_type: opt_text(self.registry_type),
            hostname: self.hostname@,
            namespace: self.namespace@,
        }
    }
}

/// What the rows of the table stand for.
pub open spec fn table_view(rows: Seq<Model>) -> Seq<ModelView> {
    rows.map_values(|r: Model| r@)
}

/// Puts remote registries into the store.
pub struct ActiveRegistry;

impl ActiveRegistry {
    /// Puts in a remote registry and returns the id. Where a registry with
    /// this host name and namespace is in the store the result is
    /// `Conflict`; else, where the store has no id left, it is `Storage`.
    /// The store is then as it was.
    pub fn from_model(txn: &mut Store, registry: Registry) -> (r: Result<u64, Error>)
        requires
            old(txn)@.wf(),
        ensures
            final(txn)@.wf(),
            r is Ok <==> !old(txn)@.has_registry(registry.registry_hostname@, registry.namespace@)
                && old(txn)@.room(1),
            match r {
                Ok(id) => id == old(txn)@.next_id && final(txn)@ == old(txn)@.add_registry(
                    registry,
                ),
                Err(e) => final(txn)@ == old(txn)@ && e == (if old(txn)@.has_registry(
                    registry.registry_hostname@,
                    registry.namespace@,
                ) {
                    Error::Conflict
                } else {
                    Error::Storage
                }),
            },
    {
        if txn.has_registry(&registry.registry_hostname, &registry.namespace) {
            return Err(Error::Conflict);
        }
        if !txn.has_room(1) {
            return Err(Error::Storage);
        }
        Ok(txn.add_registry(&registry))
    }
}

} // verus!
