use vstd::prelude::*;
use crate::modio_data::ModioMod;

verus! {

/// Outside work a resolution or fetch step needs before it can go on. The
/// caller performs the network call it names and hands the outcome back
/// through a store operation, then retries the step.
#[derive(Debug)]
pub enum DataRequest {
    /// Fetch one mod record by id from the registry.
    ModioModById { mod_id: u32 },
    /// Fetch one mod record and its dependency ids.
    ModioModWithDeps { mod_id: u32 },
    /// Fetch the dependency ids of a mod already on hand.
    ModioDependencies { mod_id: u32 },
    /// Search the registry for a mod by its name id.
    ModioModByName { name_id: String },
    /// Download one mod file's bytes.
    ModioDownload { mod_id: u32, modfile_id: u32 },
    /// Download the bytes behind a generic URL.
    HttpDownload { url: String },
}

/// The outcome of a resolution-side request, handed back to be recorded in
/// the provider cache. Download outcomes go through the fetch store
/// operations instead, since they carry bytes for the blob store.
pub enum DataResponse {
    ModioModById { mod_id: u32, m: ModioMod },
    ModioModWithDeps { mod_id: u32, m: ModioMod, deps: Vec<u32> },
    ModioDependencies { mod_id: u32, deps: Vec<u32> },
    /// Every search hit for the name, in the registry's order.
    ModioModByName { name_id: String, results: Vec<(u32, ModioMod)> },
}

} // verus!
