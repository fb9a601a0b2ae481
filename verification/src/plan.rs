//! What one run of the program does, decided from its flags and from
//! whether a catalog has been saved before.

use vstd::prelude::*;

verus! {

/// The flags of the command line.
#[derive(Clone, Copy, Debug, PartialEq, Eq, Structural)]
pub struct RunOptions {
    /// Print the display name of every entry.
    pub list: bool,
    /// Scan and merge even where a catalog has been saved before.
    pub refresh: bool,
    /// Ask for the images of the entries that have none.
    pub find_images: bool,
}

/// The steps of a run, in the order in which they are taken.
#[derive(Clone, Copy, Debug, PartialEq, Eq, Structural)]
pub struct RunPlan {
    /// Start from the saved catalog, not from an empty one.
    pub load: bool,
    /// Scan the launcher's manifests and merge them into the catalog.
    pub scan: bool,
    /// Ask for the images of the entries that have none.
    pub find_images: bool,
    /// Print the display name of every entry.
    pub list: bool,
    /// Save the catalog.
    pub save: bool,
}

/// Plans a run.
///
/// A saved catalog is loaded; without one the run starts from an empty
/// catalog and scans. A refresh scans in any case. Images are asked for and
/// names are listed only on demand. The catalog is always saved.
pub fn plan_run(options: RunOptions, catalog_exists: bool) -> (plan: RunPlan)
    ensures
        plan.load == catalog_exists,
        plan.scan == (!catalog_exists || options.refresh),
        plan.find_images == options.find_images,
        plan.list == options.list,
        plan.save,
{
    RunPlan {
        load: catalog_exists,
        scan: !catalog_exists || options.refresh,
        find_images: options.find_images,
        list: options.list,
        save: true,
    }
}

} // verus!
