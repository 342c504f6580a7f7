//! What a mod says of itself.

use vstd::prelude::*;

verus! {

/// The description that comes with a mod.
#[derive(Clone, Debug)]
pub struct ModMetaData {
    pub name: String,
    pub supported_versions: Vec<String>,
    pub mod_dependencies_by_version: ModDependencies,
    pub load_after: Vec<String>,
    pub description: String,
    pub package_id: String,
}

/// The mods that a mod depends on, by version of the game.
#[derive(Clone, Debug, Default)]
pub struct ModDependencies {
    pub v1_0: Vec<Dependency>,
    pub v1_1: Vec<Dependency>,
    pub v1_2: Vec<Dependency>,
    pub v1_3: Vec<Dependency>,
    pub v1_4: Vec<Dependency>,
    pub v1_5: Vec<Dependency>,
}

/// One mod that another depends on.
#[derive(Clone, Debug, Default)]
pub struct Dependency {
    pub package_id: String,
    pub display_name: String,
}

} // verus!
