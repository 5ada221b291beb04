use vstd::prelude::*;

verus! {

/// The updater's helper functions are grouped under this name; each module
/// adds the ones that belong to its subject.
pub struct Utils;

} // verus!
