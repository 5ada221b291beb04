//! The rules of an updater for a game installation and its mods: version
//! numbers and the search for the latest release, the reading of a mod's
//! listing page, the putting aside and bringing back of entries that an
//! update must not touch, and the order of the steps of a replacement.
//! Nothing here touches the disk or the network: the functions take and
//! return plain values, and say in their contracts what they compute.

pub mod installation;
pub mod listing;
pub mod names;
pub mod orchestrator;
pub mod platform;
pub mod prober;
pub mod quarantine;
pub mod records;
pub mod text;
pub mod utils;
pub mod version;
