//! Fetching a mission package: where its archive and its libraries are
//! downloaded from, which archive entries are unpacked and where, and which
//! libraries its manifests ask for.
//!
//! Nothing here touches the network or the file system. Every function maps
//! plain values to plain values, and a driver performs the downloads and the
//! writes that the results describe:
//!
//! - `orchestrator` tells the driver what to do next;
//! - `url` builds the addresses to download from;
//! - `archive` reads the entries of the downloaded archive, `extract` decides
//!   what becomes of each, with the help of `path`, and `mission` puts the
//!   two together;
//! - `manifest` reads the manifests that came out of the archive, and `deps`
//!   turns what they ask for into downloads;
//! - `text` cuts text at separators for the others.

pub mod archive;
pub mod deps;
pub mod extract;
pub mod manifest;
pub mod mission;
pub mod orchestrator;
pub mod path;
pub mod text;
pub mod url;
