//! Grafting of shared upstream files into a project.
//!
//! Upstream archives are unpacked into a staging area; every staged file is then
//! merged three ways with the project's working file and with the baseline kept
//! from the last clean run. A conflict anywhere locks the tree until a later run
//! resolves it.
//!
//! * [`merge`]: the merge policy for one file.
//! * [`reconcile`]: from the three reads of a file to the writes it asks for.
//! * [`walk`]: the depth-first walk over the staged tree and its running verdict.
//! * [`tree`]: the verdict of a staged tree, directory by directory.
//! * [`store`]: what a reconciliation does to the working tree and the baselines.
//! * [`lock`]: the conflict lock and the commands it gates.
//! * [`registry`]: the list of upstreams and its line format.
//! * [`locator`]: the local file name of an upstream's archive.
//! * [`layout`]: where the control data is kept.

pub mod merge;
pub mod reconcile;
pub mod walk;
pub mod tree;
pub mod store;
pub mod lock;
pub mod registry;
pub mod locator;
pub mod layout;
