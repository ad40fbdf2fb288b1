//! Download source archives of crates from the crates.io registry: the package-spec
//! parser, the version resolver, the archive path-safety policy and the decisions of
//! the acquisition workflow.
pub mod crate_name;
pub mod package_id_spec;
pub mod resolve;
pub mod unpack;
pub mod acquire;
