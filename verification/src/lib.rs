//! A repository of document bundles that decides and leaves the filesystem
//! work to its caller.
//!
//! A bundle is a directory named after its identifier. It lives in exactly one
//! of three partitions of the repository: `staging` while it is being filled,
//! `inbox` while it waits for processing, `archive` once it is final.
//!
//! Nothing here touches a disk. Every operation that needs the filesystem
//! names the [`request::Request`]s to carry out and is settled with what the
//! driver reports back; what the operation then yields, and which error it
//! gives for which report, is stated in the contracts and proved.

pub mod access;
pub mod error;
pub mod ident;
pub mod juicer;
pub mod kind;
pub mod layout;
pub mod listing;
pub mod metadata;
pub mod repository;
pub mod request;
pub mod residence;
pub mod time;
