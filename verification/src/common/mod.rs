//! Constants of the retrieval pipeline and language utilities.

pub mod constants;
pub mod lang;
