//! Access to objects of Google Cloud Storage for a query engine: parsing of
//! listing URIs, turning listing pages into file records, and the decisions of
//! a blocking chunk read over an asynchronous download.

pub mod error;
pub mod object_store;
