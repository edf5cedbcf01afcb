//! Parses the ISO 4217 "List One" currency registry XML document into typed
//! records and re-emits them as JSON.
//!
//! The XML text is tokenized by the `quick-xml` crate; everything after that
//! (the schema mapping, the field validators, the accessors and the JSON
//! output) is verified.

pub mod error;
pub mod event;
pub mod json;
pub mod mapper;
pub mod types;
pub mod validate;
pub mod xml;

pub use error::DeError;
pub use types::{CcyNtry, ListOne};
pub use xml::deserialize_list_one;

use vstd::prelude::*;

verus! {

/// The URL for the List One (current currencies & funds) XML document.
pub const LIST_ONE_URL: &'static str = "https://www.six-group.com/dam/download/financial-information/data-center/iso-currrency/lists/list-one.xml";

} // verus!
