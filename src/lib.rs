//! Extraction of one building from a CityGML event stream into a record of
//! spatial cell identifiers and resolved attributes.
pub mod text;
pub mod geometry;
pub mod textmap;
pub mod markup;
pub mod codespace;
pub mod scan;
pub mod ledger;
pub mod json;
