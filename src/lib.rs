//! Marshalling of document values into ODBC-style result buffers: a coercion
//! engine from document values to C target representations, a writer that
//! hands variable-length data out in pieces, and a cursor over result rows.
pub mod text;
pub mod value;
pub mod extjson;
pub mod calendar;
pub mod numeric;
pub mod layout;
pub mod coerce;
pub mod transfer;
pub mod cursor;
pub mod columnar;
pub mod query;
