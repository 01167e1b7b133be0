//! Job-accounting records for a terminal viewer.
//!
//! The viewer shows the jobs that the `sacct` accounting tool reports, in a
//! list with a cursor and a popup with the details of the selected job. This
//! library is the part of it that can be reasoned about: it neither runs a
//! program nor reads a file nor draws.
//!
//! - `source`: which source to fetch from, the arguments of the query, and
//!   what the outcome of a fetch means.
//! - `parser`: from the fetched text to records, strictly through the
//!   delimited-record reader or leniently line by line.
//! - `reader`: the delimited-record reader itself, an outside crate.
//! - `layout`: which field stands in which column.
//! - `record`: the job record and how it is shown.
//! - `app`: the records, the cursor and the quit flag, and what of them is
//!   on the screen.
//! - `text`: splitting, searching and padding of character sequences.

pub mod app;
pub mod layout;
pub mod parser;
pub mod reader;
pub mod record;
pub mod source;
pub mod text;
