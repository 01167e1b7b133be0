//! The delimited-record reader: rows of comma-separated text, as the `csv`
//! crate reads them.
//!
//! The grammar of such text (quoted fields, doubled quotes, line endings
//! inside quotes, blank lines) is the reader's business. This module gives
//! what it yields a name, and hands the rows on as plain values.

use vstd::prelude::*;

use crate::text::views;

verus! {

/// One item that the reader yields: a row, or the reason why there is none.
#[derive(Debug)]
pub enum RowRead {
    /// A row, with the line it starts on where the reader knows it.
    Row { line: Option<u64>, fields: Vec<String> },
    /// The reader could not deliver a row at this place.
    Fault { line: Option<u64>, detail: String },
}

/// The mathematical value of a `RowRead`.
pub enum RowText {
    Row { line: Option<u64>, fields: Seq<Seq<char>> },
    Fault { line: Option<u64>, detail: Seq<char> },
}

impl View for RowRead {
    type V = RowText;

    open spec fn view(&self) -> RowText {
        match self {
            RowRead::Row { line, fields } => RowText::Row { line: *line, fields: views(fields@) },
            RowRead::Fault { line, detail } => RowText::Fault { line: *line, detail: detail@ },
        }
    }
}

/// The views of a sequence of reader items, one by one.
pub open spec fn rows_view(v: Seq<RowRead>) -> Seq<RowText> {
    Seq::new(v.len(), |i: int| v[i]@)
}

/// Everything the reader yields on `content` when no row is taken for a
/// header: the rows in the order of the text and, where a row has another
/// number of fields than the first one, a fault in its place.
pub uninterp spec fn csv_rows(content: Seq<char>) -> Seq<RowText>;

/// `rows` without its first item.
pub open spec fn after_header(rows: Seq<RowText>) -> Seq<RowText> {
    if rows.len() == 0 {
        rows
    } else {
        rows.drop_first()
    }
}

/// What the reader yields on `content`: with `has_headers`, all but the
/// first row, which it keeps to itself as the header.
pub open spec fn rows_of(content: Seq<char>, has_headers: bool) -> Seq<RowText> {
    if has_headers {
        after_header(csv_rows(content))
    } else {
        csv_rows(content)
    }
}

/// Reads `content` with a `csv::Reader` in its default configuration but for
/// `has_headers`, and hands out every item of `Reader::into_records`.
///
/// Trusted: the result is a function of the two arguments alone, and a
/// reader that was told of a header yields what it would yield otherwise,
/// less the first row. A row's fields are copied as they are; its line is
/// that of `StringRecord::position`, a fault's that of `Error::position`, and
/// a fault's detail is the text that `csv::Error` displays.
#[verifier::external_body]
pub(crate) fn read_rows(content: &str, has_headers: bool) -> (rows: Vec<RowRead>)
    ensures
        rows_view(rows@) == if has_headers {
            after_header(csv_rows(content@))
        } else {
            csv_rows(content@)
        },
{
    csv::ReaderBuilder::new()
        .has_headers(has_headers)
        .from_reader(content.as_bytes())
        .into_records()
        .map(|item| match item {
            Ok(record) => RowRead::Row {
                line: record.position().map(|at| at.line()),
                fields: record.iter().map(String::from).collect(),
            },
            Err(fault) => RowRead::Fault {
                line: fault.position().map(|at| at.line()),
                detail: fault.to_string(),
            },
        })
        .collect()
}

} // verus!
