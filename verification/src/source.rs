//! Where the accounting text comes from: a run of the accounting tool, or a
//! file that holds what such a run printed.
//!
//! Running the tool and reading the file are the caller's part. This module
//! decides which of the two it is to be, builds the tool's arguments, and
//! says what the outcome of either means.

use vstd::prelude::*;
use vstd::string::*;

use crate::layout::Layout;
use crate::parser::{parse, parsed, ParseError, ParseFault, ParseStrategy, FIELD_DELIMITER};
use crate::record::{records_view, Record, SacctData};
use crate::text::{push_char, split_whitespace, views, words_of};

verus! {

/// The source of a run's data.
#[derive(Debug)]
pub enum FetchSource {
    /// A run of the accounting tool, with what the user wants added to its
    /// arguments.
    ExternalQuery(Option<String>),
    /// The file at this path.
    File(String),
}

/// The mathematical value of a `FetchSource`.
pub enum Source {
    ExternalQuery(Option<Seq<char>>),
    File(Seq<char>),
}

/// The view of an optional string.
pub open spec fn text_of(s: Option<String>) -> Option<Seq<char>> {
    match s {
        Some(t) => Some(t@),
        None => None,
    }
}

impl View for FetchSource {
    type V = Source;

    open spec fn view(&self) -> Source {
        match self {
            FetchSource::ExternalQuery(extra) => Source::ExternalQuery(text_of(*extra)),
            FetchSource::File(path) => Source::File(path@),
        }
    }
}

/// The source that the two command-line options call for: the file where
/// one is given, whatever else is given; the accounting tool otherwise.
pub open spec fn chosen(extra_args: Option<Seq<char>>, file: Option<Seq<char>>) -> Source {
    match file {
        Some(path) => Source::File(path),
        None => Source::ExternalQuery(extra_args),
    }
}

impl FetchSource {
    /// Chooses the source from the two command-line options.
    pub fn select(extra_args: Option<String>, file: Option<String>) -> (source: FetchSource)
        ensures
            source@ == chosen(text_of(extra_args), text_of(file)),
    {
        match file {
            Some(path) => FetchSource::File(path),
            None => FetchSource::ExternalQuery(extra_args),
        }
    }
}

/// The name of the accounting tool.
pub fn query_tool() -> (name: &'static str)
    ensures
        name@ == "sacct"@,
{
    "sacct"
}

/// The arguments every query has: the columns of the layout, the jobs of
/// `user` only, whole allocations without their steps, and delimited output
/// without a header line.
pub open spec fn fixed_arguments(layout: Layout, user: Seq<char>) -> Seq<Seq<char>> {
    seq![
        layout.format_text(),
        "--user="@ + user,
        "--allocations"@,
        "--parsable2"@,
        "--delimiter="@.push(FIELD_DELIMITER),
        "--noheader"@,
    ]
}

/// The arguments of a query: the fixed ones, then the words of what the user
/// added. Only white space parts two added arguments; there is no quoting.
pub open spec fn query_text(layout: Layout, user: Seq<char>, extra_args: Option<Seq<char>>) -> Seq<
    Seq<char>,
> {
    fixed_arguments(layout, user) + match extra_args {
        Some(extra) => words_of(extra),
        None => Seq::empty(),
    }
}

/// Builds the arguments for a run of the accounting tool.
pub fn query_arguments(layout: Layout, user: &str, extra_args: &Option<String>) -> (args: Vec<
    String,
>)
    ensures
        views(args@) == query_text(layout, user@, text_of(*extra_args)),
{
    let mut args: Vec<String> = Vec::new();
    args.push(layout.format_flag());
    let mut by_user = String::new();
    by_user.append("--user=");
    by_user.append(user);
    args.push(by_user);
    let mut allocations = String::new();
    allocations.append("--allocations");
    args.push(allocations);
    let mut parsable = String::new();
    parsable.append("--parsable2");
    args.push(parsable);
    let mut delimiter = String::new();
    delimiter.append("--delimiter=");
    push_char(&mut delimiter, FIELD_DELIMITER);
    args.push(delimiter);
    let mut no_header = String::new();
    no_header.append("--noheader");
    args.push(no_header);
    assert(views(args@) =~= fixed_arguments(layout, user@));
    match extra_args {
        Some(extra) => {
            let mut words = split_whitespace(extra.as_str());
            let ghost fixed = args@;
            let ghost added = words@;
            args.append(&mut words);
            assert(views(args@) =~= views(fixed) + views(added));
        },
        None => {
            assert(views(args@) + Seq::<Seq<char>>::empty() =~= views(args@));
        },
    }
    args
}

/// Why no text could be had from the source.
#[derive(Debug)]
pub enum FetchError {
    /// The accounting tool ended with a failure status; this is all it
    /// wrote to its error stream.
    CommandFailed(String),
    /// The tool could not be run, or the file could not be read; this is
    /// the cause.
    Io(String),
}

/// The mathematical value of a `FetchError`.
pub enum FetchFault {
    CommandFailed(Seq<char>),
    Io(Seq<char>),
}

impl View for FetchError {
    type V = FetchFault;

    open spec fn view(&self) -> FetchFault {
        match self {
            FetchError::CommandFailed(stderr) => FetchFault::CommandFailed(stderr@),
            FetchError::Io(cause) => FetchFault::Io(cause@),
        }
    }
}

impl FetchFault {
    /// The error as one line of text.
    pub open spec fn message(self) -> Seq<char> {
        match self {
            FetchFault::CommandFailed(stderr) => "sacct command failed: "@ + stderr,
            FetchFault::Io(cause) => cause,
        }
    }
}

impl FetchError {
    /// The error as one line of text.
    pub fn message(&self) -> (text: String)
        ensures
            text@ == self@.message(),
    {
        match self {
            FetchError::CommandFailed(stderr) => {
                let mut text = String::new();
                text.append("sacct command failed: ");
                text.append(stderr.as_str());
                assert(text@ =~= self@.message());
                text
            },
            FetchError::Io(cause) => cause.clone(),
        }
    }
}

/// The result of a fetch as a mathematical value.
pub open spec fn fetch_view(r: Result<String, FetchError>) -> Result<Seq<char>, FetchFault> {
    match r {
        Ok(text) => Ok(text@),
        Err(e) => Err(e@),
    }
}

/// What a finished run of the accounting tool means: its whole output where
/// it ended well, its whole error stream as the failure otherwise.
pub open spec fn command_outcome(success: bool, stdout: Seq<char>, stderr: Seq<char>) -> Result<
    Seq<char>,
    FetchFault,
> {
    if success {
        Ok(stdout)
    } else {
        Err(FetchFault::CommandFailed(stderr))
    }
}

/// What `String::from_utf8_lossy` makes of `bytes`: the text they encode,
/// with the replacement character U+FFFD wherever they are not UTF-8.
pub uninterp spec fn lossy_text(bytes: Seq<u8>) -> Seq<char>;

/// Reads `bytes` as text, whatever they are.
///
/// Trusted: `String::from_utf8_lossy` never fails, its result is a function
/// of the bytes alone, and bytes that are the UTF-8 encoding of a text give
/// that text.
#[verifier::external_body]
pub(crate) fn decode_lossy(bytes: &[u8]) -> (text: String)
    ensures
        text@ == lossy_text(bytes@),
        forall|t: Seq<char>| bytes@ == #[trigger] vstd::utf8::encode_utf8(t) ==> text@ == t,
{
    String::from_utf8_lossy(bytes).into_owned()
}

/// Turns a finished run of the accounting tool, its two streams as the
/// bytes that were captured, into the text to parse or the failure to
/// report. Bytes that are not UTF-8 never make the fetch fail: they are
/// read with replacement characters.
pub fn interpret_output(success: bool, stdout: &[u8], stderr: &[u8]) -> (r: Result<
    String,
    FetchError,
>)
    ensures
        fetch_view(r) == command_outcome(success, lossy_text(stdout@), lossy_text(stderr@)),
{
    if success {
        command_output(true, decode_lossy(stdout), String::new())
    } else {
        command_output(false, String::new(), decode_lossy(stderr))
    }
}

/// Turns a finished run of the accounting tool, its two streams already
/// read as text, into the text to parse or the failure to report.
pub fn command_output(success: bool, stdout: String, stderr: String) -> (r: Result<
    String,
    FetchError,
>)
    ensures
        fetch_view(r) == command_outcome(success, stdout@, stderr@),
{
    if success {
        Ok(stdout)
    } else {
        Err(FetchError::CommandFailed(stderr))
    }
}

/// What an attempt to read the file means: its whole content, or the cause
/// of the failure.
pub open spec fn file_outcome(read: Result<Seq<char>, Seq<char>>) -> Result<Seq<char>, FetchFault> {
    match read {
        Ok(content) => Ok(content),
        Err(cause) => Err(FetchFault::Io(cause)),
    }
}

/// Turns an attempt to read the file into the text to parse or the failure
/// to report.
pub fn file_output(read: Result<String, String>) -> (r: Result<String, FetchError>)
    ensures
        fetch_view(r) == file_outcome(
            match read {
                Ok(content) => Ok(content@),
                Err(cause) => Err(cause@),
            },
        ),
{
    match read {
        Ok(content) => Ok(content),
        Err(cause) => Err(FetchError::Io(cause)),
    }
}

/// Why no records could be had.
#[derive(Debug)]
pub enum LoadError {
    Fetch(FetchError),
    Parse(ParseError),
}

/// The mathematical value of a `LoadError`.
pub enum LoadFault {
    Fetch(FetchFault),
    Parse(ParseFault),
}

impl View for LoadError {
    type V = LoadFault;

    open spec fn view(&self) -> LoadFault {
        match self {
            LoadError::Fetch(e) => LoadFault::Fetch(e@),
            LoadError::Parse(e) => LoadFault::Parse(e@),
        }
    }
}

impl LoadFault {
    /// The error as one line of text.
    pub open spec fn message(self) -> Seq<char> {
        match self {
            LoadFault::Fetch(e) => e.message(),
            LoadFault::Parse(e) => e.message(),
        }
    }
}

impl LoadError {
    /// The error as one line of text.
    pub fn message(&self) -> (text: String)
        ensures
            text@ == self@.message(),
    {
        match self {
            LoadError::Fetch(e) => e.message(),
            LoadError::Parse(e) => e.message(),
        }
    }
}

/// The result of a load as a mathematical value.
pub open spec fn load_view(r: Result<Vec<SacctData>, LoadError>) -> Result<Seq<Record>, LoadFault> {
    match r {
        Ok(records) => Ok(records_view(records@)),
        Err(e) => Err(e@),
    }
}

/// What a fetch comes to: the failure of the fetch, or else what the parse
/// of the fetched text gives.
pub open spec fn loaded(
    fetched: Result<Seq<char>, FetchFault>,
    strategy: ParseStrategy,
    layout: Layout,
) -> Result<Seq<Record>, LoadFault> {
    match fetched {
        Err(e) => Err(LoadFault::Fetch(e)),
        Ok(text) => match parsed(text, strategy, layout) {
            Ok(records) => Ok(records),
            Err(e) => Err(LoadFault::Parse(e)),
        },
    }
}

/// Parses what was fetched, or hands the failure of the fetch on.
pub fn records_from_fetch(
    fetched: Result<String, FetchError>,
    strategy: ParseStrategy,
    layout: Layout,
) -> (r: Result<Vec<SacctData>, LoadError>)
    ensures
        load_view(r) == loaded(fetch_view(fetched), strategy, layout),
{
    match fetched {
        Err(e) => Err(LoadError::Fetch(e)),
        Ok(text) => match parse(text.as_str(), strategy, layout) {
            Ok(records) => Ok(records),
            Err(e) => Err(LoadError::Parse(e)),
        },
    }
}

} // verus!
