//! Turning accounting text into job records.
//!
//! There are two ways in. The header-aware way hands the text to the
//! delimited-record reader, lets a header line go, and is strict: the first
//! row that the reader faults, or that has too few fields, fails the whole
//! parse. The positional way splits each line at one delimiter character and
//! is lenient: a line with too few fields is dropped and the parse goes on.

use vstd::prelude::*;
use vstd::string::*;

use crate::layout::{lemma_record_columns, Layout};
use crate::reader::{csv_rows, read_rows, rows_of, rows_view, RowRead, RowText};
use crate::record::{lemma_records_view_push, records_view, Field, Record, SacctData};
use crate::text::{
    chars_of, contains, contains_lowered, decimal, lemma_run_len_is, lemma_run_len_props,
    line_spans, lines_of, lowered, occurs_at, push_decimal, run_len, scan_to, span_texts,
    split_fields, split_on, strip_cr, views,
};

verus! {

/// The delimiter between two fields of a line, in the query and in both
/// parsers.
pub const FIELD_DELIMITER: char = ',';

/// Why a parse failed.
#[derive(Debug)]
pub enum ParseError {
    /// A row that the reader could not deliver, or one with too few fields:
    /// the line it starts on (0 where the reader did not say) and what was
    /// wrong with it.
    MalformedRow(u64, String),
}

/// The mathematical value of a `ParseError`.
pub enum ParseFault {
    MalformedRow(u64, Seq<char>),
}

impl View for ParseError {
    type V = ParseFault;

    open spec fn view(&self) -> ParseFault {
        match self {
            ParseError::MalformedRow(line, detail) => ParseFault::MalformedRow(*line, detail@),
        }
    }
}

impl ParseFault {
    /// The error as one line of text.
    pub open spec fn message(self) -> Seq<char> {
        match self {
            ParseFault::MalformedRow(line, detail) => "malformed row at line "@ + decimal(
                line as nat,
            ) + ": "@ + detail,
        }
    }
}

impl ParseError {
    /// The error as one line of text.
    pub fn message(&self) -> (text: String)
        ensures
            text@ == self@.message(),
    {
        match self {
            ParseError::MalformedRow(line, detail) => {
                let mut text = String::new();
                text.append("malformed row at line ");
                push_decimal(&mut text, *line);
                text.append(": ");
                text.append(detail.as_str());
                assert(text@ =~= self@.message());
                text
            },
        }
    }
}

/// The result of a parse as a mathematical value.
pub open spec fn outcome_view(r: Result<Vec<SacctData>, ParseError>) -> Result<
    Seq<Record>,
    ParseFault,
> {
    match r {
        Ok(records) => Ok(records_view(records@)),
        Err(e) => Err(e@),
    }
}

/// Whether a line looks like a header: made small, it holds `jobid`,
/// `jobname` or `state` somewhere. A data line whose text happens to hold
/// one of these passes for a header too.
pub open spec fn header_like(line: Seq<char>) -> bool {
    ||| contains(lowered(line), "jobid"@)
    ||| contains(lowered(line), "jobname"@)
    ||| contains(lowered(line), "state"@)
}

/// Whether the first line of `content` looks like a header. A text without
/// lines has no header.
pub open spec fn has_header(content: Seq<char>) -> bool {
    lines_of(content).len() > 0 && header_like(lines_of(content)[0])
}

fn header_in(chars: &Vec<char>, from: usize, to: usize) -> (b: bool)
    requires
        from <= to <= chars.len(),
    ensures
        b == header_like(chars@.subrange(from as int, to as int)),
{
    let job_id = chars_of("jobid");
    let job_name = chars_of("jobname");
    let state = chars_of("state");
    contains_lowered(chars, from, to, &job_id) || contains_lowered(chars, from, to, &job_name)
        || contains_lowered(chars, from, to, &state)
}

/// Whether `line` looks like a header.
pub fn is_header_line(line: &str) -> (b: bool)
    ensures
        b == header_like(line@),
{
    let chars = chars_of(line);
    assert(chars@.subrange(0, chars@.len() as int) =~= chars@);
    header_in(&chars, 0, chars.len())
}

/// Whether the first line of `content` looks like a header.
pub fn detect_header(content: &str) -> (b: bool)
    ensures
        b == has_header(content@),
{
    let chars = chars_of(content);
    let len = chars.len();
    if len == 0 {
        return false;
    }
    assert(chars@.subrange(0, len as int) =~= chars@);
    let end = scan_to(&chars, 0, len, '\n');
    if end == len {
        header_in(&chars, 0, len)
    } else {
        let stop = if end > 0 && chars[end - 1] == '\r' {
            end - 1
        } else {
            end
        };
        proof {
            let line = chars@.take(end as int);
            assert(line =~= chars@.subrange(0, end as int));
            assert(strip_cr(line) =~= chars@.subrange(0, stop as int));
        }
        header_in(&chars, 0, stop)
    }
}

/// The line number to report for a row.
pub open spec fn line_number(line: Option<u64>) -> u64 {
    match line {
        Some(n) => n,
        None => 0,
    }
}

/// What is reported of a row with too few fields.
pub open spec fn short_detail(found: nat, expected: nat) -> Seq<char> {
    "expected "@ + decimal(expected) + " fields, found "@ + decimal(found)
}

/// Whether the strict parser takes a row: the reader delivered it, and it
/// has a field for every column of the layout.
pub open spec fn row_sound(row: RowText, layout: Layout) -> bool {
    row matches RowText::Row { fields, .. } && fields.len() >= layout.width()
}

/// `row_sound` under a given layout, as a predicate.
pub open spec fn sound(layout: Layout) -> spec_fn(RowText) -> bool {
    |row: RowText| row_sound(row, layout)
}

/// The error that a row which is not sound gives.
pub open spec fn fault_of(row: RowText, layout: Layout) -> ParseFault {
    match row {
        RowText::Fault { line, detail } => ParseFault::MalformedRow(line_number(line), detail),
        RowText::Row { line, fields } => ParseFault::MalformedRow(
            line_number(line),
            short_detail(fields.len(), layout.width()),
        ),
    }
}

/// The record that a row gives.
pub open spec fn row_record(row: RowText, layout: Layout) -> Record {
    match row {
        RowText::Row { fields, .. } => layout.record_of(fields),
        RowText::Fault { .. } => layout.record_of(Seq::empty()),
    }
}

/// What the strict parser makes of the reader's items: the error of the
/// first one that is not sound, or else a record for each of them, in order.
pub open spec fn strict_records(rows: Seq<RowText>, layout: Layout) -> Result<
    Seq<Record>,
    ParseFault,
> {
    let n = run_len(rows, sound(layout)) as int;
    if n < rows.len() {
        Err(fault_of(rows[n], layout))
    } else {
        Ok(Seq::new(rows.len(), |i: int| row_record(rows[i], layout)))
    }
}

fn reported_line(line: &Option<u64>) -> (n: u64)
    ensures
        n == line_number(*line),
{
    match line {
        Some(n) => *n,
        None => 0,
    }
}

fn short_message(found: usize, expected: usize) -> (text: String)
    ensures
        text@ == short_detail(found as nat, expected as nat),
{
    let mut text = String::new();
    text.append("expected ");
    push_decimal(&mut text, expected as u64);
    text.append(" fields, found ");
    push_decimal(&mut text, found as u64);
    assert(text@ =~= short_detail(found as nat, expected as nat));
    text
}

/// Maps the reader's items to records under `layout`, strictly: the first
/// item that is a fault, or a row with fewer fields than the layout has
/// columns, ends the parse with its error.
pub fn records_from_rows(rows: &Vec<RowRead>, layout: Layout) -> (r: Result<
    Vec<SacctData>,
    ParseError,
>)
    ensures
        outcome_view(r) == strict_records(rows_view(rows@), layout),
{
    let ghost all = rows_view(rows@);
    let mut out: Vec<SacctData> = Vec::new();
    let mut i: usize = 0;
    assert(records_view(out@) =~= Seq::new(0, |j: int| row_record(all[j], layout)));
    while i < rows.len()
        invariant
            i <= rows.len(),
            all == rows_view(rows@),
            forall|j: int| 0 <= j < i ==> row_sound(#[trigger] all[j], layout),
            records_view(out@) == Seq::new(i as nat, |j: int| row_record(all[j], layout)),
        decreases rows.len() - i,
    {
        let ghost before = out@;
        assert(all[i as int] == rows@[i as int]@);
        match &rows[i] {
            RowRead::Row { line, fields } => {
                if fields.len() < layout.columns() {
                    let detail = short_message(fields.len(), layout.columns());
                    proof {
                        lemma_run_len_is(all, sound(layout), i as int);
                    }
                    return Err(ParseError::MalformedRow(reported_line(line), detail));
                }
                let record = layout.record_from(fields);
                out.push(record);
                proof {
                    lemma_records_view_push(before, record);
                }
            },
            RowRead::Fault { line, detail } => {
                proof {
                    lemma_run_len_is(all, sound(layout), i as int);
                }
                return Err(ParseError::MalformedRow(reported_line(line), detail.clone()));
            },
        }
        i = i + 1;
        assert(records_view(out@) =~= Seq::new(i as nat, |j: int| row_record(all[j], layout)));
    }
    proof {
        lemma_run_len_is(all, sound(layout), rows.len() as int);
    }
    Ok(out)
}

/// What the header-aware parser makes of `content`: the reader reads it,
/// told of a header if the first line looks like one, and the rows are
/// mapped strictly.
pub open spec fn header_aware_records(content: Seq<char>, layout: Layout) -> Result<
    Seq<Record>,
    ParseFault,
> {
    strict_records(rows_of(content, has_header(content)), layout)
}

/// Parses `content` the header-aware way.
pub fn parse_csv_data(content: &str, layout: Layout) -> (r: Result<Vec<SacctData>, ParseError>)
    ensures
        outcome_view(r) == header_aware_records(content@, layout),
{
    let has_headers = detect_header(content);
    let rows = read_rows(content, has_headers);
    records_from_rows(&rows, layout)
}

/// What the positional parser makes of a sequence of lines: a record for
/// each line that splits into at least the required number of tokens, in
/// order; the other lines leave no trace.
pub open spec fn accepted(lines: Seq<Seq<char>>, delimiter: char, layout: Layout) -> Seq<Record>
    decreases lines.len(),
{
    if lines.len() == 0 {
        Seq::empty()
    } else {
        let before = accepted(lines.drop_last(), delimiter, layout);
        let tokens = split_on(lines.last(), delimiter);
        if tokens.len() >= layout.required() {
            before.push(layout.record_of(tokens))
        } else {
            before
        }
    }
}

/// What the positional parser makes of `content`.
pub open spec fn positional_records(content: Seq<char>, delimiter: char, layout: Layout) -> Seq<
    Record,
> {
    accepted(lines_of(content), delimiter, layout)
}

/// Reads one line the positional way: `None` if it splits into fewer tokens
/// than the layout requires.
pub fn parse_line(line: &str, delimiter: char, layout: Layout) -> (r: Option<SacctData>)
    ensures
        match r {
            Some(record) => split_on(line@, delimiter).len() >= layout.required() && record@
                == layout.record_of(split_on(line@, delimiter)),
            None => split_on(line@, delimiter).len() < layout.required(),
        },
{
    let chars = chars_of(line);
    assert(chars@.subrange(0, chars@.len() as int) =~= chars@);
    let tokens = split_fields(&chars, 0, chars.len(), delimiter);
    assert(views(tokens@).len() == tokens@.len());
    if tokens.len() >= layout.min_columns() {
        Some(layout.record_from(&tokens))
    } else {
        None
    }
}

/// Parses `content` the positional way. This never fails.
pub fn parse_positional(content: &str, delimiter: char, layout: Layout) -> (records: Vec<
    SacctData,
>)
    ensures
        records_view(records@) == positional_records(content@, delimiter, layout),
{
    let chars = chars_of(content);
    let spans = line_spans(&chars);
    let ghost lines = lines_of(chars@);
    let mut out: Vec<SacctData> = Vec::new();
    let mut i: usize = 0;
    assert(lines.take(0) =~= Seq::<Seq<char>>::empty());
    assert(records_view(out@) =~= accepted(lines.take(0), delimiter, layout));
    while i < spans.len()
        invariant
            i <= spans.len(),
            lines == lines_of(chars@),
            lines == span_texts(chars@, spans@),
            crate::text::spans_within(spans@, chars@.len()),
            records_view(out@) == accepted(lines.take(i as int), delimiter, layout),
        decreases spans.len() - i,
    {
        let (from, to) = spans[i];
        assert(spans@[i as int].0 <= spans@[i as int].1 <= chars@.len());
        let tokens = split_fields(&chars, from, to, delimiter);
        let ghost before = out@;
        proof {
            let now = lines.take(i + 1);
            assert(now.drop_last() =~= lines.take(i as int));
            assert(now.last() == lines[i as int]);
            assert(lines[i as int] == chars@.subrange(from as int, to as int));
            assert(views(tokens@).len() == tokens@.len());
        }
        if tokens.len() >= layout.min_columns() {
            let record = layout.record_from(&tokens);
            out.push(record);
            proof {
                lemma_records_view_push(before, record);
            }
        }
        i = i + 1;
    }
    assert(lines.take(spans.len() as int) =~= lines);
    out
}

/// The two ways of reading accounting text.
#[derive(Debug, Clone, Copy, PartialEq, Eq, Structural)]
pub enum ParseStrategy {
    /// Through the delimited-record reader, a header line let go; strict.
    HeaderAware,
    /// Line by line, split at the field delimiter; lenient.
    Positional,
}

/// What `parse` makes of `content` under a strategy and a layout.
pub open spec fn parsed(content: Seq<char>, strategy: ParseStrategy, layout: Layout) -> Result<
    Seq<Record>,
    ParseFault,
> {
    match strategy {
        ParseStrategy::HeaderAware => header_aware_records(content, layout),
        ParseStrategy::Positional => Ok(positional_records(content, FIELD_DELIMITER, layout)),
    }
}

/// Parses `content` the way `strategy` says, into records of `layout`.
pub fn parse(content: &str, strategy: ParseStrategy, layout: Layout) -> (r: Result<
    Vec<SacctData>,
    ParseError,
>)
    ensures
        outcome_view(r) == parsed(content@, strategy, layout),
{
    match strategy {
        ParseStrategy::HeaderAware => parse_csv_data(content, layout),
        ParseStrategy::Positional => Ok(parse_positional(content, FIELD_DELIMITER, layout)),
    }
}

/// A line that holds the letters of `JobID` one after the other, each of
/// them capital or small, looks like a header.
pub proof fn law_job_id_marks_header(line: Seq<char>, at: int)
    requires
        0 <= at,
        at + 5 <= line.len(),
        line[at] == 'j' || line[at] == 'J',
        line[at + 1] == 'o' || line[at + 1] == 'O',
        line[at + 2] == 'b' || line[at + 2] == 'B',
        line[at + 3] == 'i' || line[at + 3] == 'I',
        line[at + 4] == 'd' || line[at + 4] == 'D',
    ensures
        header_like(line),
{
    reveal_strlit("jobid");
    let word = "jobid"@;
    let hay = lowered(line);
    assert(word =~= seq!['j', 'o', 'b', 'i', 'd']);
    assert(hay.subrange(at, at + 5) =~= word);
    assert(occurs_at(hay, word, at));
}

/// Where the first line looks like a header, the reader's first row is no
/// record: a parse that succeeds gives one record less than the reader has
/// rows, and record `j` comes from row `j + 1`.
pub proof fn law_header_is_no_record(content: Seq<char>, layout: Layout)
    requires
        has_header(content),
        header_aware_records(content, layout) is Ok,
    ensures
        ({
            let rows = csv_rows(content);
            let records = header_aware_records(content, layout)->Ok_0;
            &&& rows.len() > 0 ==> records.len() == rows.len() - 1
            &&& forall|j: int|
                0 <= j < records.len() ==> #[trigger] records[j] == row_record(
                    rows[j + 1],
                    layout,
                )
        }),
{
}

/// Where the first line does not look like a header, every row of the
/// reader is a record, the first one too: a parse that succeeds gives as
/// many records as the reader has rows, and record `j` comes from row `j`.
pub proof fn law_data_line_is_a_record(content: Seq<char>, layout: Layout)
    requires
        !has_header(content),
        header_aware_records(content, layout) is Ok,
    ensures
        ({
            let rows = csv_rows(content);
            let records = header_aware_records(content, layout)->Ok_0;
            &&& records.len() == rows.len()
            &&& forall|j: int|
                0 <= j < records.len() ==> #[trigger] records[j] == row_record(rows[j], layout)
        }),
{
}

/// The strict parser fails exactly if some item of the reader is not sound,
/// and then with the error of the first such item.
pub proof fn law_strict_fails_fast(rows: Seq<RowText>, layout: Layout)
    ensures
        strict_records(rows, layout) is Err <==> exists|i: int|
            0 <= i < rows.len() && !row_sound(#[trigger] rows[i], layout),
        forall|i: int|
            0 <= i < rows.len() && !row_sound(rows[i], layout) && (forall|j: int|
                0 <= j < i ==> row_sound(#[trigger] rows[j], layout)) ==> strict_records(
                rows,
                layout,
            ) == Err::<Seq<Record>, ParseFault>(fault_of(#[trigger] rows[i], layout)),
{
    let p = sound(layout);
    lemma_run_len_props(rows, p);
    let n = run_len(rows, p) as int;
    if n < rows.len() {
        assert(!row_sound(rows[n], layout));
    } else {
        assert forall|i: int| 0 <= i < rows.len() implies row_sound(#[trigger] rows[i], layout) by {
            assert(p(rows[i]));
        }
    }
    assert forall|i: int|
        0 <= i < rows.len() && !row_sound(rows[i], layout) && (forall|j: int|
            0 <= j < i ==> row_sound(#[trigger] rows[j], layout)) implies strict_records(
        rows,
        layout,
    ) == Err::<Seq<Record>, ParseFault>(fault_of(#[trigger] rows[i], layout)) by {
        assert forall|j: int| 0 <= j < i implies p(#[trigger] rows[j]) by {
            assert(row_sound(rows[j], layout));
        }
        lemma_run_len_is(rows, p, i);
    }
}

/// The positional parser drops a line that splits into fewer tokens than
/// the layout requires.
pub proof fn law_short_line_is_dropped(
    lines: Seq<Seq<char>>,
    line: Seq<char>,
    delimiter: char,
    layout: Layout,
)
    requires
        split_on(line, delimiter).len() < layout.required(),
    ensures
        accepted(lines.push(line), delimiter, layout) == accepted(lines, delimiter, layout),
{
    assert(lines.push(line).drop_last() =~= lines);
}

/// The positional parser takes a line that splits into at least the
/// required number of tokens. Each field of the new record that has a
/// column in the line holds that column's token. With exactly the required
/// number of tokens the field of the last column is empty; with one token
/// more it holds that token.
pub proof fn law_long_line_is_taken(
    lines: Seq<Seq<char>>,
    line: Seq<char>,
    delimiter: char,
    layout: Layout,
)
    requires
        split_on(line, delimiter).len() >= layout.required(),
    ensures
        ({
            let tokens = split_on(line, delimiter);
            let record = layout.record_of(tokens);
            &&& accepted(lines.push(line), delimiter, layout) == accepted(
                lines,
                delimiter,
                layout,
            ).push(record)
            &&& forall|k: int, f: Field|
                #![trigger record.get(f), tokens[k]]
                layout.column(k) == Some(f) && k < tokens.len() ==> record.get(f) == tokens[k]
            &&& forall|f: Field|
                layout.column(layout.required() as int) == Some(f) && tokens.len()
                    == layout.required() ==> #[trigger] record.get(f) == Seq::<char>::empty()
            &&& forall|f: Field|
                layout.column(layout.required() as int) == Some(f) && tokens.len()
                    == layout.required() + 1 ==> #[trigger] record.get(f)
                    == tokens[layout.required() as int]
        }),
{
    assert(lines.push(line).drop_last() =~= lines);
    let tokens = split_on(line, delimiter);
    let record = layout.record_of(tokens);
    assert forall|k: int, f: Field|
        #![trigger record.get(f), tokens[k]]
        layout.column(k) == Some(f) && k < tokens.len() implies record.get(f) == tokens[k] by {
        lemma_record_columns(layout, tokens, k, f);
    }
    assert forall|f: Field| layout.column(layout.required() as int) == Some(f) implies (tokens.len()
        == layout.required() ==> #[trigger] record.get(f) == Seq::<char>::empty()) && (tokens.len()
        == layout.required() + 1 ==> record.get(f) == tokens[layout.required() as int]) by {
        lemma_record_columns(layout, tokens, layout.required() as int, f);
    }
}

/// Where every line splits into at least the required number of tokens,
/// the positional parser gives one record for each line, in order, and the
/// field of column `k` of record `j` is token `k` of line `j`.
pub proof fn law_positional_round_trip(lines: Seq<Seq<char>>, delimiter: char, layout: Layout)
    requires
        forall|j: int|
            0 <= j < lines.len() ==> split_on(#[trigger] lines[j], delimiter).len()
                >= layout.required(),
    ensures
        accepted(lines, delimiter, layout).len() == lines.len(),
        forall|j: int|
            0 <= j < lines.len() ==> #[trigger] accepted(lines, delimiter, layout)[j]
                == layout.record_of(split_on(lines[j], delimiter)),
        forall|j: int, k: int, f: Field|
            0 <= j < lines.len() && layout.column(k) == Some(f) && k < split_on(
                lines[j],
                delimiter,
            ).len() ==> #[trigger] accepted(lines, delimiter, layout)[j].get(f) == #[trigger] split_on(
                lines[j],
                delimiter,
            )[k],
    decreases lines.len(),
{
    if lines.len() > 0 {
        let front = lines.drop_last();
        assert forall|j: int| 0 <= j < front.len() implies split_on(
            #[trigger] front[j],
            delimiter,
        ).len() >= layout.required() by {
            assert(front[j] == lines[j]);
        }
        law_positional_round_trip(front, delimiter, layout);
        let all = accepted(lines, delimiter, layout);
        assert(split_on(lines.last(), delimiter).len() >= layout.required()) by {
            assert(lines.last() == lines[lines.len() - 1]);
        }
        assert forall|j: int| 0 <= j < lines.len() implies #[trigger] all[j] == layout.record_of(
            split_on(lines[j], delimiter),
        ) by {
            if j < front.len() {
                assert(front[j] == lines[j]);
                assert(all[j] == accepted(front, delimiter, layout)[j]);
            }
        }
        assert forall|j: int, k: int, f: Field|
            0 <= j < lines.len() && layout.column(k) == Some(f) && k < split_on(
                lines[j],
                delimiter,
            ).len() implies #[trigger] all[j].get(f) == #[trigger] split_on(lines[j], delimiter)[k] by {
            assert(all[j] == layout.record_of(split_on(lines[j], delimiter)));
            lemma_record_columns(layout, split_on(lines[j], delimiter), k, f);
        }
    }
}

} // verus!
