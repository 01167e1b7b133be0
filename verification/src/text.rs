//! Character-level building blocks shared by the parsers and the formatters.
//!
//! Every contract here is stated over `Seq<char>`, the view of a string. The
//! executable functions work on a `Vec<char>` taken once from the input, so
//! that walking a large text stays linear.

use vstd::prelude::*;
use vstd::string::*;

verus! {

/// Appends one character to `s`.
///
/// Trusted: `String::push` adds the given character at the end and leaves
/// what was there before untouched.
#[verifier::external_body]
pub(crate) fn push_char(s: &mut String, c: char)
    ensures
        final(s)@ == old(s)@.push(c),
{
    s.push(c)
}

/// The views of a sequence of strings, one by one.
pub open spec fn views(v: Seq<String>) -> Seq<Seq<char>> {
    Seq::new(v.len(), |i: int| v[i]@)
}

/// Pushing a string onto a vector pushes its view onto the vector's views.
pub proof fn lemma_views_push(v: Seq<String>, s: String)
    ensures
        views(v.push(s)) == views(v).push(s@),
{
    assert(views(v.push(s)) =~= views(v).push(s@));
}

/// The characters of `s`, in order.
pub fn chars_of(s: &str) -> (v: Vec<char>)
    ensures
        v@ == s@,
{
    broadcast use vstd::string::axiom_spec_iter;

    let mut v: Vec<char> = Vec::new();
    for c in it: s.chars()
        invariant
            it.seq() == s@,
            v@ == it.seq().take(it.index()),
    {
        v.push(c);
    }
    assert(v@ == s@);
    v
}

/// The string made of `chars[from..to]`.
pub fn string_of(chars: &Vec<char>, from: usize, to: usize) -> (s: String)
    requires
        from <= to <= chars.len(),
    ensures
        s@ == chars@.subrange(from as int, to as int),
{
    let mut s = String::new();
    let mut i: usize = from;
    while i < to
        invariant
            from <= i <= to <= chars.len(),
            s@ == chars@.subrange(from as int, i as int),
        decreases to - i,
    {
        push_char(&mut s, chars[i]);
        i = i + 1;
        assert(s@ =~= chars@.subrange(from as int, i as int));
    }
    s
}

/// The length of the longest prefix of `s` whose items all satisfy `p`.
pub open spec fn run_len<T>(s: Seq<T>, p: spec_fn(T) -> bool) -> nat
    decreases s.len(),
{
    if s.len() > 0 && p(s[0]) {
        1 + run_len(s.skip(1), p)
    } else {
        0
    }
}

/// What `run_len` returns: it stays within `s`, every item before it
/// satisfies `p`, and the item at it, if there is one, does not.
pub proof fn lemma_run_len_props<T>(s: Seq<T>, p: spec_fn(T) -> bool)
    ensures
        run_len(s, p) <= s.len(),
        forall|j: int| 0 <= j < run_len(s, p) ==> p(#[trigger] s[j]),
        run_len(s, p) < s.len() ==> !p(s[run_len(s, p) as int]),
    decreases s.len(),
{
    if s.len() > 0 && p(s[0]) {
        let t = s.skip(1);
        lemma_run_len_props(t, p);
        assert forall|j: int| 0 <= j < run_len(s, p) implies p(#[trigger] s[j]) by {
            if j > 0 {
                assert(s[j] == t[j - 1]);
            }
        }
        if run_len(s, p) < s.len() {
            assert(s[run_len(s, p) as int] == t[run_len(t, p) as int]);
        }
    }
}

/// A position with those three properties is `run_len`.
pub proof fn lemma_run_len_is<T>(s: Seq<T>, p: spec_fn(T) -> bool, n: int)
    requires
        0 <= n <= s.len(),
        forall|j: int| 0 <= j < n ==> p(#[trigger] s[j]),
        n < s.len() ==> !p(s[n]),
    ensures
        run_len(s, p) == n,
    decreases n,
{
    if n > 0 {
        let t = s.skip(1);
        assert(p(s[0]));
        assert forall|j: int| 0 <= j < n - 1 implies p(#[trigger] t[j]) by {
            assert(t[j] == s[j + 1]);
        }
        if n - 1 < t.len() {
            assert(t[n - 1] == s[n]);
        }
        lemma_run_len_is(t, p, n - 1);
    }
}

/// The predicate "is not the character `d`".
pub open spec fn not_char(d: char) -> spec_fn(char) -> bool {
    |c: char| c != d
}

/// The first index in `chars[from..to]` that holds `d`, or `to` if none does.
pub fn scan_to(chars: &Vec<char>, from: usize, to: usize, d: char) -> (end: usize)
    requires
        from <= to <= chars.len(),
    ensures
        from <= end <= to,
        end - from == run_len(chars@.subrange(from as int, to as int), not_char(d)),
{
    let mut i: usize = from;
    while i < to && chars[i] != d
        invariant
            from <= i <= to <= chars.len(),
            forall|j: int| from <= j < i ==> chars@[j] != d,
        decreases to - i,
    {
        i = i + 1;
    }
    proof {
        let s = chars@.subrange(from as int, to as int);
        let p = not_char(d);
        assert forall|j: int| 0 <= j < i - from implies p(#[trigger] s[j]) by {
            assert(s[j] == chars@[from + j]);
        }
        lemma_run_len_is(s, p, i - from);
    }
    i
}

/// The pieces of `s` between occurrences of `d`. There is always at least
/// one piece; two delimiters in a row give an empty piece between them, and a
/// delimiter at the end gives an empty last piece.
pub open spec fn split_on(s: Seq<char>, d: char) -> Seq<Seq<char>>
    decreases s.len(),
{
    let n = run_len(s, not_char(d)) as int;
    if n >= s.len() {
        seq![s]
    } else {
        seq![s.take(n)] + split_on(s.skip(n + 1), d)
    }
}

/// Splits `chars[from..to]` at every `d`.
pub fn split_fields(chars: &Vec<char>, from: usize, to: usize, d: char) -> (out: Vec<String>)
    requires
        from <= to <= chars.len(),
    ensures
        views(out@) == split_on(chars@.subrange(from as int, to as int), d),
{
    let ghost whole = chars@.subrange(from as int, to as int);
    let mut out: Vec<String> = Vec::new();
    let mut pos: usize = from;
    assert(views(out@) + split_on(whole, d) =~= split_on(whole, d));
    loop
        invariant_except_break
            from <= pos <= to <= chars.len(),
            whole == chars@.subrange(from as int, to as int),
            split_on(whole, d) == views(out@) + split_on(
                chars@.subrange(pos as int, to as int),
                d,
            ),
        ensures
            views(out@) == split_on(whole, d),
        decreases to - pos,
    {
        let end = scan_to(chars, pos, to, d);
        let piece = string_of(chars, pos, end);
        let ghost rest = chars@.subrange(pos as int, to as int);
        let ghost before = out@;
        out.push(piece);
        proof {
            lemma_views_push(before, piece);
            assert(rest.take(end - pos) =~= chars@.subrange(pos as int, end as int));
        }
        if end == to {
            proof {
                assert(rest =~= chars@.subrange(pos as int, end as int));
                assert(views(before) + seq![rest] =~= views(before).push(piece@));
            }
            break;
        }
        proof {
            assert(rest.skip(end - pos + 1) =~= chars@.subrange(end + 1, to as int));
            let tail = split_on(chars@.subrange(end + 1, to as int), d);
            assert(views(before) + (seq![piece@] + tail) =~= views(before).push(piece@) + tail);
        }
        pos = end + 1;
    }
    out
}

/// `s` without one carriage return at its end, if it has one there.
pub open spec fn strip_cr(s: Seq<char>) -> Seq<char> {
    if s.len() > 0 && s.last() == '\r' {
        s.drop_last()
    } else {
        s
    }
}

/// The lines of `s`. A line ends at a line feed; a carriage return just
/// before that line feed belongs to the line ending too. What follows the
/// last line feed is a line only if it is not empty, and it keeps a carriage
/// return at its end.
pub open spec fn lines_of(s: Seq<char>) -> Seq<Seq<char>>
    decreases s.len(),
{
    if s.len() == 0 {
        Seq::empty()
    } else {
        let n = run_len(s, not_char('\n')) as int;
        if n >= s.len() {
            seq![s]
        } else {
            seq![strip_cr(s.take(n))] + lines_of(s.skip(n + 1))
        }
    }
}

/// The part of `chars` that each span covers.
pub open spec fn span_texts(chars: Seq<char>, spans: Seq<(usize, usize)>) -> Seq<Seq<char>> {
    Seq::new(spans.len(), |i: int| chars.subrange(spans[i].0 as int, spans[i].1 as int))
}

/// Every span lies within a text of `len` characters.
pub open spec fn spans_within(spans: Seq<(usize, usize)>, len: nat) -> bool {
    forall|i: int| 0 <= i < spans.len() ==> (#[trigger] spans[i]).0 <= spans[i].1 <= len
}

/// Where each line of `chars` starts and ends.
pub fn line_spans(chars: &Vec<char>) -> (spans: Vec<(usize, usize)>)
    ensures
        spans_within(spans@, chars@.len()),
        span_texts(chars@, spans@) == lines_of(chars@),
{
    let len = chars.len();
    let mut spans: Vec<(usize, usize)> = Vec::new();
    let mut pos: usize = 0;
    assert(chars@.subrange(0, len as int) =~= chars@);
    assert(span_texts(chars@, spans@) + lines_of(chars@) =~= lines_of(chars@));
    while pos < len
        invariant
            pos <= len == chars.len(),
            spans_within(spans@, chars@.len()),
            lines_of(chars@) == span_texts(chars@, spans@) + lines_of(
                chars@.subrange(pos as int, len as int),
            ),
        decreases len - pos,
    {
        let end = scan_to(chars, pos, len, '\n');
        let ghost rest = chars@.subrange(pos as int, len as int);
        let ghost before = spans@;
        if end == len {
            spans.push((pos, len));
            proof {
                assert(chars@.subrange(len as int, len as int) =~= Seq::<char>::empty());
                assert(span_texts(chars@, spans@) =~= span_texts(chars@, before) + seq![rest]);
                assert(span_texts(chars@, spans@) + Seq::<Seq<char>>::empty() =~= span_texts(
                    chars@,
                    spans@,
                ));
            }
            pos = len;
        } else {
            let stop = if end > pos && chars[end - 1] == '\r' {
                end - 1
            } else {
                end
            };
            spans.push((pos, stop));
            proof {
                let line = rest.take(end - pos);
                assert(line =~= chars@.subrange(pos as int, end as int));
                assert(strip_cr(line) =~= chars@.subrange(pos as int, stop as int));
                assert(rest.skip(end - pos + 1) =~= chars@.subrange(end + 1, len as int));
                let tail = lines_of(chars@.subrange(end + 1, len as int));
                assert(span_texts(chars@, spans@) =~= span_texts(chars@, before).push(
                    strip_cr(line),
                ));
                assert(span_texts(chars@, before) + (seq![strip_cr(line)] + tail)
                    =~= span_texts(chars@, spans@) + tail);
            }
            pos = end + 1;
        }
    }
    proof {
        assert(chars@.subrange(len as int, len as int) =~= Seq::<char>::empty());
        assert(span_texts(chars@, spans@) + Seq::<Seq<char>>::empty() =~= span_texts(
            chars@,
            spans@,
        ));
    }
    spans
}

/// The characters that separate words: the code points with the Unicode
/// property White_Space.
pub open spec fn is_space(c: char) -> bool {
    ||| ('\t' <= c && c <= '\r')
    ||| c == ' '
    ||| c == '\u{85}'
    ||| c == '\u{a0}'
    ||| c == '\u{1680}'
    ||| ('\u{2000}' <= c && c <= '\u{200a}')
    ||| c == '\u{2028}'
    ||| c == '\u{2029}'
    ||| c == '\u{202f}'
    ||| c == '\u{205f}'
    ||| c == '\u{3000}'
}

/// Whether `c` separates words.
pub fn is_whitespace(c: char) -> (b: bool)
    ensures
        b == is_space(c),
{
    ('\t' <= c && c <= '\r') || c == ' ' || c == '\u{85}' || c == '\u{a0}' || c == '\u{1680}' || (
    '\u{2000}' <= c && c <= '\u{200a}') || c == '\u{2028}' || c == '\u{2029}' || c == '\u{202f}'
        || c == '\u{205f}' || c == '\u{3000}'
}

/// The predicate "does not separate words".
pub open spec fn non_space() -> spec_fn(char) -> bool {
    |c: char| !is_space(c)
}

/// The words of `s`: its longest runs of characters that are not white space,
/// in order. None of them is empty.
pub open spec fn words_of(s: Seq<char>) -> Seq<Seq<char>>
    decreases s.len(),
{
    if s.len() == 0 {
        Seq::empty()
    } else if is_space(s[0]) {
        words_of(s.skip(1))
    } else {
        let n = run_len(s, non_space()) as int;
        proof {
            lemma_run_len_props(s, non_space());
        }
        seq![s.take(n)] + words_of(s.skip(n))
    }
}

/// Splits `s` at white space, as many characters of it as there are between
/// two words, and drops white space at both ends.
pub fn split_whitespace(s: &str) -> (out: Vec<String>)
    ensures
        views(out@) == words_of(s@),
{
    let chars = chars_of(s);
    let len = chars.len();
    let mut out: Vec<String> = Vec::new();
    let mut pos: usize = 0;
    assert(chars@.subrange(0, len as int) =~= chars@);
    assert(views(out@) + words_of(chars@) =~= words_of(chars@));
    while pos < len
        invariant
            pos <= len == chars.len(),
            chars@ == s@,
            words_of(chars@) == views(out@) + words_of(chars@.subrange(pos as int, len as int)),
        decreases len - pos,
    {
        let ghost rest = chars@.subrange(pos as int, len as int);
        if is_whitespace(chars[pos]) {
            proof {
                assert(rest[0] == chars@[pos as int]);
                assert(rest.skip(1) =~= chars@.subrange(pos + 1, len as int));
            }
            pos = pos + 1;
        } else {
            let mut end: usize = pos + 1;
            while end < len && !is_whitespace(chars[end])
                invariant
                    pos < end <= len == chars.len(),
                    forall|j: int| pos <= j < end ==> !is_space(chars@[j]),
                decreases len - end,
            {
                end = end + 1;
            }
            let word = string_of(&chars, pos, end);
            let ghost before = out@;
            out.push(word);
            proof {
                let p = non_space();
                assert(rest[0] == chars@[pos as int]);
                assert forall|j: int| 0 <= j < end - pos implies p(#[trigger] rest[j]) by {
                    assert(rest[j] == chars@[pos + j]);
                }
                if end - pos < rest.len() {
                    assert(rest[end - pos] == chars@[end as int]);
                }
                lemma_run_len_is(rest, p, end - pos);
                lemma_views_push(before, word);
                assert(rest.take(end - pos) =~= chars@.subrange(pos as int, end as int));
                assert(rest.skip(end - pos) =~= chars@.subrange(end as int, len as int));
                let tail = words_of(chars@.subrange(end as int, len as int));
                assert(views(before) + (seq![word@] + tail) =~= views(before).push(word@) + tail);
            }
            pos = end;
        }
    }
    proof {
        assert(chars@.subrange(len as int, len as int) =~= Seq::<char>::empty());
        assert(views(out@) + Seq::<Seq<char>>::empty() =~= views(out@));
    }
    out
}

/// `c` with an ASCII capital letter turned into its small letter.
pub open spec fn lower(c: char) -> char {
    if 'A' <= c && c <= 'Z' {
        ((c as u32) + 32) as char
    } else {
        c
    }
}

/// `s` with every ASCII capital letter turned into its small letter.
pub open spec fn lowered(s: Seq<char>) -> Seq<char> {
    Seq::new(s.len(), |i: int| lower(s[i]))
}

/// Whether `needle` stands in `hay` at index `i`.
pub open spec fn occurs_at(hay: Seq<char>, needle: Seq<char>, i: int) -> bool {
    0 <= i && i + needle.len() <= hay.len() && hay.subrange(i, i + needle.len()) == needle
}

/// Whether `needle` stands somewhere in `hay`.
pub open spec fn contains(hay: Seq<char>, needle: Seq<char>) -> bool {
    exists|i: int| occurs_at(hay, needle, i)
}

/// Whether `c`, made small, is `t`.
pub fn folds_to(c: char, t: char) -> (b: bool)
    ensures
        b == (lower(c) == t),
{
    if 'A' <= c && c <= 'Z' {
        (c as u32) + 32 == (t as u32)
    } else {
        c == t
    }
}

/// Whether `needle` stands somewhere in `chars[from..to]` once its capital
/// letters are made small.
pub fn contains_lowered(chars: &Vec<char>, from: usize, to: usize, needle: &Vec<char>) -> (b: bool)
    requires
        from <= to <= chars.len(),
    ensures
        b == contains(lowered(chars@.subrange(from as int, to as int)), needle@),
{
    let ghost hay = lowered(chars@.subrange(from as int, to as int));
    let m = needle.len();
    if m > to - from {
        return false;
    }
    let last: usize = to - m;
    let mut i: usize = from;
    while i <= last
        invariant
            from <= i <= last + 1,
            last == to - m,
            m == needle.len(),
            from <= to <= chars.len(),
            hay == lowered(chars@.subrange(from as int, to as int)),
            forall|j: int| 0 <= j < i - from ==> !occurs_at(hay, needle@, j),
        decreases last + 1 - i,
    {
        let mut k: usize = 0;
        while k < m && folds_to(chars[i + k], needle[k])
            invariant
                k <= m == needle.len(),
                from <= i <= last,
                last == to - m,
                to <= chars.len(),
                forall|x: int| 0 <= x < k ==> lower(chars@[i + x]) == needle@[x],
            decreases m - k,
        {
            k = k + 1;
        }
        if k == m {
            proof {
                let at = i - from;
                assert(hay.subrange(at, at + m) =~= needle@);
                assert(occurs_at(hay, needle@, at));
            }
            return true;
        }
        proof {
            let at = i - from;
            if occurs_at(hay, needle@, at) {
                assert(hay.subrange(at, at + m)[k as int] == needle@[k as int]);
                assert(false);
            }
        }
        i = i + 1;
    }
    assert(!contains(hay, needle@));
    false
}

/// `n` blanks.
pub open spec fn spaces(n: nat) -> Seq<char> {
    Seq::new(n, |i: int| ' ')
}

/// `s` followed by as many blanks as it takes to reach `width` characters;
/// `s` itself where it is that long already. Nothing is cut off.
pub open spec fn padded(s: Seq<char>, width: nat) -> Seq<char> {
    if s.len() >= width {
        s
    } else {
        s + spaces((width - s.len()) as nat)
    }
}

/// Appends `s` to `out`, filled up with blanks to `width` characters.
pub fn push_padded(out: &mut String, s: &str, width: usize)
    ensures
        final(out)@ == old(out)@ + padded(s@, width as nat),
{
    out.append(s);
    let n = s.unicode_len();
    let mut i: usize = n;
    assert(old(out)@ + s@ + spaces(0) =~= old(out)@ + s@);
    while i < width
        invariant
            n <= i,
            n == s@.len(),
            i <= width || i == n,
            out@ == old(out)@ + s@ + spaces((i - n) as nat),
        decreases width - i,
    {
        push_char(out, ' ');
        i = i + 1;
        assert(out@ =~= old(out)@ + s@ + spaces((i - n) as nat));
    }
    assert(out@ =~= old(out)@ + padded(s@, width as nat));
}

/// The character of the decimal digit `d`.
pub open spec fn digit(d: nat) -> char {
    (48 + d) as char
}

/// `n` in decimal, without leading zeros.
pub open spec fn decimal(n: nat) -> Seq<char>
    decreases n,
{
    if n < 10 {
        seq![digit(n)]
    } else {
        decimal(n / 10).push(digit(n % 10))
    }
}

/// Appends `n` in decimal to `out`.
pub fn push_decimal(out: &mut String, n: u64)
    ensures
        final(out)@ == old(out)@ + decimal(n as nat),
    decreases n,
{
    if n >= 10 {
        push_decimal(out, n / 10);
    }
    let d: u8 = (n % 10) as u8;
    let c: char = (48u8 + d) as char;
    push_char(out, c);
    proof {
        if n >= 10 {
            assert(out@ =~= old(out)@ + decimal(n as nat));
        } else {
            assert(out@ =~= old(out)@ + decimal(n as nat));
        }
    }
}

} // verus!
