//! How a response is shown: its status, its headers in order, and its
//! body, laid out if it is a JSON object.

use crate::hurl::errors::{Error, HurlResult, JsonCategory};
use crate::text::{chars_of, decimal, push_chars, push_decimal, string_of};
use std::collections::BTreeMap;
use vstd::prelude::*;
use vstd::string::StringExecFns;

verus! {

/// What `heck::TitleCase::to_title_case` makes of a text: its words,
/// each with a capital first letter, with blanks between them.
pub uninterp spec fn title_case(s: Seq<char>) -> Seq<char>;

/// `heck::TitleCase::to_title_case` for `str`. The contract gives the
/// result its name; where the words of a text begin and end is the
/// crate's to say.
#[verifier::external_body]
fn to_title_case(s: &str) -> (title: String)
    ensures
        title@ == title_case(s@),
{
    heck::TitleCase::to_title_case(s)
}

/// A JSON value of any shape, as `serde_json` holds it.
#[verifier::external_type_specification]
#[verifier::external_body]
pub struct ExValue(serde_json::Value);

/// Whether `serde_json::from_str` reads a text as a JSON object.
pub uninterp spec fn is_json_object(s: Seq<char>) -> bool;

/// `serde_json::from_str` for an object with its keys in order. The
/// contract names the texts for which it succeeds and says nothing of
/// the object.
#[verifier::external_body]
fn parse_object(s: &str) -> (object: Option<BTreeMap<String, serde_json::Value>>)
    ensures
        object is Some == is_json_object(s@),
{
    serde_json::from_str(s).ok()
}

/// `serde_json::to_string_pretty`: the object laid out over several
/// lines, or the category of the error (`Error::classify`). Nothing is
/// claimed of the text.
#[verifier::external_body]
fn to_string_pretty(object: &BTreeMap<String, serde_json::Value>) -> (text: Result<
    String,
    JsonCategory,
>) {
    match serde_json::to_string_pretty(object) {
        Ok(text) => Ok(text),
        Err(e) => Err(
            match e.classify() {
                serde_json::error::Category::Io => JsonCategory::Io,
                serde_json::error::Category::Syntax => JsonCategory::Syntax,
                serde_json::error::Category::Data => JsonCategory::Data,
                serde_json::error::Category::Eof => JsonCategory::Eof,
            },
        ),
    }
}

/// A body as it is shown.
#[derive(Debug, PartialEq, Eq)]
pub struct Rendered {
    /// Whether the text is JSON.
    pub json: bool,
    /// The text to show.
    pub text: String,
}

/// Decides how a body is shown, from what laying it out as a JSON object
/// gave: `None` if the body is no such object.
pub fn rendered(body: &str, pretty: Option<Result<String, JsonCategory>>) -> (shown: HurlResult<
    Rendered,
>)
    ensures
        match pretty {
            None => shown matches Ok(r) && !r.json && r.text@ == body@,
            Some(Ok(text)) => shown matches Ok(r) && r.json && r.text == text,
            Some(Err(category)) => shown matches Err(Error::SerdeJson(c)) && c == category,
        },
{
    match pretty {
        None => Ok(Rendered { json: false, text: body.to_owned() }),
        Some(Ok(text)) => Ok(Rendered { json: true, text }),
        Some(Err(category)) => Err(Error::SerdeJson(category)),
    }
}

/// How the body of a response is shown: a JSON object is laid out over
/// several lines, with its keys in order; any other body is shown as it
/// is.
pub fn render_body(body: &str) -> (shown: HurlResult<Rendered>)
    ensures
        !is_json_object(body@) ==> (shown matches Ok(r) && !r.json && r.text@ == body@),
        is_json_object(body@) ==> (shown matches Ok(r) ==> r.json),
        is_json_object(body@) ==> (shown matches Err(e) ==> e is SerdeJson),
{
    let pretty = match parse_object(body) {
        Some(object) => Some(to_string_pretty(&object)),
        None => None,
    };
    rendered(body, pretty)
}

/// Whether a text comes before another, or is the same, in the order of
/// strings: the first character in which they differ decides, and a
/// text comes before every text that it begins.
pub open spec fn text_le(a: Seq<char>, b: Seq<char>) -> bool
    decreases a.len(),
{
    if a.len() == 0 {
        true
    } else if b.len() == 0 {
        false
    } else if a[0] != b[0] {
        a[0] < b[0]
    } else {
        text_le(a.drop_first(), b.drop_first())
    }
}

/// Whether some lines stand in the order of strings.
pub open spec fn ordered(lines: Seq<Seq<char>>) -> bool {
    forall|i: int, j: int| 0 <= i <= j < lines.len() ==> text_le(lines[i], lines[j])
}

/// Ordered lines with one more line put in its place: behind every line
/// that does not come after it.
pub open spec fn insert_sorted(lines: Seq<Seq<char>>, line: Seq<char>) -> Seq<Seq<char>>
    decreases lines.len(),
{
    if lines.len() == 0 {
        seq![line]
    } else if text_le(lines.last(), line) {
        lines.push(line)
    } else {
        insert_sorted(lines.drop_last(), line).push(lines.last())
    }
}

/// Some lines in the order of strings.
pub open spec fn sorted(lines: Seq<Seq<char>>) -> Seq<Seq<char>>
    decreases lines.len(),
{
    if lines.len() == 0 {
        Seq::empty()
    } else {
        insert_sorted(sorted(lines.drop_last()), lines.last())
    }
}

/// Some lines, one behind the other, with `between` between them.
pub open spec fn joined(lines: Seq<Seq<char>>, between: Seq<char>) -> Seq<char>
    decreases lines.len(),
{
    if lines.len() == 0 {
        Seq::empty()
    } else if lines.len() == 1 {
        lines[0]
    } else {
        joined(lines.drop_last(), between) + between + lines.last()
    }
}

/// A text with a hyphen in place of every blank.
pub open spec fn dashed(s: Seq<char>) -> Seq<char> {
    s.map_values(
        |c: char|
            if c == ' ' {
                '-'
            } else {
                c
            },
    )
}

/// The line that shows a header: its name with capital first letters and
/// hyphens between the words, a colon, and its value. A value that is
/// not text is shown as `BAD HEADER VALUE`.
pub open spec fn header_line(key: Seq<char>, value: Option<Seq<char>>) -> Seq<char> {
    dashed(title_case(key)) + seq![':', ' '] + match value {
        Some(value) => value,
        None => "BAD HEADER VALUE"@,
    }
}

/// The line that shows the length of the body.
pub open spec fn length_line(length: nat) -> Seq<char> {
    "Content-length: "@ + decimal(length)
}

/// The line that shows the status of a response: the version of the
/// protocol, the number of the status, and the phrase that goes with it,
/// or `Unknown`.
pub open spec fn status_line(version: Seq<char>, status: u16, reason: Option<Seq<char>>) -> Seq<
    char,
> {
    version + seq![' '] + decimal(status as nat) + seq![' '] + (match reason {
        Some(reason) => reason,
        None => "Unknown"@,
    }) + seq!['\n']
}

/// The headers of a response as plain values.
pub open spec fn header_texts(headers: Seq<(String, Option<String>)>) -> Seq<
    (Seq<char>, Option<Seq<char>>),
> {
    headers.map_values(
        |header: (String, Option<String>)|
            (
                header.0@,
                match header.1 {
                    Some(value) => Some(value@),
                    None => None,
                },
            ),
    )
}

/// The lines that show some headers, in the order of the headers.
pub open spec fn header_lines(headers: Seq<(Seq<char>, Option<Seq<char>>)>) -> Seq<Seq<char>> {
    headers.map_values(|header: (Seq<char>, Option<Seq<char>>)| header_line(header.0, header.1))
}

/// The head of a response as it is shown: the status line, and below it
/// the headers and the length of the body, one on a line, in the order
/// of strings.
pub open spec fn head_of(
    version: Seq<char>,
    status: u16,
    reason: Option<Seq<char>>,
    headers: Seq<(Seq<char>, Option<Seq<char>>)>,
    length: nat,
) -> Seq<char> {
    status_line(version, status, reason) + joined(
        sorted(header_lines(headers).push(length_line(length))),
        seq!['\n'],
    )
}

/// The views of some lines.
pub open spec fn line_texts(lines: Seq<Vec<char>>) -> Seq<Seq<char>> {
    lines.map_values(|line: Vec<char>| line@)
}

/// Tells whether a text comes before another, or is the same.
pub fn text_before(a: &Vec<char>, b: &Vec<char>) -> (le: bool)
    ensures
        le == text_le(a@, b@),
{
    let mut i: usize = 0;
    assert(a@.skip(0) =~= a@);
    assert(b@.skip(0) =~= b@);
    while i < a.len() && i < b.len() && a[i] == b[i]
        invariant
            i <= a.len(),
            i <= b.len(),
            text_le(a@, b@) == text_le(a@.skip(i as int), b@.skip(i as int)),
        decreases a.len() - i,
    {
        assert(a@.skip(i as int).drop_first() =~= a@.skip(i + 1));
        assert(b@.skip(i as int).drop_first() =~= b@.skip(i + 1));
        assert(a@.skip(i as int)[0] == b@.skip(i as int)[0]);
        i = i + 1;
    }
    if i < a.len() && i < b.len() {
        assert(a@.skip(i as int)[0] == a@[i as int]);
        assert(b@.skip(i as int)[0] == b@[i as int]);
    }
    if i == a.len() {
        true
    } else if i == b.len() {
        false
    } else {
        a[i] < b[i]
    }
}

/// Puts a line in its place among ordered lines.
fn insert_line(lines: &mut Vec<Vec<char>>, line: Vec<char>)
    ensures
        line_texts(final(lines)@) == insert_sorted(line_texts(old(lines)@), line@),
{
    let ghost before = line_texts(lines@);
    let mut at: usize = lines.len();
    assert(before.take(at as int) =~= before);
    assert(insert_sorted(before.take(at as int), line@) + before.skip(at as int) =~= insert_sorted(
        before,
        line@,
    ));
    while at > 0 && !text_before(&lines[at - 1], &line)
        invariant
            at <= lines.len(),
            lines@ == old(lines)@,
            before == line_texts(lines@),
            insert_sorted(before, line@) == insert_sorted(before.take(at as int), line@)
                + before.skip(at as int),
        decreases at,
    {
        let ghost front = before.take(at as int);
        assert(front.drop_last() =~= before.take(at - 1));
        assert(front.last() == lines@[at - 1]@);
        assert(insert_sorted(front.drop_last(), line@).push(front.last()) + before.skip(
            at as int,
        ) =~= insert_sorted(before.take(at - 1), line@) + before.skip(at - 1));
        at = at - 1;
    }
    proof {
        let front = before.take(at as int);
        if at > 0 {
            assert(front.last() == lines@[at - 1]@);
        }
        assert(insert_sorted(front, line@) == front.push(line@));
    }
    lines.insert(at, line);
    assert(line_texts(lines@) =~= before.take(at as int).push(line@) + before.skip(at as int));
}

/// Shows the head of a response. `content_length` is the length that
/// the response states for its body, if it states one; else the length
/// of the body in bytes is shown.
pub fn response_head(
    version: &str,
    status: u16,
    reason: Option<&str>,
    headers: &Vec<(String, Option<String>)>,
    content_length: Option<u64>,
    body: &str,
) -> (head: String)
    ensures
        head@ == head_of(
            version@,
            status,
            match reason {
                Some(reason) => Some(reason@),
                None => None,
            },
            header_texts(headers@),
            match content_length {
                Some(length) => length as nat,
                None => body.len() as nat,
            },
        ),
{
    let mut head = String::from_str(version);
    head.push(' ');
    push_decimal(&mut head, status as u64);
    head.push(' ');
    match reason {
        Some(reason) => head.append(reason),
        None => head.append("Unknown"),
    }
    head.push('\n');
    let ghost first = head@;
    assert(first =~= status_line(
        version@,
        status,
        match reason {
            Some(reason) => Some(reason@),
            None => None,
        },
    ));
    let ghost texts = header_texts(headers@);
    let mut lines: Vec<Vec<char>> = Vec::new();
    let mut i: usize = 0;
    assert(header_lines(texts).take(0) =~= Seq::empty());
    assert(line_texts(lines@) =~= Seq::empty());
    while i < headers.len()
        invariant
            i <= headers.len(),
            texts == header_texts(headers@),
            line_texts(lines@) == sorted(header_lines(texts).take(i as int)),
        decreases headers.len() - i,
    {
        let mut line = chars_of(to_title_case(headers[i].0.as_str()).as_str());
        let ghost title = line@;
        let mut k: usize = 0;
        while k < line.len()
            invariant
                k <= line.len(),
                line@.len() == title.len(),
                forall|j: int| 0 <= j < k ==> line@[j] == dashed(title)[j],
                forall|j: int| k <= j < line.len() ==> line@[j] == title[j],
            decreases line.len() - k,
        {
            if line[k] == ' ' {
                line.set(k, '-');
            }
            k = k + 1;
        }
        assert(line@ =~= dashed(title));
        line.push(':');
        line.push(' ');
        match &headers[i].1 {
            Some(value) => push_chars(&mut line, &chars_of(value.as_str())),
            None => push_chars(&mut line, &chars_of("BAD HEADER VALUE")),
        }
        assert(line@ =~= header_line(texts[i as int].0, texts[i as int].1));
        assert(header_lines(texts).take(i + 1).drop_last() =~= header_lines(texts).take(i as int));
        insert_line(&mut lines, line);
        i = i + 1;
    }
    assert(header_lines(texts).take(headers.len() as int) =~= header_lines(texts));
    let length: u64 = match content_length {
        Some(length) => length,
        None => body.len() as u64,
    };
    let mut last = String::from_str("Content-length: ");
    push_decimal(&mut last, length);
    assert(header_lines(texts).push(length_line(length as nat)).drop_last() =~= header_lines(
        texts,
    ));
    insert_line(&mut lines, chars_of(last.as_str()));
    let ghost all = line_texts(lines@);
    let mut n: usize = 0;
    assert(all.take(0) =~= Seq::empty());
    while n < lines.len()
        invariant
            n <= lines.len(),
            all == line_texts(lines@),
            head@ == first + joined(all.take(n as int), seq!['\n']),
        decreases lines.len() - n,
    {
        let ghost done = all.take(n as int);
        let ghost next = all.take(n + 1);
        assert(next.drop_last() =~= done);
        assert(next.last() == lines@[n as int]@);
        if n > 0 {
            head.push('\n');
        }
        head.append(string_of(&lines[n]).as_str());
        assert(head@ =~= first + joined(next, seq!['\n'])) by {
            if n == 0 {
                assert(done =~= Seq::empty());
                assert(next[0] == next.last());
            }
        }
        n = n + 1;
    }
    assert(all.take(lines.len() as int) =~= all);
    head
}

/// Of two texts one comes before the other, or they are the same.
pub proof fn lemma_text_le_total(a: Seq<char>, b: Seq<char>)
    ensures
        text_le(a, b) || text_le(b, a),
        text_le(a, b) && text_le(b, a) ==> a == b,
    decreases a.len(),
{
    if a.len() > 0 && b.len() > 0 && a[0] == b[0] {
        lemma_text_le_total(a.drop_first(), b.drop_first());
        if text_le(a, b) && text_le(b, a) {
            assert(a =~= seq![a[0]] + a.drop_first());
            assert(b =~= seq![b[0]] + b.drop_first());
        }
    } else if a.len() == 0 && b.len() == 0 {
        assert(a =~= b);
    }
}

/// What comes before a text comes before everything behind that text.
pub proof fn lemma_text_le_transitive(a: Seq<char>, b: Seq<char>, c: Seq<char>)
    requires
        text_le(a, b),
        text_le(b, c),
    ensures
        text_le(a, c),
    decreases a.len(),
{
    if a.len() > 0 && b.len() > 0 && c.len() > 0 && a[0] == b[0] && b[0] == c[0] {
        lemma_text_le_transitive(a.drop_first(), b.drop_first(), c.drop_first());
    }
}

/// A line that is put in its place among ordered lines leaves them
/// ordered, and the lines are those of before and the new one.
pub proof fn lemma_insert_sorted(lines: Seq<Seq<char>>, line: Seq<char>)
    requires
        ordered(lines),
    ensures
        ordered(insert_sorted(lines, line)),
        insert_sorted(lines, line).to_multiset() == lines.to_multiset().insert(line),
        insert_sorted(lines, line).len() == lines.len() + 1,
    decreases lines.len(),
{
    broadcast use vstd::seq_lib::group_to_multiset_ensures;

    let result = insert_sorted(lines, line);
    if lines.len() == 0 {
        lemma_text_le_total(line, line);
        assert(lines =~= Seq::empty());
        assert(result =~= Seq::<Seq<char>>::empty().push(line));
    } else if text_le(lines.last(), line) {
        lemma_text_le_total(line, line);
        assert forall|i: int, j: int| 0 <= i <= j < result.len() implies text_le(
            result[i],
            result[j],
        ) by {
            if j == lines.len() && i < lines.len() {
                lemma_text_le_transitive(lines[i], lines.last(), line);
            }
        }
    } else {
        let front = lines.drop_last();
        let inner = insert_sorted(front, line);
        assert forall|i: int, j: int| 0 <= i <= j < front.len() implies text_le(
            front[i],
            front[j],
        ) by {
            assert(front[i] == lines[i] && front[j] == lines[j]);
        }
        lemma_insert_sorted(front, line);
        lemma_text_le_total(lines.last(), line);
        lemma_text_le_total(lines.last(), lines.last());
        assert(lines =~= front.push(lines.last()));
        assert forall|i: int, j: int| 0 <= i <= j < result.len() implies text_le(
            result[i],
            result[j],
        ) by {
            if j == inner.len() && i < inner.len() {
                assert(inner.contains(inner[i]));
                assert(inner.to_multiset().count(inner[i]) > 0);
                if inner[i] != line {
                    assert(front.to_multiset().count(inner[i]) > 0);
                    assert(front.contains(inner[i]));
                    let k = choose|k: int| 0 <= k < front.len() && front[k] == inner[i];
                    assert(text_le(lines[k], lines[lines.len() - 1]));
                }
            }
        }
        assert(result.to_multiset() =~= lines.to_multiset().insert(line));
    }
}

/// Sorting puts lines in order and neither loses nor adds a line.
pub proof fn lemma_sorted(lines: Seq<Seq<char>>)
    ensures
        ordered(sorted(lines)),
        sorted(lines).to_multiset() == lines.to_multiset(),
        sorted(lines).len() == lines.len(),
    decreases lines.len(),
{
    broadcast use vstd::seq_lib::group_to_multiset_ensures;

    if lines.len() > 0 {
        lemma_sorted(lines.drop_last());
        lemma_insert_sorted(sorted(lines.drop_last()), lines.last());
        assert(lines =~= lines.drop_last().push(lines.last()));
    } else {
        assert(lines =~= Seq::empty());
    }
}

} // verus!
