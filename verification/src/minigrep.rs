//! Searching a text for the lines that hold a query.

use crate::text::chars_of;
use vstd::prelude::*;
use vstd::string::StrSliceExecFns;

verus! {

/// What to search for, where, and how.
pub struct Config {
    pub query: String,
    pub filename: String,
    pub case_sensitive: bool,
}

/// What `str::to_lowercase` makes of a text: its lower-case form by the
/// rules of Unicode.
pub uninterp spec fn lowercase(s: Seq<char>) -> Seq<char>;

/// `str::to_lowercase`: the lower-case form of a text. The contract gives
/// the result its name; the rules of Unicode that it follows are not
/// stated.
#[verifier::external_body]
fn to_lowercase(s: &str) -> (lower: String)
    ensures
        lower@ == lowercase(s@),
{
    s.to_lowercase()
}

/// Whether `query` occurs in `line` at position `at`.
pub open spec fn occurs_at(line: Seq<char>, query: Seq<char>, at: int) -> bool {
    0 <= at && at + query.len() <= line.len() && line.subrange(at, at + query.len()) == query
}

/// Whether `query` occurs somewhere in `line`.
pub open spec fn contains(line: Seq<char>, query: Seq<char>) -> bool {
    exists|at: int| occurs_at(line, query, at)
}

/// Where the line that begins at `from` ends: at the next line feed, or
/// at the end of the text.
pub open spec fn line_end(s: Seq<char>, from: int) -> int
    decreases s.len() - from,
{
    if from >= s.len() {
        s.len() as int
    } else if s[from] == '\n' {
        from
    } else {
        line_end(s, from + 1)
    }
}

/// Where the contents of the line that begins at `from` end: in front of
/// its line feed, and in front of a carriage return that stands before
/// the line feed.
pub open spec fn content_end(s: Seq<char>, from: int) -> int {
    let end = line_end(s, from);
    if end < s.len() && from < end && s[end - 1] == '\r' {
        end - 1
    } else {
        end
    }
}

/// The lines of `s` from position `from` on, without their line ends.
pub open spec fn lines_from(s: Seq<char>, from: int) -> Seq<Seq<char>>
    decreases s.len() - from,
{
    if from >= s.len() || from < 0 {
        Seq::empty()
    } else {
        proof {
            lemma_line_end(s, from);
        }
        seq![s.subrange(from, content_end(s, from))] + (if line_end(s, from) < s.len() {
            lines_from(s, line_end(s, from) + 1)
        } else {
            Seq::empty()
        })
    }
}

/// The lines of a text. A line ends with a line feed, or with a carriage
/// return and a line feed; the last line needs no end.
pub open spec fn lines_of(s: Seq<char>) -> Seq<Seq<char>> {
    lines_from(s, 0)
}

/// The texts of some string slices.
pub open spec fn texts<'a>(lines: Seq<&'a str>) -> Seq<Seq<char>> {
    lines.map_values(|line: &'a str| line@)
}

/// A line ends at or behind its begin, within the text, and no line feed
/// stands in it.
pub proof fn lemma_line_end(s: Seq<char>, from: int)
    requires
        0 <= from <= s.len(),
    ensures
        from <= content_end(s, from) <= line_end(s, from) <= s.len(),
        forall|k: int| from <= k < line_end(s, from) ==> s[k] != '\n',
        line_end(s, from) < s.len() ==> s[line_end(s, from)] == '\n',
    decreases s.len() - from,
{
    if from < s.len() && s[from] != '\n' {
        lemma_line_end(s, from + 1);
    }
}

/// Whether `query` occurs in the part of `chars` from `from` up to `to`.
fn occurs_in(chars: &Vec<char>, from: usize, to: usize, query: &Vec<char>) -> (found: bool)
    requires
        from <= to <= chars.len(),
    ensures
        found == contains(chars@.subrange(from as int, to as int), query@),
{
    let ghost line = chars@.subrange(from as int, to as int);
    let width = query.len();
    if width > to - from {
        assert(!contains(line, query@)) by {
            assert forall|at: int| !occurs_at(line, query@, at) by {}
        }
        return false;
    }
    let last = to - from - width;
    let mut at: usize = 0;
    while at <= last
        invariant
            from <= to <= chars.len(),
            width == query.len(),
            width <= to - from,
            last == to - from - width,
            at <= last + 1,
            line == chars@.subrange(from as int, to as int),
            forall|k: int| 0 <= k < at ==> !occurs_at(line, query@, k),
        decreases last + 1 - at,
    {
        let mut i: usize = 0;
        while i < width && chars[from + at + i] == query[i]
            invariant
                from <= to <= chars.len(),
                width == query.len(),
                at + width <= to - from,
                i <= width,
                line == chars@.subrange(from as int, to as int),
                forall|k: int| 0 <= k < i ==> line[at + k] == query@[k],
            decreases width - i,
        {
            assert(line[at + i] == chars@[from + at + i]);
            i = i + 1;
        }
        if i == width {
            assert(line.subrange(at as int, at + width) =~= query@);
            assert(occurs_at(line, query@, at as int));
            return true;
        }
        assert(!occurs_at(line, query@, at as int)) by {
            assert(line[at + i] == chars@[from + at + i]);
            if occurs_at(line, query@, at as int) {
                assert(line.subrange(at as int, at + width)[i as int] == query@[i as int]);
            }
        }
        at = at + 1;
    }
    assert(!contains(line, query@)) by {
        assert forall|k: int| !occurs_at(line, query@, k) by {}
    }
    false
}

/// Finds where the line that begins at `from` ends, and where its
/// contents end.
fn next_line(chars: &Vec<char>, from: usize) -> (ends: (usize, usize))
    requires
        from < chars.len(),
    ensures
        ends.0 == content_end(chars@, from as int),
        ends.1 == line_end(chars@, from as int),
        from <= ends.0 <= ends.1 <= chars.len(),
{
    let mut end: usize = from;
    while end < chars.len() && chars[end] != '\n'
        invariant
            from <= end <= chars.len(),
            line_end(chars@, from as int) == line_end(chars@, end as int),
        decreases chars.len() - end,
    {
        end = end + 1;
    }
    proof {
        lemma_line_end(chars@, from as int);
    }
    if end < chars.len() && from < end && chars[end - 1] == '\r' {
        (end - 1, end)
    } else {
        (end, end)
    }
}

/// The lines of `contents` that hold `query`, in their order.
pub fn search<'a>(query: &str, contents: &'a str) -> (found: Vec<&'a str>)
    ensures
        texts(found@) == lines_of(contents@).filter(|line: Seq<char>| contains(line, query@)),
{
    let wanted = chars_of(query);
    let chars = chars_of(contents);
    let ghost holds = |line: Seq<char>| contains(line, query@);
    let ghost mut seen: Seq<Seq<char>> = Seq::empty();
    let mut found: Vec<&'a str> = Vec::new();
    let mut from: usize = 0;
    proof {
        reveal(Seq::filter);
        assert(texts(found@) =~= seen.filter(holds));
    }
    while from < chars.len()
        invariant
            from <= chars.len(),
            chars@ == contents@,
            wanted@ == query@,
            holds == (|line: Seq<char>| contains(line, query@)),
            seen + lines_from(chars@, from as int) == lines_of(chars@),
            texts(found@) == seen.filter(holds),
        decreases chars.len() - from,
    {
        let (content, end) = next_line(&chars, from);
        let ghost line = chars@.subrange(from as int, content as int);
        let ghost before = texts(found@);
        if occurs_in(&chars, from, content, &wanted) {
            found.push(contents.substring_char(from, content));
            assert(texts(found@) =~= before.push(line));
        }
        proof {
            reveal(Seq::filter);
            assert(seen.push(line).drop_last() =~= seen);
            assert(lines_from(chars@, end + 1) =~= lines_from(
                chars@,
                if end < chars.len() {
                    end + 1
                } else {
                    end as int
                },
            ));
            assert(seen + lines_from(chars@, from as int) =~= seen.push(line) + lines_from(
                chars@,
                end + 1,
            ));
            seen = seen.push(line);
        }
        from = if end < chars.len() {
            end + 1
        } else {
            end
        };
    }
    assert(seen =~= lines_of(chars@));
    found
}

/// The lines of `contents` that hold `query`, where capital and small
/// letters count as the same: the query and each line are compared in
/// their lower-case forms.
pub fn search_case_insensitive<'a>(query: &str, contents: &'a str) -> (found: Vec<&'a str>)
    ensures
        texts(found@) == lines_of(contents@).filter(
            |line: Seq<char>| contains(lowercase(line), lowercase(query@)),
        ),
{
    let query = to_lowercase(query);
    let wanted = chars_of(query.as_str());
    let chars = chars_of(contents);
    let ghost holds = |line: Seq<char>| contains(lowercase(line), wanted@);
    let ghost mut seen: Seq<Seq<char>> = Seq::empty();
    let mut found: Vec<&'a str> = Vec::new();
    let mut from: usize = 0;
    proof {
        reveal(Seq::filter);
        assert(texts(found@) =~= seen.filter(holds));
    }
    while from < chars.len()
        invariant
            from <= chars.len(),
            chars@ == contents@,
            holds == (|line: Seq<char>| contains(lowercase(line), wanted@)),
            seen + lines_from(chars@, from as int) == lines_of(chars@),
            texts(found@) == seen.filter(holds),
        decreases chars.len() - from,
    {
        let (content, end) = next_line(&chars, from);
        let line = contents.substring_char(from, content);
        let lower = chars_of(to_lowercase(line).as_str());
        let ghost before = texts(found@);
        if occurs_in(&lower, 0, lower.len(), &wanted) {
            found.push(line);
            assert(texts(found@) =~= before.push(line@));
        }
        proof {
            reveal(Seq::filter);
            assert(lower@.subrange(0, lower.len() as int) =~= lower@);
            assert(seen.push(line@).drop_last() =~= seen);
            assert(lines_from(chars@, end + 1) =~= lines_from(
                chars@,
                if end < chars.len() {
                    end + 1
                } else {
                    end as int
                },
            ));
            assert(seen + lines_from(chars@, from as int) =~= seen.push(line@) + lines_from(
                chars@,
                end + 1,
            ));
            seen = seen.push(line@);
        }
        from = if end < chars.len() {
            end + 1
        } else {
            end
        };
    }
    assert(seen =~= lines_of(chars@));
    found
}

impl Config {
    /// What the arguments of the program ask for. The first argument is
    /// the name of the program and is passed over; the query and the name
    /// of the file follow. The search minds the case of letters unless
    /// the environment asks otherwise, which `ignore_case` tells.
    pub fn new(args: &Vec<String>, ignore_case: bool) -> (config: Result<Config, &'static str>)
        ensures
            args.len() < 2 ==> (config matches Err(message) && message@
                == "Didn't get a query string"@),
            args.len() == 2 ==> (config matches Err(message) && message@
                == "Didn't get a file name"@),
            args.len() > 2 ==> (config matches Ok(c) && c.query@ == args[1]@ && c.filename@
                == args[2]@ && c.case_sensitive == !ignore_case),
    {
        if args.len() < 2 {
            return Err("Didn't get a query string");
        }
        let query = args[1].clone();
        if args.len() < 3 {
            return Err("Didn't get a file name");
        }
        let filename = args[2].clone();
        Ok(Config { query, filename, case_sensitive: !ignore_case })
    }
}

/// The lines to print for a search in the contents of the file: those
/// that hold the query, with or without regard to case as the
/// configuration says.
pub fn run<'a>(config: &Config, contents: &'a str) -> (results: Vec<&'a str>)
    ensures
        texts(results@) == lines_of(contents@).filter(
            |line: Seq<char>|
                if config.case_sensitive {
                    contains(line, config.query@)
                } else {
                    contains(lowercase(line), lowercase(config.query@))
                },
        ),
{
    if config.case_sensitive {
        let results = search(config.query.as_str(), contents);
        assert((|line: Seq<char>| contains(line, config.query@)) =~= (|line: Seq<char>|
            if config.case_sensitive {
                contains(line, config.query@)
            } else {
                contains(lowercase(line), lowercase(config.query@))
            }));
        results
    } else {
        let results = search_case_insensitive(config.query.as_str(), contents);
        assert((|line: Seq<char>| contains(lowercase(line), lowercase(config.query@))) =~= (|
            line: Seq<char>,
        |
            if config.case_sensitive {
                contains(line, config.query@)
            } else {
                contains(lowercase(line), lowercase(config.query@))
            }));
        results
    }
}

} // verus!
