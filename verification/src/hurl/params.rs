//! The parameters of a request, as they are written on the command line:
//! a key, a separator that tells what the parameter is, and a value.
//!
//! A backslash in front of `\`, `=`, `@` or `:` takes away the meaning of
//! that character: it cannot be part of the separator. The backslash stays
//! in the key or value.

use crate::hurl::errors::{Error, HurlResult};
use crate::text::{chars_of, push_chars, slice_of, string_of};
use vstd::prelude::*;

verus! {

/// One parameter of a request.
#[derive(Debug, PartialEq, Eq)]
pub enum Parameter {
    /// `key:value`
    Header { key: String, value: String },
    /// `key=value`
    Data { key: String, value: String },
    /// `key:=value`
    RawJsonData { key: String, value: String },
    /// `key==value`
    Query { key: String, value: String },
    /// `key@filename`
    FormFile { key: String, filename: String },
    /// `key=@filename`
    DataFile { key: String, filename: String },
    /// `key:=@filename`
    RawJsonDataFile { key: String, filename: String },
}

/// What stands between the key and the value of a parameter.
#[derive(Clone, Copy, PartialEq, Eq, Debug, Structural)]
pub enum Separator {
    /// `:`
    Colon,
    /// `=`
    Equal,
    /// `@`
    At,
    /// `:=`
    ColonEqual,
    /// `==`
    EqualEqual,
    /// `=@`
    EqualAt,
    /// `:=@`
    Snail,
}

/// A piece of an argument.
#[derive(Debug, PartialEq, Eq)]
pub enum Token {
    /// Characters that stand for themselves.
    Text(Vec<char>),
    /// A character that had a backslash in front of it, without the
    /// backslash.
    Escape(char),
}

/// What a token is, as plain values.
pub enum TokenView {
    Text(Seq<char>),
    Escape(char),
}

impl View for Token {
    type V = TokenView;

    open spec fn view(&self) -> TokenView {
        match self {
            Token::Text(text) => TokenView::Text(text@),
            Token::Escape(c) => TokenView::Escape(*c),
        }
    }
}

/// The views of some tokens.
pub open spec fn views(tokens: Seq<Token>) -> Seq<TokenView> {
    tokens.map_values(|token: Token| token@)
}

/// Whether a backslash in front of `c` makes an escape.
pub open spec fn is_escapable(c: char) -> bool {
    c == '\\' || c == '=' || c == '@' || c == ':'
}

/// The text from `start` to `end` as a token, if there is any text.
pub open spec fn text_between(s: Seq<char>, start: int, end: int) -> Seq<TokenView> {
    if start < end {
        seq![TokenView::Text(s.subrange(start, end))]
    } else {
        seq![]
    }
}

/// The tokens of `s` from `start` on, where the characters from `start` up
/// to `end` are known to be text.
pub open spec fn tokens_from(s: Seq<char>, start: int, end: int) -> Seq<TokenView>
    decreases s.len() - end,
{
    if end >= s.len() {
        text_between(s, start, s.len() as int)
    } else if s[end] != '\\' {
        tokens_from(s, start, end + 1)
    } else if end + 1 >= s.len() {
        seq![TokenView::Text(s.subrange(start, end + 1))]
    } else if is_escapable(s[end + 1]) {
        text_between(s, start, end) + seq![TokenView::Escape(s[end + 1])] + tokens_from(
            s,
            end + 2,
            end + 2,
        )
    } else {
        tokens_from(s, start, end + 2)
    }
}

/// The tokens of an argument: its escapes, and the text between them.
pub open spec fn tokens_of(s: Seq<char>) -> Seq<TokenView> {
    tokens_from(s, 0, 0)
}

/// A token as it was written.
pub open spec fn written(token: TokenView) -> Seq<char> {
    match token {
        TokenView::Text(text) => text,
        TokenView::Escape(c) => seq!['\\', c],
    }
}

/// Some tokens as they were written, one behind the other.
pub open spec fn source(tokens: Seq<TokenView>) -> Seq<char>
    decreases tokens.len(),
{
    if tokens.len() == 0 {
        Seq::empty()
    } else {
        source(tokens.drop_last()) + written(tokens.last())
    }
}

/// Whether `c` can begin a separator.
pub open spec fn is_separator_char(c: char) -> bool {
    c == ':' || c == '=' || c == '@'
}

/// The first position at or behind `from` at which a separator begins in
/// `text`; its length if there is none.
pub open spec fn separator_position(text: Seq<char>, from: int) -> int
    decreases text.len() - from,
{
    if from >= text.len() {
        text.len() as int
    } else if is_separator_char(text[from]) {
        from
    } else {
        separator_position(text, from + 1)
    }
}

/// Whether a token is text in which a separator begins.
pub open spec fn has_separator(token: TokenView) -> bool {
    token matches TokenView::Text(text) && separator_position(text, 0) < text.len()
}

/// The first token at or behind `from` that has a separator; the number of
/// tokens if there is none.
pub open spec fn separator_token(tokens: Seq<TokenView>, from: int) -> int
    decreases tokens.len() - from,
{
    if from >= tokens.len() {
        tokens.len() as int
    } else if from >= 0 && has_separator(tokens[from]) {
        from
    } else {
        separator_token(tokens, from + 1)
    }
}

impl Separator {
    /// The separator as it is written.
    pub open spec fn text(self) -> Seq<char> {
        match self {
            Separator::Colon => seq![':'],
            Separator::Equal => seq!['='],
            Separator::At => seq!['@'],
            Separator::ColonEqual => seq![':', '='],
            Separator::EqualEqual => seq!['=', '='],
            Separator::EqualAt => seq!['=', '@'],
            Separator::Snail => seq![':', '=', '@'],
        }
    }

    /// The longest separator that begins at position `at` of `text`, where
    /// one does begin.
    pub open spec fn longest_at(text: Seq<char>, at: int) -> Separator {
        let second = if at + 1 < text.len() {
            Some(text[at + 1])
        } else {
            None
        };
        let third = if at + 2 < text.len() {
            Some(text[at + 2])
        } else {
            None
        };
        if text[at] == ':' {
            if second == Some('=') {
                if third == Some('@') {
                    Separator::Snail
                } else {
                    Separator::ColonEqual
                }
            } else {
                Separator::Colon
            }
        } else if text[at] == '=' {
            if second == Some('@') {
                Separator::EqualAt
            } else if second == Some('=') {
                Separator::EqualEqual
            } else {
                Separator::Equal
            }
        } else {
            Separator::At
        }
    }

    /// The separator that a text spells, if it spells one.
    pub open spec fn spelled_by(text: Seq<char>) -> Option<Separator> {
        if text == Separator::Colon.text() {
            Some(Separator::Colon)
        } else if text == Separator::Equal.text() {
            Some(Separator::Equal)
        } else if text == Separator::At.text() {
            Some(Separator::At)
        } else if text == Separator::ColonEqual.text() {
            Some(Separator::ColonEqual)
        } else if text == Separator::EqualEqual.text() {
            Some(Separator::EqualEqual)
        } else if text == Separator::EqualAt.text() {
            Some(Separator::EqualAt)
        } else if text == Separator::Snail.text() {
            Some(Separator::Snail)
        } else {
            None
        }
    }

    /// The number of characters of the separator.
    pub fn len(self) -> (n: usize)
        ensures
            n == self.text().len(),
            1 <= n <= 3,
    {
        match self {
            Separator::Colon | Separator::Equal | Separator::At => 1,
            Separator::ColonEqual | Separator::EqualEqual | Separator::EqualAt => 2,
            Separator::Snail => 3,
        }
    }

    /// Reads a separator: one of `:`, `=`, `@`, `:=`, `==`, `=@` and `:=@`.
    /// Any other text is refused.
    pub fn try_from(value: &str) -> (separator: Result<Separator, ()>)
        ensures
            separator == (match Separator::spelled_by(value@) {
                Some(s) => Ok::<Separator, ()>(s),
                None => Err::<Separator, ()>(()),
            }),
    {
        let chars = chars_of(value);
        let n = chars.len();
        let found = if n == 1 {
            if chars[0] == ':' {
                Some(Separator::Colon)
            } else if chars[0] == '=' {
                Some(Separator::Equal)
            } else if chars[0] == '@' {
                Some(Separator::At)
            } else {
                None
            }
        } else if n == 2 {
            if chars[0] == ':' && chars[1] == '=' {
                Some(Separator::ColonEqual)
            } else if chars[0] == '=' && chars[1] == '=' {
                Some(Separator::EqualEqual)
            } else if chars[0] == '=' && chars[1] == '@' {
                Some(Separator::EqualAt)
            } else {
                None
            }
        } else if n == 3 && chars[0] == ':' && chars[1] == '=' && chars[2] == '@' {
            Some(Separator::Snail)
        } else {
            None
        };
        match found {
            Some(separator) => {
                assert(chars@ =~= separator.text());
                Ok(separator)
            },
            None => {
                assert(Separator::spelled_by(chars@) is None) by {
                    if chars@ == Separator::Colon.text() || chars@ == Separator::Equal.text()
                        || chars@ == Separator::At.text() {
                        assert(chars@.len() == 1);
                        assert(chars@[0] == chars[0]);
                    }
                    if chars@ == Separator::ColonEqual.text() || chars@
                        == Separator::EqualEqual.text() || chars@ == Separator::EqualAt.text() {
                        assert(chars@.len() == 2);
                        assert(chars@[0] == chars[0] && chars@[1] == chars[1]);
                    }
                    if chars@ == Separator::Snail.text() {
                        assert(chars@.len() == 3);
                        assert(chars@[0] == chars[0] && chars@[1] == chars[1] && chars@[2]
                            == chars[2]);
                    }
                }
                Err(())
            },
        }
    }

    /// Finds the longest separator that begins at position `at`.
    pub fn find(text: &Vec<char>, at: usize) -> (separator: Separator)
        requires
            at < text.len(),
        ensures
            separator == Separator::longest_at(text@, at as int),
    {
        let second = if at < text.len() - 1 {
            Some(text[at + 1])
        } else {
            None
        };
        let third = if at < text.len() - 1 && at + 1 < text.len() - 1 {
            Some(text[at + 2])
        } else {
            None
        };
        let is = |c: Option<char>, d: char| -> (r: bool)
            ensures
                r == (c == Some(d)),
            {
                match c {
                    Some(x) => x == d,
                    None => false,
                }
            };
        if text[at] == ':' {
            if is(second, '=') {
                if is(third, '@') {
                    Separator::Snail
                } else {
                    Separator::ColonEqual
                }
            } else {
                Separator::Colon
            }
        } else if text[at] == '=' {
            if is(second, '@') {
                Separator::EqualAt
            } else if is(second, '=') {
                Separator::EqualEqual
            } else {
                Separator::Equal
            }
        } else {
            Separator::At
        }
    }
}

/// A parameter as plain values: its separator, its key, and its value or
/// the name of its file.
pub struct ParameterView {
    pub separator: Separator,
    pub key: Seq<char>,
    pub value: Seq<char>,
}

impl View for Parameter {
    type V = ParameterView;

    open spec fn view(&self) -> ParameterView {
        match self {
            Parameter::Header { key, value } => ParameterView {
                separator: Separator::Colon,
                key: key@,
                value: value@,
            },
            Parameter::Data { key, value } => ParameterView {
                separator: Separator::Equal,
                key: key@,
                value: value@,
            },
            Parameter::RawJsonData { key, value } => ParameterView {
                separator: Separator::ColonEqual,
                key: key@,
                value: value@,
            },
            Parameter::Query { key, value } => ParameterView {
                separator: Separator::EqualEqual,
                key: key@,
                value: value@,
            },
            Parameter::FormFile { key, filename } => ParameterView {
                separator: Separator::At,
                key: key@,
                value: filename@,
            },
            Parameter::DataFile { key, filename } => ParameterView {
                separator: Separator::EqualAt,
                key: key@,
                value: filename@,
            },
            Parameter::RawJsonDataFile { key, filename } => ParameterView {
                separator: Separator::Snail,
                key: key@,
                value: filename@,
            },
        }
    }
}

impl Parameter {
    /// The parameter that a separator makes of a key and a value.
    pub fn new(separator: Separator, key: String, value: String) -> (parameter: Parameter)
        ensures
            parameter@ == (ParameterView { separator, key: key@, value: value@ }),
    {
        match separator {
            Separator::At => Parameter::FormFile { key, filename: value },
            Separator::Equal => Parameter::Data { key, value },
            Separator::Colon => Parameter::Header { key, value },
            Separator::ColonEqual => Parameter::RawJsonData { key, value },
            Separator::EqualEqual => Parameter::Query { key, value },
            Separator::EqualAt => Parameter::DataFile { key, filename: value },
            Separator::Snail => Parameter::RawJsonDataFile { key, filename: value },
        }
    }

    /// Whether the parameter uploads a file as part of a form.
    pub fn is_form_file(&self) -> (b: bool)
        ensures
            b == (self is FormFile),
            b == (self@.separator == Separator::At),
    {
        match *self {
            Parameter::FormFile { .. } => true,
            _ => false,
        }
    }

    /// Whether the parameter is part of the body of the request: all are
    /// but headers and query parameters.
    pub fn is_data(&self) -> (b: bool)
        ensures
            b == !(self is Header || self is Query),
            b == (self@.separator != Separator::Colon && self@.separator
                != Separator::EqualEqual),
    {
        match *self {
            Parameter::Header { .. } => false,
            Parameter::Query { .. } => false,
            _ => true,
        }
    }
}

/// The text of a text token; nothing for an escape.
pub open spec fn text_of(token: TokenView) -> Seq<char> {
    match token {
        TokenView::Text(text) => text,
        TokenView::Escape(_) => Seq::empty(),
    }
}

/// What an argument says: the first separator that is not escaped parts
/// key and value, and where several separators begin at that place, the
/// longest of them counts. Escapes stay as they were written. `None` if
/// the argument has no separator.
pub open spec fn parameter_of(s: Seq<char>) -> Option<ParameterView> {
    let tokens = tokens_of(s);
    let index = separator_token(tokens, 0);
    if index >= tokens.len() {
        None
    } else {
        let text = text_of(tokens[index]);
        let at = separator_position(text, 0);
        let separator = Separator::longest_at(text, at);
        Some(
            ParameterView {
                separator,
                key: source(tokens.take(index)) + text.take(at),
                value: text.skip(at + separator.text().len()) + source(tokens.skip(index + 1)),
            },
        )
    }
}

/// Splits an argument into its escapes and the text between them.
pub fn gather_escapes(src: &str) -> (tokens: Vec<Token>)
    ensures
        views(tokens@) == tokens_of(src@),
{
    let chars = chars_of(src);
    let n = chars.len();
    let mut tokens: Vec<Token> = Vec::new();
    let mut start: usize = 0;
    let mut end: usize = 0;
    assert(views(tokens@) + tokens_from(chars@, 0, 0) =~= tokens_of(chars@));
    while end < n
        invariant
            n == chars.len(),
            chars@ == src@,
            start <= end <= n,
            views(tokens@) + tokens_from(chars@, start as int, end as int) == tokens_of(chars@),
        decreases n - end,
    {
        let ghost before = views(tokens@);
        if chars[end] != '\\' {
            end = end + 1;
        } else if end + 1 >= n {
            tokens.push(Token::Text(slice_of(&chars, start, end + 1)));
            assert(views(tokens@) =~= before + tokens_from(chars@, start as int, end as int));
            return tokens;
        } else {
            let c = chars[end + 1];
            if c == '\\' || c == '=' || c == '@' || c == ':' {
                if start != end {
                    tokens.push(Token::Text(slice_of(&chars, start, end)));
                }
                tokens.push(Token::Escape(c));
                assert(views(tokens@) =~= before + text_between(chars@, start as int, end as int)
                    + seq![TokenView::Escape(c)]);
                assert(before + tokens_from(chars@, start as int, end as int) =~= views(tokens@)
                    + tokens_from(chars@, end + 2, end + 2));
                end = end + 2;
                start = end;
            } else {
                end = end + 2;
            }
        }
    }
    let ghost before = views(tokens@);
    if start != end {
        tokens.push(Token::Text(slice_of(&chars, start, end)));
    }
    assert(views(tokens@) =~= before + tokens_from(chars@, start as int, end as int));
    tokens
}

/// Finds the first place in `text` at which a separator begins.
pub fn separator_start(text: &Vec<char>) -> (at: usize)
    ensures
        at == separator_position(text@, 0),
        at <= text.len(),
{
    let mut at: usize = 0;
    while at < text.len()
        invariant
            at <= text.len(),
            separator_position(text@, 0) == separator_position(text@, at as int),
        decreases text.len() - at,
    {
        let c = text[at];
        if c == ':' || c == '=' || c == '@' {
            return at;
        }
        at = at + 1;
    }
    at
}

/// Appends some tokens, as they were written, to `out`.
fn push_source(out: &mut Vec<char>, tokens: &Vec<Token>, from: usize, to: usize)
    requires
        from <= to <= tokens.len(),
    ensures
        final(out)@ == old(out)@ + source(views(tokens@).subrange(from as int, to as int)),
{
    let mut i: usize = from;
    assert(source(views(tokens@).subrange(from as int, from as int)) =~= Seq::<char>::empty());
    while i < to
        invariant
            from <= i <= to <= tokens.len(),
            out@ == old(out)@ + source(views(tokens@).subrange(from as int, i as int)),
        decreases to - i,
    {
        let ghost done = views(tokens@).subrange(from as int, i as int);
        let ghost next = views(tokens@).subrange(from as int, i + 1);
        assert(next.drop_last() =~= done);
        assert(next.last() == tokens@[i as int]@);
        match &tokens[i] {
            Token::Text(text) => {
                push_chars(out, text);
            },
            Token::Escape(c) => {
                out.push('\\');
                out.push(*c);
            },
        }
        assert(out@ =~= old(out)@ + (source(done) + written(next.last())));
        i = i + 1;
    }
}

/// Reads one parameter from an argument of the command line.
///
/// The argument is parted at the first separator that is not escaped;
/// where several separators begin at that place, the longest counts.
/// Escapes stay in the key and the value as they were written. An argument
/// without a separator is refused.
pub fn parse_param(src: &str) -> (parameter: HurlResult<Parameter>)
    ensures
        match parameter_of(src@) {
            Some(view) => parameter matches Ok(p) && p@ == view,
            None => parameter matches Err(Error::ParameterMissingSeparator(s)) && s@ == src@,
        },
{
    let tokens = gather_escapes(src);
    let ghost all = views(tokens@);
    let mut index: usize = 0;
    let mut at: usize = 0;
    let mut found = false;
    while index < tokens.len() && !found
        invariant
            index <= tokens.len(),
            all == views(tokens@),
            separator_token(all, 0) == separator_token(all, index as int),
            found ==> index < tokens.len() && has_separator(all[index as int]) && at
                == separator_position(text_of(all[index as int]), 0),
        decreases 2 * (tokens.len() - index) + (if found {
            0int
        } else {
            1int
        }),
    {
        match &tokens[index] {
            Token::Text(text) => {
                at = separator_start(text);
                if at < text.len() {
                    found = true;
                }
            },
            Token::Escape(_) => {},
        }
        if !found {
            index = index + 1;
        }
    }
    if !found {
        return Err(Error::ParameterMissingSeparator(src.to_owned()));
    }
    let mut key: Vec<char> = Vec::new();
    let mut value: Vec<char> = Vec::new();
    push_source(&mut key, &tokens, 0, index);
    assert(all.subrange(0, index as int) =~= all.take(index as int));
    let separator = match &tokens[index] {
        Token::Text(text) => {
            let separator = Separator::find(text, at);
            let width = separator.len();
            assert(at + width <= text.len()) by {
                lemma_longest_fits(text@, at as int);
            }
            let head = slice_of(text, 0, at);
            let rest = slice_of(text, at + width, text.len());
            push_chars(&mut key, &head);
            push_chars(&mut value, &rest);
            assert(rest@ =~= text@.skip(at + separator.text().len()));
            assert(head@ =~= text@.take(at as int));
            separator
        },
        Token::Escape(_) => unreached(),
    };
    push_source(&mut value, &tokens, index + 1, tokens.len());
    assert(all.subrange(index + 1, tokens.len() as int) =~= all.skip(index + 1));
    Ok(Parameter::new(separator, string_of(&key), string_of(&value)))
}

/// The longest separator that begins at a place does not go beyond the end
/// of the text.
pub proof fn lemma_longest_fits(text: Seq<char>, at: int)
    requires
        0 <= at < text.len(),
    ensures
        at + Separator::longest_at(text, at).text().len() <= text.len(),
        Separator::longest_at(text, at).text().is_prefix_of(text.skip(at)) || !is_separator_char(
            text[at],
        ),
{
    let separator = Separator::longest_at(text, at);
    if is_separator_char(text[at]) {
        assert(separator.text() =~= text.skip(at).take(separator.text().len() as int));
    }
}

/// Tokens written one behind the other are the first written, then the
/// others.
pub proof fn lemma_source_concat(a: Seq<TokenView>, b: Seq<TokenView>)
    ensures
        source(a + b) == source(a) + source(b),
    decreases b.len(),
{
    if b.len() == 0 {
        assert(a + b =~= a);
        assert(source(a) + source(b) =~= source(a));
    } else {
        lemma_source_concat(a, b.drop_last());
        assert((a + b).drop_last() =~= a + b.drop_last());
        assert((a + b).last() == b.last());
        assert(source(a + b) =~= source(a) + source(b));
    }
}

/// One token on its own is written as itself.
pub proof fn lemma_source_one(token: TokenView)
    ensures
        source(seq![token]) == written(token),
{
    reveal_with_fuel(source, 2);
    assert(seq![token].drop_last() =~= Seq::<TokenView>::empty());
    assert(source(seq![token]) =~= written(token));
}

/// The tokens from a place on, written one behind the other, are the
/// argument from that place on.
pub proof fn lemma_tokens_from_rebuild(s: Seq<char>, start: int, end: int)
    requires
        0 <= start <= end <= s.len(),
    ensures
        source(tokens_from(s, start, end)) == s.subrange(start, s.len() as int),
    decreases s.len() - end,
{
    let whole = s.len() as int;
    if end >= s.len() {
        if start < end {
            lemma_source_one(TokenView::Text(s.subrange(start, whole)));
        } else {
            assert(s.subrange(start, whole) =~= Seq::<char>::empty());
        }
    } else if s[end] != '\\' {
        lemma_tokens_from_rebuild(s, start, end + 1);
    } else if end + 1 >= s.len() {
        lemma_source_one(TokenView::Text(s.subrange(start, end + 1)));
    } else if is_escapable(s[end + 1]) {
        lemma_tokens_from_rebuild(s, end + 2, end + 2);
        let text = text_between(s, start, end);
        let escape = seq![TokenView::Escape(s[end + 1])];
        let rest = tokens_from(s, end + 2, end + 2);
        lemma_source_concat(text + escape, rest);
        lemma_source_concat(text, escape);
        lemma_source_one(TokenView::Escape(s[end + 1]));
        if start < end {
            lemma_source_one(TokenView::Text(s.subrange(start, end)));
        }
        assert(source(text) =~= s.subrange(start, end));
        assert(s.subrange(start, end) + seq!['\\', s[end + 1]] + s.subrange(end + 2, whole)
            =~= s.subrange(start, whole));
    } else {
        lemma_tokens_from_rebuild(s, start, end + 2);
    }
}

/// Nothing is lost in the tokens: written one behind the other they are
/// the argument again.
pub proof fn lemma_tokens_rebuild(s: Seq<char>)
    ensures
        source(tokens_of(s)) == s,
{
    lemma_tokens_from_rebuild(s, 0, 0);
    assert(s.subrange(0, s.len() as int) =~= s);
}

/// A parameter is the argument parted at the separator: the key, the
/// separator and the value, written one behind the other, are the
/// argument.
pub proof fn lemma_parameter_rebuild(s: Seq<char>)
    requires
        parameter_of(s) is Some,
    ensures
        ({
            let view = parameter_of(s)->0;
            view.key + view.separator.text() + view.value == s
        }),
{
    let tokens = tokens_of(s);
    let index = separator_token(tokens, 0);
    lemma_separator_token(tokens, 0);
    let text = text_of(tokens[index]);
    let at = separator_position(text, 0);
    lemma_separator_position(text, 0);
    let separator = Separator::longest_at(text, at);
    lemma_longest_fits(text, at);
    let view = parameter_of(s)->0;
    let width = separator.text().len() as int;
    lemma_tokens_rebuild(s);
    let before = tokens.take(index);
    let after = tokens.skip(index + 1);
    assert(tokens =~= before + seq![tokens[index]] + after);
    lemma_source_concat(before + seq![tokens[index]], after);
    lemma_source_concat(before, seq![tokens[index]]);
    lemma_source_one(tokens[index]);
    assert(text =~= text.take(at) + separator.text() + text.skip(at + width)) by {
        assert(separator.text() =~= text.skip(at).take(width));
    }
    assert(view.key + view.separator.text() + view.value =~= source(before) + text + source(
        after,
    ));
}

/// Where the first separator of a text begins: no separator begins before
/// that place, and one begins there unless the text has none.
pub proof fn lemma_separator_position(text: Seq<char>, from: int)
    requires
        0 <= from,
    ensures
        from <= separator_position(text, from) || separator_position(text, from) == text.len(),
        separator_position(text, from) <= text.len(),
        forall|k: int| from <= k < separator_position(text, from) ==> !is_separator_char(text[k]),
        separator_position(text, from) < text.len() ==> is_separator_char(
            text[separator_position(text, from)],
        ),
    decreases text.len() - from,
{
    if from < text.len() && !is_separator_char(text[from]) {
        lemma_separator_position(text, from + 1);
    }
}

/// Which token parts key and value: no token before it has a separator,
/// and it has one unless no token has.
pub proof fn lemma_separator_token(tokens: Seq<TokenView>, from: int)
    requires
        0 <= from,
    ensures
        from <= separator_token(tokens, from) || separator_token(tokens, from) == tokens.len(),
        separator_token(tokens, from) <= tokens.len(),
        forall|k: int| from <= k < separator_token(tokens, from) ==> !has_separator(tokens[k]),
        separator_token(tokens, from) < tokens.len() ==> has_separator(
            tokens[separator_token(tokens, from)],
        ),
    decreases tokens.len() - from,
{
    if from < tokens.len() && !has_separator(tokens[from]) {
        lemma_separator_token(tokens, from + 1);
    }
}

/// The separator of a parameter is the one that comes first in the text
/// and, of those that begin at that place, the longest: it stands at the
/// place where the first separator begins, and every separator that stands
/// there too is at most as long.
pub proof fn lemma_separator_choice(text: Seq<char>, other: Separator)
    requires
        separator_position(text, 0) < text.len(),
    ensures
        ({
            let at = separator_position(text, 0);
            let chosen = Separator::longest_at(text, at);
            &&& chosen.text().is_prefix_of(text.skip(at))
            &&& other.text().is_prefix_of(text.skip(at)) ==> other.text().len()
                <= chosen.text().len()
            &&& forall|k: int|
                0 <= k < at ==> !(#[trigger] other.text().is_prefix_of(text.skip(k)))
        }),
{
    let at = separator_position(text, 0);
    lemma_separator_position(text, 0);
    lemma_longest_fits(text, at);
    let chosen = Separator::longest_at(text, at);
    let tail = text.skip(at);
    if other.text().is_prefix_of(tail) {
        assert(forall|i: int| 0 <= i < other.text().len() ==> other.text()[i] == tail[i]);
        assert(other.text()[0] == tail[0]);
        if other.text().len() >= 2 {
            assert(other.text()[1] == tail[1]);
        }
        if other.text().len() >= 3 {
            assert(other.text()[2] == tail[2]);
        }
    }
    assert forall|k: int| 0 <= k < at implies !(#[trigger] other.text().is_prefix_of(
        text.skip(k),
    )) by {
        if other.text().is_prefix_of(text.skip(k)) {
            assert(other.text()[0] == text.skip(k)[0]);
            assert(is_separator_char(text[k]));
        }
    }
}

} // verus!
