//! What a request is made of: its URL, who asks, and the parts that the
//! parameters add.

use crate::assoc::{as_map, distinct_keys, lemma_as_map_push, lemma_as_map_update};
use crate::hurl::app::App;
use crate::hurl::errors::{Error, HurlResult, JsonCategory};
use crate::hurl::params::{Parameter, ParameterView, Separator};
use crate::text::{chars_of, slice_of, string_of};
use vstd::prelude::*;
use vstd::string::{StrSliceExecFns, StringExecFns};

verus! {

/// What `url::Url::parse` makes of a text: the URL in its normal form, or
/// the reason why the text is no absolute URL.
pub uninterp spec fn url_parse(s: Seq<char>) -> Result<Seq<char>, Seq<char>>;

/// The texts in a result of strings.
pub open spec fn result_text(r: Result<String, String>) -> Result<Seq<char>, Seq<char>> {
    match r {
        Ok(s) => Ok(s@),
        Err(e) => Err(e@),
    }
}

/// `url::Url::parse`, with the URL handed back as the text that the parser
/// keeps for it (`Url::into_string`) and the error as its description
/// (`to_string`). The contract gives the result its name; what counts as
/// a URL is the parser's to say.
#[verifier::external_body]
fn parse_url(s: &str) -> (parsed: Result<String, String>)
    ensures
        result_text(parsed) == url_parse(s@),
{
    match url::Url::parse(s) {
        Ok(parsed) => Ok(parsed.into_string()),
        Err(e) => Err(e.to_string()),
    }
}

/// The URL that a shorthand for the local host stands for: `:/path` and
/// `:port/path` are requests to `localhost`. `None` for a text that
/// begins otherwise.
pub open spec fn localhost_of(s: Seq<char>) -> Option<Seq<char>> {
    if s.len() >= 2 && s[0] == ':' && s[1] == '/' {
        Some("http://localhost"@ + s.skip(1))
    } else if s.len() >= 1 && s[0] == ':' {
        Some("http://localhost"@ + s)
    } else {
        None
    }
}

/// A text with the default transport in front of it: `https` if secure
/// transport was asked for, and else `http`.
pub open spec fn with_transport(secure: bool, s: Seq<char>) -> Seq<char> {
    if secure {
        "https://"@ + s
    } else {
        "http://"@ + s
    }
}

/// What a second try makes of a URL that the first try has or has not
/// parsed.
#[derive(Debug, PartialEq, Eq)]
pub enum Attempt {
    /// The first try gave this URL.
    Parsed(String),
    /// The first try failed: this text is to be tried.
    Retry(String),
}

/// The URL that a text names: a shorthand for the local host is written
/// out; any other text is taken as it is, and if that is no URL, with
/// the default transport in front of it.
pub open spec fn parse_of(secure: bool, s: Seq<char>) -> Result<Seq<char>, Seq<char>> {
    match localhost_of(s) {
        Some(local) => url_parse(local),
        None => match url_parse(s) {
            Ok(parsed) => Ok(parsed),
            Err(_) => url_parse(with_transport(secure, s)),
        },
    }
}

/// Writes out a shorthand for the local host.
pub fn localhost(s: &str) -> (url: Option<String>)
    ensures
        url is Some == localhost_of(s@) is Some,
        url matches Some(u) ==> u@ == localhost_of(s@)->0,
{
    let chars = chars_of(s);
    if chars.len() >= 2 && chars[0] == ':' && chars[1] == '/' {
        let rest = string_of(&slice_of(&chars, 1, chars.len()));
        Some(String::from_str("http://localhost").concat(rest.as_str()))
    } else if chars.len() >= 1 && chars[0] == ':' {
        Some(String::from_str("http://localhost").concat(s))
    } else {
        None
    }
}

/// Decides what follows the first try to parse a URL: a URL is kept, and
/// after a failure the text is tried again with the default transport in
/// front of it.
pub fn second_try(first: Result<String, String>, secure: bool, s: &str) -> (attempt: Attempt)
    ensures
        first matches Ok(parsed) ==> attempt == Attempt::Parsed(parsed),
        first is Err ==> (attempt matches Attempt::Retry(text) && text@ == with_transport(
            secure,
            s@,
        )),
{
    match first {
        Ok(parsed) => Attempt::Parsed(parsed),
        Err(_) => if secure {
            Attempt::Retry(String::from_str("https://").concat(s))
        } else {
            Attempt::Retry(String::from_str("http://").concat(s))
        },
    }
}

/// Finds the URL to request.
pub fn parse(app: &App, s: &str) -> (url: HurlResult<String>)
    ensures
        match parse_of(app.secure, s@) {
            Ok(parsed) => url matches Ok(u) && u@ == parsed,
            Err(reason) => url matches Err(Error::UrlParseError(e)) && e@ == reason,
        },
{
    let parsed = match localhost(s) {
        Some(local) => parse_url(local.as_str()),
        None => match second_try(parse_url(s), app.secure, s) {
            Attempt::Parsed(parsed) => Ok(parsed),
            Attempt::Retry(text) => parse_url(text.as_str()),
        },
    };
    match parsed {
        Ok(url) => Ok(url),
        Err(reason) => Err(Error::UrlParseError(reason)),
    }
}

/// Where the password of basic authentication comes from.
#[derive(Debug, PartialEq, Eq)]
pub enum Password {
    /// The user name was followed by a colon and nothing else: no
    /// password is sent.
    Absent,
    /// The password was given behind the colon.
    Given(String),
    /// Only a user name was given: the user is asked for the password.
    Ask,
}

/// The first position at or behind `from` at which `s` holds a colon;
/// its length if there is none.
pub open spec fn colon_position(s: Seq<char>, from: int) -> int
    decreases s.len() - from,
{
    if from >= s.len() {
        s.len() as int
    } else if s[from] == ':' {
        from
    } else {
        colon_position(s, from + 1)
    }
}

/// The first position at or behind `from` at which `s` holds something
/// else than a colon; its length if there is none.
pub open spec fn password_position(s: Seq<char>, from: int) -> int
    decreases s.len() - from,
{
    if from >= s.len() {
        s.len() as int
    } else if s[from] != ':' {
        from
    } else {
        password_position(s, from + 1)
    }
}

/// The user name of an authentication string: what stands in front of
/// the first colon.
pub open spec fn username_of(s: Seq<char>) -> Seq<char> {
    s.take(colon_position(s, 0))
}

/// The password of an authentication string that holds a colon: what
/// stands behind the colons that follow the user name.
pub open spec fn password_of(s: Seq<char>) -> Seq<char> {
    s.skip(password_position(s, colon_position(s, 0)))
}

/// Where a password comes from, as plain values.
pub enum PasswordView {
    Absent,
    Given(Seq<char>),
    Ask,
}

impl View for Password {
    type V = PasswordView;

    open spec fn view(&self) -> PasswordView {
        match self {
            Password::Absent => PasswordView::Absent,
            Password::Given(p) => PasswordView::Given(p@),
            Password::Ask => PasswordView::Ask,
        }
    }
}

/// Where the password of an authentication string comes from: without a
/// colon the user is asked; with nothing behind the colons there is
/// none.
pub open spec fn password_source(s: Seq<char>) -> PasswordView {
    if colon_position(s, 0) == s.len() {
        PasswordView::Ask
    } else if password_of(s).len() == 0 {
        PasswordView::Absent
    } else {
        PasswordView::Given(password_of(s))
    }
}

/// Reads an authentication string of the form `username:password`.
/// `username:` means that there is no password, `username` alone that
/// the user is to be asked for it.
pub fn parse_auth(s: &str) -> (credentials: (String, Password))
    ensures
        credentials.0@ == username_of(s@),
        credentials.1@ == password_source(s@),
{
    let chars = chars_of(s);
    let mut idx: usize = 0;
    while idx < chars.len() && chars[idx] != ':'
        invariant
            idx <= chars.len(),
            colon_position(chars@, 0) == colon_position(chars@, idx as int),
        decreases chars.len() - idx,
    {
        idx = idx + 1;
    }
    if idx == chars.len() {
        assert(chars@.take(idx as int) =~= chars@);
        return (s.to_owned(), Password::Ask);
    }
    let username = string_of(&slice_of(&chars, 0, idx));
    let mut begin: usize = idx;
    while begin < chars.len() && chars[begin] == ':'
        invariant
            idx <= begin <= chars.len(),
            password_position(chars@, idx as int) == password_position(chars@, begin as int),
        decreases chars.len() - begin,
    {
        begin = begin + 1;
    }
    if begin == chars.len() {
        (username, Password::Absent)
    } else {
        (username, Password::Given(string_of(&slice_of(&chars, begin, chars.len()))))
    }
}

/// Who asks: the user and password of basic authentication, and the
/// token of bearer authentication.
pub struct Authorization {
    pub basic: Option<(String, Password)>,
    pub bearer: Option<String>,
}

/// What the options say of who asks.
pub fn handle_auth(auth: &Option<String>, token: &Option<String>) -> (authorization: Authorization)
    ensures
        authorization.basic is Some == auth is Some,
        auth matches Some(a) ==> ({
            let basic = authorization.basic->0;
            basic.0@ == username_of(a@) && basic.1@ == password_source(a@)
        }),
        authorization.bearer == *token,
{
    let basic = match auth {
        Some(auth_string) => Some(parse_auth(auth_string.as_str())),
        None => None,
    };
    Authorization { basic, bearer: token.clone() }
}

/// Whether one of the parameters uploads a file, so that the request is
/// sent as a form of several parts.
pub open spec fn has_form_file(parameters: Seq<Parameter>) -> bool {
    exists|i: int| 0 <= i < parameters.len() && (#[trigger] parameters[i]) is FormFile
}

/// Whether one of the parameters is part of the body of the request.
pub open spec fn has_data(parameters: Seq<Parameter>) -> bool {
    exists|i: int|
        0 <= i < parameters.len() && !((#[trigger] parameters[i]) is Header || parameters[i] is Query)
}

/// Tells whether the request is sent as a form of several parts.
pub fn is_multipart(parameters: &Vec<Parameter>) -> (multipart: bool)
    ensures
        multipart == has_form_file(parameters@),
{
    let mut i: usize = 0;
    while i < parameters.len()
        invariant
            i <= parameters.len(),
            forall|k: int| 0 <= k < i ==> !((#[trigger] parameters[k]) is FormFile),
        decreases parameters.len() - i,
    {
        if parameters[i].is_form_file() {
            return true;
        }
        i = i + 1;
    }
    false
}

/// Checks that a request that uploads a file was asked for in form
/// mode, and tells whether it is sent as a form of several parts.
pub fn check_form(app: &App, parameters: &Vec<Parameter>) -> (multipart: HurlResult<bool>)
    ensures
        has_form_file(parameters@) && !app.form ==> multipart == Err::<bool, Error>(
            Error::NotFormButHasFormFile,
        ),
        !(has_form_file(parameters@) && !app.form) ==> multipart == Ok::<bool, Error>(
            has_form_file(parameters@),
        ),
{
    let multipart = is_multipart(parameters);
    if multipart && !app.form {
        return Err(Error::NotFormButHasFormFile);
    }
    Ok(multipart)
}

/// The method of a request for which none was named: `POST` if a
/// parameter carries data, and else `GET`.
pub fn implied_method(parameters: &Vec<Parameter>) -> (method: &'static str)
    ensures
        method@ == (if has_data(parameters@) {
            "POST"@
        } else {
            "GET"@
        }),
{
    let mut i: usize = 0;
    while i < parameters.len()
        invariant
            i <= parameters.len(),
            forall|k: int|
                0 <= k < i ==> ((#[trigger] parameters[k]) is Header || parameters[k] is Query),
        decreases parameters.len() - i,
    {
        if parameters[i].is_data() {
            return "POST";
        }
        i = i + 1;
    }
    "GET"
}

/// What `serde_json::from_slice` finds wrong with bytes that should be a
/// JSON value: nothing, or the category of its error.
pub uninterp spec fn json_fault(bytes: Seq<u8>) -> Option<JsonCategory>;

/// `serde_json::from_slice` for a value of any shape, with the error told
/// by its category (`Error::classify`) and the value dropped. The
/// contract gives the result its name; what counts as JSON is the
/// parser's to say.
#[verifier::external_body]
fn check_json(bytes: &[u8]) -> (fault: Option<JsonCategory>)
    ensures
        fault == json_fault(bytes@),
{
    match serde_json::from_slice::<serde_json::Value>(bytes) {
        Ok(_) => None,
        Err(e) => Some(
            match e.classify() {
                serde_json::error::Category::Io => JsonCategory::Io,
                serde_json::error::Category::Syntax => JsonCategory::Syntax,
                serde_json::error::Category::Data => JsonCategory::Data,
                serde_json::error::Category::Eof => JsonCategory::Eof,
            },
        ),
    }
}

/// A value of the data of a request.
#[derive(Debug, PartialEq, Eq)]
pub enum DataValue {
    /// A text.
    Text(String),
    /// The bytes of a JSON value.
    Json(Vec<u8>),
}

/// A value of the data of a request, as plain values.
pub enum DataView {
    Text(Seq<char>),
    Json(Seq<u8>),
}

impl View for DataValue {
    type V = DataView;

    open spec fn view(&self) -> DataView {
        match self {
            DataValue::Text(text) => DataView::Text(text@),
            DataValue::Json(bytes) => DataView::Json(bytes@),
        }
    }
}

/// A part of a form of several parts.
#[derive(Debug, PartialEq, Eq)]
pub enum FormPart {
    /// A field with its value.
    Text { key: String, value: String },
    /// A file to upload.
    File { key: String, filename: String },
}

/// A part of a form, as plain values.
pub enum FormPartView {
    Text { key: Seq<char>, value: Seq<char> },
    File { key: Seq<char>, filename: Seq<char> },
}

impl View for FormPart {
    type V = FormPartView;

    open spec fn view(&self) -> FormPartView {
        match self {
            FormPart::Text { key, value } => FormPartView::Text { key: key@, value: value@ },
            FormPart::File { key, filename } => FormPartView::File {
                key: key@,
                filename: filename@,
            },
        }
    }
}

/// The texts of some pairs of strings.
pub open spec fn pairs(entries: Seq<(String, String)>) -> Seq<(Seq<char>, Seq<char>)> {
    entries.map_values(|entry: (String, String)| (entry.0@, entry.1@))
}

/// Some data as plain values.
pub open spec fn data_entries(entries: Seq<(String, DataValue)>) -> Seq<(Seq<char>, DataView)> {
    entries.map_values(|entry: (String, DataValue)| (entry.0@, entry.1@))
}

/// Some parts of a form as plain values.
pub open spec fn form_parts(parts: Seq<FormPart>) -> Seq<FormPartView> {
    parts.map_values(|part: FormPart| part@)
}

/// What was read from the file that a parameter names.
#[derive(Debug, PartialEq, Eq)]
pub enum Contents {
    /// The parameter names no file, or its file is read when the request
    /// is sent.
    Unread,
    /// The text of the file.
    Text(String),
    /// The bytes of the file.
    Bytes(Vec<u8>),
}

/// What is to be read before a parameter can be added to a request.
#[derive(Clone, Copy, PartialEq, Eq, Debug, Structural)]
pub enum Reading {
    /// Nothing.
    Nothing,
    /// The file of the parameter, as text.
    Text,
    /// The file of the parameter, as bytes.
    Bytes,
}

impl Reading {
    /// What a parameter with this separator needs: the text of its file
    /// where the file holds a value, its bytes where it holds JSON.
    pub open spec fn of(separator: Separator) -> Reading {
        match separator {
            Separator::EqualAt => Reading::Text,
            Separator::Snail => Reading::Bytes,
            _ => Reading::Nothing,
        }
    }

    /// Whether what was read is what is needed.
    pub open spec fn met_by(self, contents: Contents) -> bool {
        match self {
            Reading::Nothing => true,
            Reading::Text => contents is Text,
            Reading::Bytes => contents is Bytes,
        }
    }

    /// What is to be read for a parameter.
    pub fn needed(parameter: &Parameter) -> (reading: Reading)
        ensures
            reading == Reading::of(parameter@.separator),
    {
        match parameter {
            Parameter::DataFile { .. } => Reading::Text,
            Parameter::RawJsonDataFile { .. } => Reading::Bytes,
            _ => Reading::Nothing,
        }
    }
}

/// The parts of a request that its parameters make up.
pub struct RequestParts {
    headers: Vec<(String, String)>,
    query: Vec<(String, String)>,
    data: Vec<(String, DataValue)>,
    multipart: Option<Vec<FormPart>>,
}

/// The parts of a request, as plain values.
pub struct PartsView {
    /// The headers, in the order of the parameters.
    pub headers: Seq<(Seq<char>, Seq<char>)>,
    /// The query parameters, in the order of the parameters.
    pub query: Seq<(Seq<char>, Seq<char>)>,
    /// The data: for each key the value that was given last.
    pub data: Map<Seq<char>, DataView>,
    /// The parts of the form, if the request is sent as a form of
    /// several parts.
    pub multipart: Option<Seq<FormPartView>>,
}

/// The body of a request.
#[derive(Debug, PartialEq, Eq)]
pub enum Body {
    /// No body.
    Empty,
    /// A form of several parts.
    Multipart(Vec<FormPart>),
    /// The data as a form.
    Form(Vec<(String, DataValue)>),
    /// The data as a JSON object.
    Json(Vec<(String, DataValue)>),
}

/// The headers, the query and the body of a request.
pub struct Request {
    pub headers: Vec<(String, String)>,
    pub query: Vec<(String, String)>,
    pub body: Body,
}

impl PartsView {
    /// The parts with a value put under a key of the data.
    pub open spec fn with_data(self, key: Seq<char>, value: DataView) -> PartsView {
        PartsView { data: self.data.insert(key, value), ..self }
    }

    /// What a parameter does to the parts of a request, given what was
    /// read from its file: a header and a query parameter go behind
    /// those that are there; a value goes into the form of several
    /// parts if there is one, and else into the data; JSON and the
    /// contents of files go into the data, JSON only if it is JSON; a
    /// file to upload goes into the form.
    pub open spec fn add(self, parameter: ParameterView, contents: Contents) -> Result<
        PartsView,
        JsonCategory,
    > {
        let key = parameter.key;
        let value = parameter.value;
        match parameter.separator {
            Separator::Colon => Ok(PartsView { headers: self.headers.push((key, value)), ..self }),
            Separator::EqualEqual => Ok(PartsView { query: self.query.push((key, value)), ..self }),
            Separator::Equal => match self.multipart {
                None => Ok(self.with_data(key, DataView::Text(value))),
                Some(parts) => Ok(
                    PartsView {
                        multipart: Some(parts.push(FormPartView::Text { key, value })),
                        ..self
                    },
                ),
            },
            Separator::ColonEqual => match json_fault(vstd::utf8::encode_utf8(value)) {
                Some(category) => Err(category),
                None => Ok(self.with_data(key, DataView::Json(vstd::utf8::encode_utf8(value)))),
            },
            Separator::Snail => match contents {
                Contents::Bytes(bytes) => match json_fault(bytes@) {
                    Some(category) => Err(category),
                    None => Ok(self.with_data(key, DataView::Json(bytes@))),
                },
                _ => Ok(self),
            },
            Separator::EqualAt => match contents {
                Contents::Text(text) => Ok(self.with_data(key, DataView::Text(text@))),
                _ => Ok(self),
            },
            Separator::At => match self.multipart {
                Some(parts) => Ok(
                    PartsView {
                        multipart: Some(parts.push(FormPartView::File { key, filename: value })),
                        ..self
                    },
                ),
                None => Ok(self),
            },
        }
    }
}

impl View for RequestParts {
    type V = PartsView;

    closed spec fn view(&self) -> PartsView {
        PartsView {
            headers: pairs(self.headers@),
            query: pairs(self.query@),
            data: as_map(data_entries(self.data@)),
            multipart: match self.multipart {
                Some(parts) => Some(form_parts(parts@)),
                None => None,
            },
        }
    }
}

impl RequestParts {
    /// The invariant of the parts: the data holds each key once.
    pub closed spec fn wf(&self) -> bool {
        distinct_keys(data_entries(self.data@))
    }

    /// The parts of a request without parameters, as plain values.
    pub open spec fn new_view(is_multipart: bool) -> PartsView {
        PartsView {
            headers: Seq::empty(),
            query: Seq::empty(),
            data: Map::empty(),
            multipart: if is_multipart {
                Some(Seq::empty())
            } else {
                None
            },
        }
    }

    /// The parts of a request without parameters.
    pub fn new(is_multipart: bool) -> (parts: Self)
        ensures
            parts.wf(),
            parts@ == Self::new_view(is_multipart),
    {
        let parts = RequestParts {
            headers: Vec::new(),
            query: Vec::new(),
            data: Vec::new(),
            multipart: if is_multipart {
                Some(Vec::new())
            } else {
                None
            },
        };
        assert(pairs(parts.headers@) =~= Seq::empty());
        assert(pairs(parts.query@) =~= Seq::empty());
        assert(data_entries(parts.data@) =~= Seq::empty());
        assert(parts.multipart matches Some(p) ==> form_parts(p@) =~= Seq::empty());
        parts
    }

    /// Puts a value under a key of the data, in place of the one that
    /// was there, if one was.
    fn insert(&mut self, key: String, value: DataValue)
        requires
            old(self).wf(),
        ensures
            final(self).wf(),
            final(self)@ == old(self)@.with_data(key@, value@),
    {
        let ghost entries = data_entries(self.data@);
        let mut i: usize = 0;
        while i < self.data.len()
            invariant
                i <= self.data.len(),
                *self == *old(self),
                entries == data_entries(self.data@),
                distinct_keys(entries),
                forall|k: int| 0 <= k < i ==> (#[trigger] entries[k]).0 != key@,
            decreases self.data.len() - i,
        {
            if self.data[i].0 == key {
                proof {
                    lemma_as_map_update(entries, i as int, key@, value@);
                }
                self.data.set(i, (key, value));
                assert(data_entries(self.data@) =~= entries.update(i as int, (key@, value@)));
                return ;
            }
            i = i + 1;
        }
        proof {
            lemma_as_map_push(entries, key@, value@);
        }
        self.data.push((key, value));
        assert(data_entries(self.data@) =~= entries.push((key@, value@)));
    }

    /// Adds what a parameter says to the parts of the request. For a
    /// parameter that names a file that is read beforehand, `contents`
    /// holds what was read. JSON that is no JSON is refused, and
    /// the parts stay as they were. A file to upload needs a request
    /// that is sent as a form of several parts.
    pub fn add(&mut self, parameter: &Parameter, contents: Contents) -> (added: HurlResult<()>)
        requires
            old(self).wf(),
            Reading::of(parameter@.separator).met_by(contents),
            parameter is FormFile ==> old(self)@.multipart is Some,
        ensures
            final(self).wf(),
            match old(self)@.add(parameter@, contents) {
                Ok(parts) => added is Ok && final(self)@ == parts,
                Err(category) => added == Err::<(), Error>(Error::SerdeJson(category))
                    && final(self)@ == old(self)@,
            },
    {
        match parameter {
            Parameter::Header { key, value } => {
                let ghost before = pairs(self.headers@);
                self.headers.push((key.clone(), value.clone()));
                assert(pairs(self.headers@) =~= before.push((key@, value@)));
            },
            Parameter::Query { key, value } => {
                let ghost before = pairs(self.query@);
                self.query.push((key.clone(), value.clone()));
                assert(pairs(self.query@) =~= before.push((key@, value@)));
            },
            Parameter::Data { key, value } => {
                if self.multipart.is_none() {
                    self.insert(key.clone(), DataValue::Text(value.clone()));
                } else {
                    let mut parts = self.multipart.take().unwrap();
                    let ghost before = form_parts(parts@);
                    parts.push(FormPart::Text { key: key.clone(), value: value.clone() });
                    assert(form_parts(parts@) =~= before.push(
                        FormPartView::Text { key: key@, value: value@ },
                    ));
                    self.multipart = Some(parts);
                }
            },
            Parameter::RawJsonData { key, value } => {
                let bytes = value.as_str().as_bytes_vec();
                if let Some(category) = check_json(bytes.as_slice()) {
                    return Err(Error::SerdeJson(category));
                }
                self.insert(key.clone(), DataValue::Json(bytes));
            },
            Parameter::RawJsonDataFile { key, filename } => {
                if let Contents::Bytes(bytes) = contents {
                    if let Some(category) = check_json(bytes.as_slice()) {
                        return Err(Error::SerdeJson(category));
                    }
                    self.insert(key.clone(), DataValue::Json(bytes));
                }
            },
            Parameter::DataFile { key, filename } => {
                if let Contents::Text(text) = contents {
                    self.insert(key.clone(), DataValue::Text(text));
                }
            },
            Parameter::FormFile { key, filename } => {
                if self.multipart.is_some() {
                    let mut parts = self.multipart.take().unwrap();
                    let ghost before = form_parts(parts@);
                    parts.push(FormPart::File { key: key.clone(), filename: filename.clone() });
                    assert(form_parts(parts@) =~= before.push(
                        FormPartView::File { key: key@, filename: filename@ },
                    ));
                    self.multipart = Some(parts);
                }
            },
        }
        Ok(())
    }

    /// Makes the request of the parts.
    pub fn finish(self, is_form: bool) -> (request: Request)
        requires
            self.wf(),
        ensures
            request.is_made_of(self@, is_form),
    {
        proof {
            let entries = data_entries(self.data@);
            if entries.len() > 0 {
                assert(as_map(entries).dom().contains(entries.last().0));
            }
        }
        let body = match self.multipart {
            Some(parts) => Body::Multipart(parts),
            None => if self.data.len() == 0 {
                Body::Empty
            } else if is_form {
                Body::Form(self.data)
            } else {
                Body::Json(self.data)
            },
        };
        Request { headers: self.headers, query: self.query, body }
    }
}

impl Request {
    /// Whether this is the request that the parts make up: it has their
    /// headers and query, and its body is the form of several parts if
    /// there is one; else the data, each key once, as a form in form
    /// mode and as JSON otherwise; and nothing if there is no data.
    pub open spec fn is_made_of(self, parts: PartsView, is_form: bool) -> bool {
        &&& pairs(self.headers@) == parts.headers
        &&& pairs(self.query@) == parts.query
        &&& match parts.multipart {
            Some(form) => self.body matches Body::Multipart(p) && form_parts(p@) == form,
            None => if parts.data.dom() =~= Set::empty() {
                self.body is Empty
            } else if is_form {
                self.body matches Body::Form(d) && as_map(data_entries(d@)) == parts.data
                    && distinct_keys(data_entries(d@))
            } else {
                self.body matches Body::Json(d) && as_map(data_entries(d@)) == parts.data
                    && distinct_keys(data_entries(d@))
            },
        }
    }
}

impl Contents {
    /// A copy of what was read.
    pub fn copy(&self) -> (copy: Contents)
        ensures
            match (*self, copy) {
                (Contents::Unread, Contents::Unread) => true,
                (Contents::Text(a), Contents::Text(b)) => a@ == b@,
                (Contents::Bytes(a), Contents::Bytes(b)) => a@ == b@,
                _ => false,
            },
    {
        match self {
            Contents::Unread => Contents::Unread,
            Contents::Text(text) => Contents::Text(text.clone()),
            Contents::Bytes(bytes) => Contents::Bytes(bytes.clone()),
        }
    }
}

/// The parts of a request after some parameters were added, the first of
/// them first, each with what was read for it. The first JSON that is
/// no JSON ends it.
pub open spec fn add_all(parts: PartsView, parameters: Seq<Parameter>, contents: Seq<Contents>) -> Result<
    PartsView,
    JsonCategory,
>
    decreases parameters.len(),
{
    if parameters.len() == 0 {
        Ok(parts)
    } else {
        match add_all(parts, parameters.drop_last(), contents.drop_last()) {
            Ok(before) => before.add(parameters.last()@, contents.last()),
            Err(category) => Err(category),
        }
    }
}

/// Makes up a request from its parameters. `contents` holds, for each
/// parameter, what was read from the file it names.
pub fn handle_parameters(
    is_form: bool,
    is_multipart: bool,
    parameters: &Vec<Parameter>,
    contents: &Vec<Contents>,
) -> (request: HurlResult<Request>)
    requires
        contents.len() == parameters.len(),
        forall|i: int|
            0 <= i < parameters.len() ==> Reading::of((#[trigger] parameters[i])@.separator).met_by(
                contents[i],
            ),
        has_form_file(parameters@) ==> is_multipart,
    ensures
        match add_all(RequestParts::new_view(is_multipart), parameters@, contents@) {
            Ok(parts) => request matches Ok(r) && r.is_made_of(parts, is_form),
            Err(category) => request matches Err(Error::SerdeJson(c)) && c == category,
        },
{
    let mut parts = RequestParts::new(is_multipart);
    let mut i: usize = 0;
    assert(parameters@.take(0) =~= Seq::<Parameter>::empty());
    while i < parameters.len()
        invariant
            i <= parameters.len(),
            contents.len() == parameters.len(),
            forall|k: int|
                0 <= k < parameters.len() ==> Reading::of(
                    (#[trigger] parameters[k])@.separator,
                ).met_by(contents[k]),
            has_form_file(parameters@) ==> is_multipart,
            parts.wf(),
            is_multipart ==> parts@.multipart is Some,
            add_all(
                RequestParts::new_view(is_multipart),
                parameters@.take(i as int),
                contents@.take(i as int),
            ) == Ok::<PartsView, JsonCategory>(parts@),
        decreases parameters.len() - i,
    {
        let ghost seen = parameters@.take(i + 1);
        let ghost read = contents@.take(i + 1);
        assert(seen.drop_last() =~= parameters@.take(i as int));
        assert(read.drop_last() =~= contents@.take(i as int));
        assert(seen.last() == parameters[i as int]);
        assert(parameters[i as int] is FormFile ==> has_form_file(parameters@));
        let copy = contents[i].copy();
        assert(parts@.add(parameters[i as int]@, copy) == parts@.add(
            parameters[i as int]@,
            contents[i as int],
        ));
        match parts.add(&parameters[i], copy) {
            Ok(()) => {},
            Err(e) => {
                proof {
                    lemma_add_all_fails(
                        RequestParts::new_view(is_multipart),
                        parameters@,
                        contents@,
                        i + 1,
                    );
                }
                return Err(e);
            },
        }
        i = i + 1;
    }
    assert(parameters@.take(parameters.len() as int) =~= parameters@);
    assert(contents@.take(contents.len() as int) =~= contents@);
    Ok(parts.finish(is_form))
}

/// Once a parameter was refused, the parameters behind it change nothing.
pub proof fn lemma_add_all_fails(
    parts: PartsView,
    parameters: Seq<Parameter>,
    contents: Seq<Contents>,
    upto: int,
)
    requires
        0 <= upto <= parameters.len() == contents.len(),
        add_all(parts, parameters.take(upto), contents.take(upto)) is Err,
    ensures
        add_all(parts, parameters, contents) == add_all(
            parts,
            parameters.take(upto),
            contents.take(upto),
        ),
    decreases parameters.len() - upto,
{
    if upto < parameters.len() {
        assert(parameters.take(upto + 1).drop_last() =~= parameters.take(upto));
        assert(contents.take(upto + 1).drop_last() =~= contents.take(upto));
        lemma_add_all_fails(parts, parameters, contents, upto + 1);
    } else {
        assert(parameters.take(upto) =~= parameters);
        assert(contents.take(upto) =~= contents);
    }
}

} // verus!
