//! What the client remembers of a host between two runs: who the user is,
//! the headers to send again, and the cookies the host has set.

use crate::assoc::{as_map, distinct_keys, lemma_as_map_update};
use crate::hurl::app::App;
use crate::hurl::directories::Directories;
use crate::hurl::errors::HurlResult;
use crate::hurl::params::{Parameter, ParameterView, Separator};
use crate::hurl::paths::{join_path, make_safe_pathname, path_join, safe_pathname};
use crate::text::{ascii_lowercase, chars_of, starts_with, to_ascii_lowercase};
use vstd::prelude::*;
use vstd::string::StringExecFns;

verus! {

/// The texts of some pairs of strings.
pub open spec fn pairs(entries: Seq<(String, String)>) -> Seq<(Seq<char>, Seq<char>)> {
    entries.map_values(|entry: (String, String)| (entry.0@, entry.1@))
}

/// Whether a header is kept in the session: all are but those that
/// describe the body of one request (`content-...`) or make it
/// conditional (`if-...`), whatever the case of their letters.
pub open spec fn is_kept(key: Seq<char>) -> bool {
    !"content-"@.is_prefix_of(ascii_lowercase(key)) && !"if-"@.is_prefix_of(ascii_lowercase(key))
}

/// The headers of a session after it has seen one parameter.
pub open spec fn headers_with(
    headers: Map<Seq<char>, Seq<char>>,
    parameter: ParameterView,
) -> Map<Seq<char>, Seq<char>> {
    if parameter.separator == Separator::Colon && is_kept(parameter.key) {
        headers.insert(parameter.key, parameter.value)
    } else {
        headers
    }
}

/// The headers of a session after it has seen some parameters, the first
/// of them first.
pub open spec fn headers_after(
    headers: Map<Seq<char>, Seq<char>>,
    parameters: Seq<Parameter>,
) -> Map<Seq<char>, Seq<char>>
    decreases parameters.len(),
{
    if parameters.len() == 0 {
        headers
    } else {
        headers_with(headers_after(headers, parameters.drop_last()), parameters.last()@)
    }
}

/// The cookies as one header value: `name=value` for each, with `; `
/// between them.
pub open spec fn cookie_text(cookies: Seq<(Seq<char>, Seq<char>)>) -> Seq<char>
    decreases cookies.len(),
{
    if cookies.len() == 0 {
        Seq::empty()
    } else if cookies.len() == 1 {
        cookies[0].0 + seq!['='] + cookies[0].1
    } else {
        cookie_text(cookies.drop_last()) + seq![';', ' '] + cookies.last().0 + seq!['=']
            + cookies.last().1
    }
}

/// A session as plain values.
pub struct SessionView {
    pub path: Seq<char>,
    pub name: Seq<char>,
    pub host: Seq<char>,
    pub auth: Option<Seq<char>>,
    pub token: Option<Seq<char>>,
    pub headers: Map<Seq<char>, Seq<char>>,
    pub cookies: Seq<(Seq<char>, Seq<char>)>,
}

/// The text of an optional string.
pub open spec fn text_of(s: Option<String>) -> Option<Seq<char>> {
    match s {
        Some(s) => Some(s@),
        None => None,
    }
}

/// A session: what is kept for one host under one name.
pub struct Session {
    path: String,
    name: String,
    host: String,
    auth: Option<String>,
    token: Option<String>,
    headers: Vec<(String, String)>,
    cookies: Vec<(String, String)>,
}

/// The fields of a session, for storing it and reading it back.
#[derive(Debug, PartialEq, Eq)]
pub struct SessionParts {
    pub path: String,
    pub name: String,
    pub host: String,
    pub auth: Option<String>,
    pub token: Option<String>,
    pub headers: Vec<(String, String)>,
    pub cookies: Vec<(String, String)>,
}

impl View for Session {
    type V = SessionView;

    closed spec fn view(&self) -> SessionView {
        SessionView {
            path: self.path@,
            name: self.name@,
            host: self.host@,
            auth: text_of(self.auth),
            token: text_of(self.token),
            headers: as_map(pairs(self.headers@)),
            cookies: pairs(self.cookies@),
        }
    }
}

impl Session {
    /// The invariant of a session: it holds each header once.
    pub closed spec fn wf(&self) -> bool {
        distinct_keys(pairs(self.headers@))
    }

    /// The headers in the order in which the session holds them.
    pub closed spec fn header_entries(&self) -> Seq<(Seq<char>, Seq<char>)> {
        pairs(self.headers@)
    }

    /// The directory of the sessions of a host: a directory of that name,
    /// made safe, under the directory that was named on the command line,
    /// provided that it is a directory (`is_dir` tells so), and else under
    /// `sessions` in the configuration directory of the client.
    pub open spec fn dir_of(
        app: &App,
        host: Seq<char>,
        is_dir: bool,
        directories: &Directories,
    ) -> Seq<char> {
        path_join(
            if app.session_dir is Some && is_dir {
                app.session_dir->0@
            } else {
                path_join(directories.config_text(), "sessions"@)
            },
            safe_pathname(host),
        )
    }

    /// The file of a session: its name, made safe, with `.json` behind
    /// it, in the directory of its host.
    pub open spec fn path_of(
        app: &App,
        name: Seq<char>,
        host: Seq<char>,
        is_dir: bool,
        directories: &Directories,
    ) -> Seq<char> {
        path_join(Self::dir_of(app, host, is_dir, directories), safe_pathname(name) + ".json"@)
    }

    /// The directory of the sessions of a host.
    pub fn dir(app: &App, host: &str, is_dir: bool, directories: &Directories) -> (dir: String)
        ensures
            dir@ == Self::dir_of(app, host@, is_dir, directories),
    {
        let session_dir = match &app.session_dir {
            Some(session_dir) if is_dir => session_dir.clone(),
            _ => join_path(directories.config(), "sessions"),
        };
        join_path(session_dir.as_str(), make_safe_pathname(host).as_str())
    }

    /// The file in which a session is kept.
    pub fn path(app: &App, name: &str, host: &str, is_dir: bool, directories: &Directories) -> (path:
        String)
        ensures
            path@ == Self::path_of(app, name@, host@, is_dir, directories),
    {
        let session_dir = Session::dir(app, host, is_dir, directories);
        let filename = make_safe_pathname(name).concat(".json");
        join_path(session_dir.as_str(), filename.as_str())
    }

    /// A new session for a host: it knows its file, and holds nothing
    /// else yet.
    pub fn new(app: &App, name: String, host: String, is_dir: bool, directories: &Directories) -> (session:
        Self)
        ensures
            session.wf(),
            session@ == (SessionView {
                path: Self::path_of(app, name@, host@, is_dir, directories),
                name: name@,
                host: host@,
                auth: None,
                token: None,
                headers: Map::empty(),
                cookies: Seq::empty(),
            }),
    {
        let path = Session::path(app, name.as_str(), host.as_str(), is_dir, directories);
        let session = Session {
            path,
            name,
            host,
            auth: None,
            token: None,
            headers: Vec::new(),
            cookies: Vec::new(),
        };
        assert(pairs(session.cookies@) =~= Seq::empty());
        assert(pairs(session.headers@) =~= Seq::empty());
        session
    }

    /// The session that was read from its file, or a new one if reading
    /// it failed.
    pub fn get_or_create(
        app: &App,
        name: String,
        host: String,
        loaded: HurlResult<Session>,
        is_dir: bool,
        directories: &Directories,
    ) -> (session: Self)
        requires
            loaded matches Ok(stored) ==> stored.wf(),
        ensures
            session.wf(),
            loaded matches Ok(stored) ==> session == stored,
            loaded is Err ==> session@ == (SessionView {
                path: Self::path_of(app, name@, host@, is_dir, directories),
                name: name@,
                host: host@,
                auth: None,
                token: None,
                headers: Map::empty(),
                cookies: Seq::empty(),
            }),
    {
        match loaded {
            Ok(session) => session,
            Err(_) => Session::new(app, name, host, is_dir, directories),
        }
    }

    /// Puts a header into the session, in place of the one it had under
    /// that key, if it had one.
    fn insert_header(&mut self, key: String, value: String)
        requires
            old(self).wf(),
        ensures
            final(self).wf(),
            final(self)@ == (SessionView {
                headers: old(self)@.headers.insert(key@, value@),
                ..old(self)@
            }),
    {
        let ghost entries = pairs(self.headers@);
        let mut i: usize = 0;
        while i < self.headers.len()
            invariant
                i <= self.headers.len(),
                *self == *old(self),
                entries == pairs(self.headers@),
                distinct_keys(entries),
                forall|k: int| 0 <= k < i ==> (#[trigger] entries[k]).0 != key@,
            decreases self.headers.len() - i,
        {
            if self.headers[i].0 == key {
                proof {
                    lemma_as_map_update(entries, i as int, key@, value@);
                }
                self.headers.set(i, (key, value));
                assert(pairs(self.headers@) =~= entries.update(i as int, (key@, value@)));
                return ;
            }
            i = i + 1;
        }
        self.headers.push((key, value));
        let ghost pushed = pairs(self.headers@);
        assert(pushed =~= entries.push((key@, value@)));
        assert(pushed.drop_last() =~= entries);
        assert forall|a: int, b: int| 0 <= a < b < pushed.len() implies (#[trigger] pushed[a]).0 != (
        #[trigger] pushed[b]).0 by {
            if b < entries.len() {
                assert(pushed[a] == entries[a]);
                assert(pushed[b] == entries[b]);
            } else {
                assert(pushed[a] == entries[a]);
            }
        }
    }

    /// Remembers the headers among the parameters of a request, each in
    /// place of what was remembered under its key. Headers that describe
    /// the body of one request or make it conditional are not kept.
    pub fn update_with_parameters(&mut self, parameters: &Vec<Parameter>)
        requires
            old(self).wf(),
        ensures
            final(self).wf(),
            final(self)@ == (SessionView {
                headers: headers_after(old(self)@.headers, parameters@),
                ..old(self)@
            }),
    {
        let mut i: usize = 0;
        assert(parameters@.take(0) =~= Seq::<Parameter>::empty());
        while i < parameters.len()
            invariant
                i <= parameters.len(),
                self.wf(),
                self@ == (SessionView {
                    headers: headers_after(old(self)@.headers, parameters@.take(i as int)),
                    ..old(self)@
                }),
            decreases parameters.len() - i,
        {
            assert(parameters@.take(i + 1).drop_last() =~= parameters@.take(i as int));
            match &parameters[i] {
                Parameter::Header { key, value } => {
                    if is_session_header(key.as_str()) {
                        self.insert_header(key.clone(), value.clone());
                    }
                },
                _ => {},
            }
            i = i + 1;
        }
        assert(parameters@.take(parameters.len() as int) =~= parameters@);
    }

    /// Remembers who the user is: what was given replaces what the
    /// session held, what was not given leaves it.
    pub fn update_auth(&mut self, auth: &Option<String>, token: &Option<String>)
        requires
            old(self).wf(),
        ensures
            final(self).wf(),
            final(self)@ == (SessionView {
                auth: if auth is Some {
                    text_of(*auth)
                } else {
                    old(self)@.auth
                },
                token: if token is Some {
                    text_of(*token)
                } else {
                    old(self)@.token
                },
                ..old(self)@
            }),
    {
        if auth.is_some() {
            self.auth = auth.clone();
        }
        if token.is_some() {
            self.token = token.clone();
        }
    }

    /// The headers that the session adds to a request: those it
    /// remembers, and behind them, if it holds any cookie, one `cookie`
    /// header with all of them.
    pub fn add_to_request(&self) -> (headers: Vec<(String, String)>)
        ensures
            pairs(headers@) == self.header_entries() + (if self@.cookies.len() > 0 {
                seq![("cookie"@, cookie_text(self@.cookies))]
            } else {
                Seq::empty()
            }),
            as_map(self.header_entries()) == self@.headers,
    {
        let mut headers = copy_pairs(&self.headers);
        if self.cookies.len() > 0 {
            headers.push((String::from_str("cookie"), cookie_header(&self.cookies)));
        }
        assert(pairs(headers@) =~= self.header_entries() + (if self@.cookies.len() > 0 {
            seq![("cookie"@, cookie_text(self@.cookies))]
        } else {
            Seq::empty()
        }));
        headers
    }

    /// Remembers the cookies that a response has set, behind those the
    /// session holds.
    pub fn update_with_response(&mut self, cookies: &Vec<(String, String)>)
        requires
            old(self).wf(),
        ensures
            final(self).wf(),
            final(self)@ == (SessionView {
                cookies: old(self)@.cookies + pairs(cookies@),
                ..old(self)@
            }),
    {
        let mut i: usize = 0;
        while i < cookies.len()
            invariant
                i <= cookies.len(),
                self.wf(),
                self@ == (SessionView {
                    cookies: old(self)@.cookies + pairs(cookies@).take(i as int),
                    ..old(self)@
                }),
            decreases cookies.len() - i,
        {
            let ghost before = pairs(self.cookies@);
            self.cookies.push((cookies[i].0.clone(), cookies[i].1.clone()));
            assert(pairs(self.cookies@) =~= before.push(pairs(cookies@)[i as int]));
            i = i + 1;
            assert(pairs(self.cookies@) =~= old(self)@.cookies + pairs(cookies@).take(i as int));
        }
        assert(pairs(cookies@).take(cookies.len() as int) =~= pairs(cookies@));
    }

    /// The fields of the session, copied out for storing.
    pub fn to_parts(&self) -> (parts: SessionParts)
        ensures
            parts.path@ == self@.path,
            parts.name@ == self@.name,
            parts.host@ == self@.host,
            text_of(parts.auth) == self@.auth,
            text_of(parts.token) == self@.token,
            pairs(parts.headers@) == self.header_entries(),
            as_map(pairs(parts.headers@)) == self@.headers,
            pairs(parts.cookies@) == self@.cookies,
    {
        SessionParts {
            path: self.path.clone(),
            name: self.name.clone(),
            host: self.host.clone(),
            auth: self.auth.clone(),
            token: self.token.clone(),
            headers: copy_pairs(&self.headers),
            cookies: copy_pairs(&self.cookies),
        }
    }

    /// A session of the given fields. Where a header occurs more than
    /// once among them, its last value counts.
    pub fn from_parts(parts: SessionParts) -> (session: Session)
        ensures
            session.wf(),
            session@ == (SessionView {
                path: parts.path@,
                name: parts.name@,
                host: parts.host@,
                auth: text_of(parts.auth),
                token: text_of(parts.token),
                headers: as_map(pairs(parts.headers@)),
                cookies: pairs(parts.cookies@),
            }),
    {
        let mut session = Session {
            path: parts.path,
            name: parts.name,
            host: parts.host,
            auth: parts.auth,
            token: parts.token,
            headers: Vec::new(),
            cookies: parts.cookies,
        };
        assert(pairs(session.headers@) =~= Seq::empty());
        let ghost start = session@;
        let mut i: usize = 0;
        assert(pairs(parts.headers@).take(0) =~= Seq::empty());
        while i < parts.headers.len()
            invariant
                i <= parts.headers.len(),
                session.wf(),
                session@ == (SessionView {
                    headers: as_map(pairs(parts.headers@).take(i as int)),
                    ..start
                }),
            decreases parts.headers.len() - i,
        {
            assert(pairs(parts.headers@).take(i + 1).drop_last() =~= pairs(parts.headers@).take(
                i as int,
            ));
            session.insert_header(parts.headers[i].0.clone(), parts.headers[i].1.clone());
            i = i + 1;
        }
        assert(pairs(parts.headers@).take(parts.headers.len() as int) =~= pairs(parts.headers@));
        session
    }
}

/// A copy of some pairs of strings.
fn copy_pairs(entries: &Vec<(String, String)>) -> (copy: Vec<(String, String)>)
    ensures
        pairs(copy@) == pairs(entries@),
{
    let mut copy: Vec<(String, String)> = Vec::new();
    let mut i: usize = 0;
    while i < entries.len()
        invariant
            i <= entries.len(),
            pairs(copy@) == pairs(entries@).take(i as int),
        decreases entries.len() - i,
    {
        let ghost before = pairs(copy@);
        copy.push((entries[i].0.clone(), entries[i].1.clone()));
        assert(pairs(copy@) =~= before.push(pairs(entries@)[i as int]));
        i = i + 1;
        assert(pairs(copy@) =~= pairs(entries@).take(i as int));
    }
    assert(pairs(entries@).take(entries.len() as int) =~= pairs(entries@));
    copy
}

/// The value of the `cookie` header for some cookies.
pub fn cookie_header(cookies: &Vec<(String, String)>) -> (header: String)
    ensures
        header@ == cookie_text(pairs(cookies@)),
{
    let mut header = String::new();
    let mut i: usize = 0;
    assert(pairs(cookies@).take(0) =~= Seq::empty());
    while i < cookies.len()
        invariant
            i <= cookies.len(),
            header@ == cookie_text(pairs(cookies@).take(i as int)),
        decreases cookies.len() - i,
    {
        let ghost done = pairs(cookies@).take(i as int);
        let ghost next = pairs(cookies@).take(i + 1);
        assert(next.drop_last() =~= done);
        assert(next.last() == (cookies@[i as int].0@, cookies@[i as int].1@));
        if i > 0 {
            header.push(';');
            header.push(' ');
        }
        header.append(cookies[i].0.as_str());
        header.push('=');
        header.append(cookies[i].1.as_str());
        assert(header@ =~= cookie_text(next)) by {
            if i == 0 {
                assert(done =~= Seq::empty());
                assert(next[0] == next.last());
            }
        }
        i = i + 1;
    }
    assert(pairs(cookies@).take(cookies.len() as int) =~= pairs(cookies@));
    header
}

/// Whether the session keeps a header of this name.
pub fn is_session_header(key: &str) -> (kept: bool)
    ensures
        kept == is_kept(key@),
{
    let lower_key = to_ascii_lowercase(key);
    let content = chars_of("content-");
    let conditional = chars_of("if-");
    !(starts_with(&lower_key, &content) || starts_with(&lower_key, &conditional))
}

} // verus!
