//! The options of the client and the request they ask for.

use crate::hurl::config::Config;
use crate::hurl::errors::{Error, HurlResult};
use crate::hurl::params::Parameter;
use crate::hurl::paths::{make_safe_pathname, safe_pathname};
use vstd::prelude::*;

verus! {

/// An HTTP method together with the request to make with it.
#[derive(Debug)]
pub enum Method {
    HEAD(MethodData),
    GET(MethodData),
    PUT(MethodData),
    POST(MethodData),
    PATCH(MethodData),
    DELETE(MethodData),
}

/// The request that goes with a method.
#[derive(Debug)]
pub struct MethodData {
    /// The URL to request.
    pub url: String,
    /// The headers, data, and query parameters to add to the request.
    pub parameters: Vec<Parameter>,
}

/// The options of the client.
#[derive(Debug)]
pub struct App {
    /// Quiet mode: overrides any verbose setting.
    pub quiet: bool,
    /// How verbose to be, from 0 for silence up.
    pub verbose: u8,
    /// Form mode.
    pub form: bool,
    /// Basic authentication, `username:password`.
    pub auth: Option<String>,
    /// The token of bearer authentication.
    pub token: Option<String>,
    /// Use https where the URL names no transport.
    pub secure: bool,
    /// The method to use, with its request.
    pub cmd: Option<Method>,
    /// The URL to request if no method was given.
    pub url: Option<String>,
    /// The parameters of the request if no method was given.
    pub parameters: Vec<Parameter>,
    /// The path of the configuration file.
    pub config: Option<String>,
    /// The name of the session.
    pub session: Option<String>,
    /// The directory in which sessions are kept.
    pub session_dir: Option<String>,
    /// Use the stored session, but do not change it.
    pub read_only: bool,
}

impl Method {
    /// The request of the method.
    pub open spec fn data_of(&self) -> MethodData {
        match self {
            Method::HEAD(x) => *x,
            Method::GET(x) => *x,
            Method::PUT(x) => *x,
            Method::POST(x) => *x,
            Method::PATCH(x) => *x,
            Method::DELETE(x) => *x,
        }
    }

    /// The name of the method.
    pub open spec fn name_of(&self) -> Seq<char> {
        match self {
            Method::HEAD(_) => "HEAD"@,
            Method::GET(_) => "GET"@,
            Method::PUT(_) => "PUT"@,
            Method::POST(_) => "POST"@,
            Method::PATCH(_) => "PATCH"@,
            Method::DELETE(_) => "DELETE"@,
        }
    }

    /// The request that goes with the method.
    pub fn data(&self) -> (data: &MethodData)
        ensures
            *data == self.data_of(),
    {
        match self {
            Method::HEAD(x) => x,
            Method::GET(x) => x,
            Method::PUT(x) => x,
            Method::POST(x) => x,
            Method::PATCH(x) => x,
            Method::DELETE(x) => x,
        }
    }

    /// The name of the method as it stands in a request.
    pub fn name(&self) -> (name: &'static str)
        ensures
            name@ == self.name_of(),
    {
        match self {
            Method::HEAD(_) => "HEAD",
            Method::GET(_) => "GET",
            Method::PUT(_) => "PUT",
            Method::POST(_) => "POST",
            Method::PATCH(_) => "PATCH",
            Method::DELETE(_) => "DELETE",
        }
    }
}

impl App {
    /// The URL that the options ask for: the one given on its own, and
    /// else the one of the method.
    pub open spec fn url_of(&self) -> Seq<char> {
        match self.url {
            Some(url) => url@,
            None => match self.cmd {
                Some(cmd) => cmd.data_of().url@,
                None => Seq::empty(),
            },
        }
    }

    /// The level of logging that the options ask for.
    pub open spec fn log_level_of(&self) -> Option<Seq<char>> {
        if self.quiet || self.verbose == 0 {
            None
        } else if self.verbose == 1 {
            Some("error"@)
        } else if self.verbose == 2 {
            Some("warn"@)
        } else if self.verbose == 3 {
            Some("info"@)
        } else if self.verbose == 4 {
            Some("debug"@)
        } else {
            Some("trace"@)
        }
    }

    /// Checks that the options say what to request: a URL, or a method
    /// with its URL.
    pub fn validate(&mut self) -> (valid: HurlResult<()>)
        ensures
            *final(self) == *old(self),
            old(self).cmd is None && old(self).url is None ==> valid == Err::<(), Error>(
                Error::MissingUrlAndCommand,
            ),
            old(self).cmd is Some || old(self).url is Some ==> valid is Ok,
    {
        if self.cmd.is_none() && self.url.is_none() {
            return Err(Error::MissingUrlAndCommand);
        }
        Ok(())
    }

    /// The level of logging: none in quiet mode or at verbosity 0, then
    /// `error`, `warn`, `info` and `debug`, and `trace` from 5 on.
    pub fn log_level(&self) -> (level: Option<&'static str>)
        ensures
            level is Some == self.log_level_of() is Some,
            level matches Some(name) ==> name@ == self.log_level_of()->0,
    {
        if self.quiet || self.verbose <= 0 {
            return None;
        }
        match self.verbose {
            1 => Some("error"),
            2 => Some("warn"),
            3 => Some("info"),
            4 => Some("debug"),
            _ => Some("trace"),
        }
    }

    /// Fills the options that the command line left at their defaults
    /// from the configuration file, if one was read. What was given on
    /// the command line stays.
    pub fn process_config_file(&mut self, config_opt: Option<Config>)
        ensures
            config_opt is None ==> *final(self) == *old(self),
            config_opt matches Some(config) ==> {
                &&& final(self).verbose == (if old(self).verbose == 0 && config.verbose is Some {
                    config.verbose->0
                } else {
                    old(self).verbose
                })
                &&& final(self).form == (if !old(self).form && config.form is Some {
                    config.form->0
                } else {
                    old(self).form
                })
                &&& final(self).secure == (if !old(self).secure && config.secure is Some {
                    config.secure->0
                } else {
                    old(self).secure
                })
                &&& final(self).auth == (if old(self).auth is None {
                    config.auth
                } else {
                    old(self).auth
                })
                &&& final(self).token == (if old(self).token is None {
                    config.token
                } else {
                    old(self).token
                })
            },
            final(self).quiet == old(self).quiet,
            final(self).cmd == old(self).cmd,
            final(self).url == old(self).url,
            final(self).parameters == old(self).parameters,
            final(self).config == old(self).config,
            final(self).session == old(self).session,
            final(self).session_dir == old(self).session_dir,
            final(self).read_only == old(self).read_only,
    {
        if let Some(config) = config_opt {
            if self.verbose == 0 {
                if let Some(v) = config.verbose {
                    self.verbose = v;
                }
            }
            if !self.form {
                if let Some(f) = config.form {
                    self.form = f;
                }
            }
            if !self.secure {
                if let Some(s) = config.secure {
                    self.secure = s;
                }
            }
            if self.auth.is_none() {
                self.auth = config.auth;
            }
            if self.token.is_none() {
                self.token = config.token;
            }
        }
    }

    /// The name under which the sessions of the requested host are kept:
    /// the URL, made safe for a file name.
    pub fn host(&self) -> (host: String)
        requires
            self.url is Some || self.cmd is Some,
        ensures
            host@ == safe_pathname(self.url_of()),
    {
        if let Some(url) = &self.url {
            make_safe_pathname(url.as_str())
        } else if let Some(cmd) = &self.cmd {
            make_safe_pathname(cmd.data().url.as_str())
        } else {
            unreached()
        }
    }
}

} // verus!
