//! What the web server answers to a request: the one page it serves for
//! `GET /`, and a not-found page for everything else.

use vstd::prelude::*;
use vstd::string::StringExecFns;

verus! {

/// How many bytes of a request the server looks at.
pub const BUFFER_SIZE: usize = 1024;

/// How many workers the server starts by default.
pub const WORKERS: usize = 4;

/// The address the server listens on by default.
pub fn default_address() -> (address: &'static str)
    ensures
        address@ == "127.0.0.1:7878"@,
{
    "127.0.0.1:7878"
}

/// The bytes of `GET / HTTP/1.1` and the line end behind it.
pub open spec fn root_request() -> Seq<u8> {
    seq![71u8, 69u8, 84u8, 32u8, 47u8, 32u8, 72u8, 84u8, 84u8, 80u8, 47u8, 49u8, 46u8, 49u8, 13u8, 10u8]
}

/// The two answers of the server.
#[derive(Clone, Copy, PartialEq, Eq, Debug, Structural)]
pub enum Page {
    /// The request was for `/`: status 200 and the index page.
    Index,
    /// Anything else: status 404 and its page.
    NotFound,
}

impl Page {
    /// The page that answers a request with these first bytes.
    pub open spec fn of(buffer: Seq<u8>) -> Page {
        if root_request().is_prefix_of(buffer) {
            Page::Index
        } else {
            Page::NotFound
        }
    }

    pub open spec fn status_line_of(self) -> Seq<char> {
        match self {
            Page::Index => "HTTP/1.1 200 OK\r\n\r\n"@,
            Page::NotFound => "HTTP/1.1 404 NOT FOUND\r\n\r\n"@,
        }
    }

    pub open spec fn filename_of(self) -> Seq<char> {
        match self {
            Page::Index => "index.html"@,
            Page::NotFound => "404.html"@,
        }
    }

    /// Picks the page for a request from the bytes that were read: the
    /// index page if they begin with the request line for `/`, else the
    /// not-found page.
    pub fn select(buffer: &[u8]) -> (page: Page)
        ensures
            page == Page::of(buffer@),
    {
        let expected: [u8; 16] = [71, 69, 84, 32, 47, 32, 72, 84, 84, 80, 47, 49, 46, 49, 13, 10];
        assert(expected@ =~= root_request());
        if buffer.len() < 16 {
            return Page::NotFound;
        }
        let mut i: usize = 0;
        while i < 16
            invariant
                i <= 16,
                buffer@.len() >= 16,
                expected@ == root_request(),
                forall|k: int| 0 <= k < i ==> buffer@[k] == expected@[k],
            decreases 16 - i,
        {
            if buffer[i] != expected[i] {
                assert(buffer@.subrange(0, 16)[i as int] != root_request()[i as int]);
                return Page::NotFound;
            }
            i = i + 1;
        }
        assert(buffer@.subrange(0, 16) =~= root_request());
        Page::Index
    }

    /// The status line of the answer, with the empty line that ends the
    /// header.
    pub fn status_line(self) -> (line: &'static str)
        ensures
            line@ == self.status_line_of(),
    {
        match self {
            Page::Index => "HTTP/1.1 200 OK\r\n\r\n",
            Page::NotFound => "HTTP/1.1 404 NOT FOUND\r\n\r\n",
        }
    }

    /// The name of the file whose contents are the body of the answer.
    pub fn filename(self) -> (name: &'static str)
        ensures
            name@ == self.filename_of(),
    {
        match self {
            Page::Index => "index.html",
            Page::NotFound => "404.html",
        }
    }

    /// The whole answer: the status line, then the contents of the file.
    pub fn response(self, contents: &str) -> (response: String)
        ensures
            response@ == self.status_line_of() + contents@,
    {
        String::from_str(self.status_line()).concat(contents)
    }
}

} // verus!
