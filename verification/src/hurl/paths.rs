//! Paths, held as text.

use vstd::prelude::*;

verus! {

/// What `std::path::Path::join` makes of a path and a component adjoined to
/// it, on the platform the program was built for.
pub uninterp spec fn path_join(base: Seq<char>, component: Seq<char>) -> Seq<char>;

/// `std::path::Path::join`: the path `base` with `component` adjoined. The
/// contract gives the result its name and claims no more than that it
/// depends on the two texts alone.
#[verifier::external_body]
pub(crate) fn join_path(base: &str, component: &str) -> (joined: String)
    ensures
        joined@ == path_join(base@, component@),
{
    std::path::Path::new(base).join(component).to_string_lossy().into_owned()
}

/// Whether `c` is kept in the name of a file: letters and digits of ASCII,
/// the underscore, the hyphen and the blank.
pub open spec fn is_safe(c: char) -> bool {
    ||| 'a' <= c <= 'z'
    ||| 'A' <= c <= 'Z'
    ||| '0' <= c <= '9'
    ||| c == '_'
    ||| c == '-'
    ||| c == ' '
}

/// `s` with an underscore in place of every character that is not kept.
pub open spec fn safe_pathname(s: Seq<char>) -> Seq<char> {
    s.map_values(
        |c: char|
            if is_safe(c) {
                c
            } else {
                '_'
            },
    )
}

/// Turns any text into one that can safely name a file: every character
/// but letters and digits of ASCII, `_`, `-` and the blank becomes `_`.
pub fn make_safe_pathname(s: &str) -> (buf: String)
    ensures
        buf@ == safe_pathname(s@),
{
    let mut buf = String::new();
    for c in it: s.chars()
        invariant
            it.seq() == s@,
            buf@ == safe_pathname(s@.take(it.index())),
    {
        let safe = ('a' <= c && c <= 'z') || ('A' <= c && c <= 'Z') || ('0' <= c && c <= '9') || c
            == '_' || c == '-' || c == ' ';
        if safe {
            buf.push(c);
        } else {
            buf.push('_');
        }
        assert(buf@ =~= safe_pathname(s@.take(it.index() + 1)));
    }
    assert(s@.take(s@.len() as int) =~= s@);
    buf
}

/// A safe name is as long as the text it was made of, holds only
/// characters that are kept, and is left as it is when it is made safe
/// again.
pub proof fn lemma_safe_pathname(s: Seq<char>)
    ensures
        safe_pathname(s).len() == s.len(),
        forall|i: int| 0 <= i < s.len() ==> is_safe(#[trigger] safe_pathname(s)[i]),
        safe_pathname(safe_pathname(s)) == safe_pathname(s),
{
    assert(safe_pathname(safe_pathname(s)) =~= safe_pathname(s));
}

} // verus!
