//! A greeting.

use vstd::prelude::*;
use vstd::string::StringExecFns;

verus! {

/// Greets by name: `Hello, ` and the name, with an exclamation mark.
pub fn greet(name: &str) -> (greeting: String)
    ensures
        greeting@ == "Hello, "@ + name@ + "!"@,
{
    String::from_str("Hello, ").concat(name).concat("!")
}

} // verus!
