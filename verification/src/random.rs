use vstd::prelude::*;

use vstd::string::StringExecFnsIsAscii;
use vstd::utf8::is_ascii_chars;

use crate::text::is_ascii_alphanumeric;

verus! {

/// One character drawn by `rand::thread_rng().sample(Alphanumeric)`.  The
/// rand documentation and source give it as uniform over `A-Z`, `a-z` and
/// `0-9`; which one comes out is left open.
#[verifier::external_body]
fn random_alphanumeric() -> (c: char)
    ensures
        is_ascii_alphanumeric(c),
{
    char::from(rand::Rng::sample(&mut rand::thread_rng(), rand::distributions::Alphanumeric))
}

/// A random string of `num` characters, each an ASCII letter or digit.
pub fn random_string(num: usize) -> (s: String)
    ensures
        s@.len() == num,
        forall|i: int| 0 <= i < num ==> is_ascii_alphanumeric(#[trigger] s@[i]),
        s.is_ascii(),
{
    let mut s = String::new();
    let mut i: usize = 0;
    while i < num
        invariant
            i <= num,
            s@.len() == i,
            forall|j: int| 0 <= j < i ==> is_ascii_alphanumeric(#[trigger] s@[j]),
        decreases num - i,
    {
        let c = random_alphanumeric();
        s.push(c);
        i = i + 1;
    }
    assert(is_ascii_chars(s@)) by {
        assert forall|j: int| 0 <= j < s@.len() implies '\0' <= #[trigger] s@[j] <= '\u{7f}' by {
            assert(is_ascii_alphanumeric(s@[j]));
        }
    }
    s
}

} // verus!
