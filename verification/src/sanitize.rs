//! Filename sanitization.
//!
//! Filenames are compared byte for byte, so every name that enters a
//! comparison is first passed through the same total replacement function:
//! each character of a fixed reserved set becomes `'_'`, every other
//! character (unicode included) is kept unchanged.

use vstd::prelude::*;
use vstd::string::*;

verus! {

/// The reserved characters: `< > : " / \ | ? *` and the full-width
/// question mark `U+FF1F`.
pub open spec fn is_replaced_char(c: char) -> bool {
    ||| c == '<'
    ||| c == '>'
    ||| c == ':'
    ||| c == '"'
    ||| c == '/'
    ||| c == '\\'
    ||| c == '|'
    ||| c == '?'
    ||| c == '*'
    ||| c == '\u{FF1F}'
}

/// One character after sanitization.
pub open spec fn sanitize_char(c: char) -> char {
    if is_replaced_char(c) {
        '_'
    } else {
        c
    }
}

/// A whole name after sanitization: the image of `sanitize_char`,
/// character by character.
pub open spec fn sanitize_seq(s: Seq<char>) -> Seq<char> {
    s.map_values(|c: char| sanitize_char(c))
}

/// Relies on `String::push` of std: appends exactly one character at the
/// end of the string.
#[verifier::external_body]
fn push_char(s: &mut String, c: char)
    ensures
        final(s)@ == old(s)@.push(c),
{
    s.push(c)
}

/// Replaces each reserved character by `'_'` and keeps every other
/// character unchanged.
pub fn sanitize_filename(filename: &str) -> (r: String)
    ensures
        r@ == sanitize_seq(filename@),
{
    let n = filename.unicode_len();
    let mut out = String::new();
    let mut i: usize = 0;
    while i < n
        invariant
            n == filename@.len(),
            i <= n,
            out@.len() == i,
            forall|k: int| 0 <= k < i ==> out@[k] == sanitize_char(filename@[k]),
        decreases n - i,
    {
        let c = filename.get_char(i);
        let replaced = c == '<' || c == '>' || c == ':' || c == '"' || c == '/' || c == '\\'
            || c == '|' || c == '?' || c == '*' || c == '\u{FF1F}';
        if replaced {
            push_char(&mut out, '_');
        } else {
            push_char(&mut out, c);
        }
        i = i + 1;
    }
    proof {
        assert(out@ =~= sanitize_seq(filename@));
    }
    out
}

/// Sanitization changes exactly the reserved characters, and nothing else:
/// the result has the same length, a reserved character becomes `'_'`, any
/// other character stays as it was.
pub proof fn lemma_sanitize_pointwise(s: Seq<char>)
    ensures
        sanitize_seq(s).len() == s.len(),
        forall|i: int|
            0 <= i < s.len() && is_replaced_char(s[i]) ==> sanitize_seq(s)[i] == '_',
        forall|i: int|
            0 <= i < s.len() && !is_replaced_char(s[i]) ==> sanitize_seq(s)[i] == s[i],
{
}

/// Sanitizing an already-sanitized name is a no-op.
pub proof fn lemma_sanitize_idempotent(s: Seq<char>)
    ensures
        sanitize_seq(sanitize_seq(s)) == sanitize_seq(s),
{
    assert(sanitize_seq(sanitize_seq(s)) =~= sanitize_seq(s));
}

/// Sanitization distributes over concatenation.
pub proof fn lemma_sanitize_add(a: Seq<char>, b: Seq<char>)
    ensures
        sanitize_seq(a + b) == sanitize_seq(a) + sanitize_seq(b),
{
    assert(sanitize_seq(a + b) =~= sanitize_seq(a) + sanitize_seq(b));
}

} // verus!
