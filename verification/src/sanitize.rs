//! HTML-entity sanitization of user-supplied text.
//!
//! Each character of the risky set `& < > ' ` = /` is replaced by its
//! entity form; every other character passes through unchanged.

use vstd::prelude::*;

use crate::strutil::push_char;

verus! {

/// What one input character contributes to the sanitized output.
pub open spec fn entity_expansion(c: char) -> Seq<char> {
    if c == '&' {
        "&amp;"@
    } else if c == '<' {
        "&lt;"@
    } else if c == '>' {
        "&gt;"@
    } else if c == '\'' {
        "&apos;"@
    } else if c == '/' {
        "&amp;#x2F;"@
    } else if c == '`' {
        "&amp;#x60;"@
    } else if c == '=' {
        "&amp;#x3D;"@
    } else {
        seq![c]
    }
}

/// The sanitized form: the concatenation of each character's expansion.
pub open spec fn spec_sanitize(s: Seq<char>) -> Seq<char>
    decreases s.len(),
{
    if s.len() == 0 {
        Seq::empty()
    } else {
        spec_sanitize(s.drop_last()) + entity_expansion(s.last())
    }
}

/// Replaces every character of the risky set by its HTML entity.
pub fn sanitize(input: &str) -> (r: String)
    ensures
        r@ == spec_sanitize(input@),
{
    let n = input.unicode_len();
    let mut out = String::new();
    let mut i: usize = 0;
    while i < n
        invariant
            0 <= i <= n,
            n == input@.len(),
            out@ == spec_sanitize(input@.take(i as int)),
        decreases n - i,
    {
        let c = input.get_char(i);
        proof {
            assert(input@.take(i as int + 1).drop_last() =~= input@.take(i as int));
            assert(input@.take(i as int + 1).last() == input@[i as int]);
        }
        if c == '&' {
            out.append("&amp;");
        } else if c == '<' {
            out.append("&lt;");
        } else if c == '>' {
            out.append("&gt;");
        } else if c == '\'' {
            out.append("&apos;");
        } else if c == '/' {
            out.append("&amp;#x2F;");
        } else if c == '`' {
            out.append("&amp;#x60;");
        } else if c == '=' {
            out.append("&amp;#x3D;");
        } else {
            push_char(&mut out, c);
            proof {
                assert(out@ =~= spec_sanitize(input@.take(i as int)) + seq![c]);
            }
        }
        i = i + 1;
    }
    proof {
        assert(input@.take(n as int) =~= input@);
    }
    out
}

} // verus!
