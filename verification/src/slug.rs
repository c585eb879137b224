//! Domain names: the slug of a directory's name.

use vstd::prelude::*;
use vstd::string::StringExecFns;
use crate::text::{is_white_space, push_char, white_space};

verus! {

/// An ASCII letter or digit.
pub open spec fn is_ascii_alnum(c: char) -> bool {
    ('a' <= c && c <= 'z') || ('A' <= c && c <= 'Z') || ('0' <= c && c <= '9')
}

/// The lower-case form of an ASCII letter; any other character as it is.
pub open spec fn ascii_lower(c: char) -> char {
    if 'A' <= c && c <= 'Z' {
        ((c as u8) + 32) as char
    } else {
        c
    }
}

/// White space, `_` and `-` separate the words of a name.
pub open spec fn is_separator(c: char) -> bool {
    is_white_space(c) || c == '_' || c == '-'
}

/// One character more: a letter or digit is kept in lower case, a separator
/// becomes a hyphen unless it would lead the slug or follow a hyphen, and
/// anything else is dropped.
pub open spec fn slug_step(out: Seq<char>, c: char) -> Seq<char> {
    if is_ascii_alnum(c) {
        out.push(ascii_lower(c))
    } else if is_separator(c) && out.len() > 0 && out.last() != '-' {
        out.push('-')
    } else {
        out
    }
}

/// The characters of `s` read one by one.
pub open spec fn slug_body(s: Seq<char>) -> Seq<char>
    decreases s.len(),
{
    if s.len() == 0 {
        Seq::empty()
    } else {
        slug_step(slug_body(s.drop_last()), s.last())
    }
}

/// The name that stands in for a label with no letter or digit in it.
pub open spec fn fallback_name() -> Seq<char> {
    "domain"@
}

/// The slug of `s`: the characters read one by one, a hyphen at the end
/// taken off, and the fallback where nothing is left.
pub open spec fn slug(s: Seq<char>) -> Seq<char> {
    let b = slug_body(s);
    let t = if b.len() > 0 && b.last() == '-' {
        b.drop_last()
    } else {
        b
    };
    if t.len() == 0 {
        fallback_name()
    } else {
        t
    }
}

fn lower(c: char) -> (r: char)
    requires
        is_ascii_alnum(c),
    ensures
        r == ascii_lower(c),
{
    if 'A' <= c && c <= 'Z' {
        ((c as u8) + 32) as char
    } else {
        c
    }
}

/// Derives a domain's name from the final segment of its location.
pub fn slugify_name(input: &str) -> (r: String)
    ensures
        r@ == slug(input@),
{
    let mut out = String::new();
    let mut filled: bool = false;
    let mut last_dash: bool = false;
    for ch in it: input.chars()
        invariant
            it.seq() == input@,
            out@ == slug_body(input@.take(it.index())),
            filled == (out@.len() > 0),
            last_dash == (out@.len() > 0 && out@.last() == '-'),
    {
        proof {
            let i = it.index();
            assert(input@.take(i + 1).drop_last() =~= input@.take(i));
            assert(input@.take(i + 1).last() == ch);
        }
        if (ch >= 'a' && ch <= 'z') || (ch >= 'A' && ch <= 'Z') || (ch >= '0' && ch <= '9') {
            push_char(&mut out, lower(ch));
            filled = true;
            last_dash = false;
        } else if white_space(ch) || ch == '_' || ch == '-' {
            if !last_dash && filled {
                push_char(&mut out, '-');
                last_dash = true;
            }
        }
    }
    assert(input@.take(input@.len() as int) =~= input@);
    if last_dash {
        out = strip_last(out);
    }
    if out.as_str().unicode_len() == 0 {
        String::from_str("domain")
    } else {
        out
    }
}

/// The string without its last character.
fn strip_last(s: String) -> (r: String)
    requires
        s@.len() > 0,
    ensures
        r@ == s@.drop_last(),
{
    let n: usize = s.as_str().unicode_len();
    let t = s.as_str().substring_char(0, n - 1);
    String::from_str(t)
}

} // verus!
