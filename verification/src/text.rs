//! Text building for telemetry: decimal numbers, quote escaping and
//! byte-bounded truncation.

use vstd::prelude::*;
use vstd::std_specs::iter::IteratorSpec;

verus! {

/// The decimal digit character of `d` (for `d < 10`).
pub open spec fn digit_char(d: int) -> char {
    (48 + d) as char
}

/// The decimal representation of `n`, most significant digit first.
pub open spec fn decimal(n: nat) -> Seq<char>
    decreases n,
{
    if n < 10 {
        seq![digit_char(n as int)]
    } else {
        decimal(n / 10).push(digit_char((n % 10) as int))
    }
}

/// `true` or `false`.
pub open spec fn bool_text(b: bool) -> Seq<char> {
    if b { "true"@ } else { "false"@ }
}

/// The lowercase hexadecimal digit character of `d` (for `d < 16`).
pub open spec fn hex_char(d: int) -> char {
    if d < 10 { (48 + d) as char } else { (87 + d) as char }
}

/// How one character is written inside a JSON string: quote, backslash
/// and the named control characters by their short escapes, the other
/// control characters as `\u00XX`, everything else as itself.
pub open spec fn json_escape_char(c: char) -> Seq<char> {
    if c == '"' {
        seq!['\\', '"']
    } else if c == '\\' {
        seq!['\\', '\\']
    } else if c == '\n' {
        seq!['\\', 'n']
    } else if c == '\r' {
        seq!['\\', 'r']
    } else if c == '\t' {
        seq!['\\', 't']
    } else if (c as u32) == 8 {
        seq!['\\', 'b']
    } else if (c as u32) == 12 {
        seq!['\\', 'f']
    } else if (c as u32) < 32 {
        seq!['\\', 'u', '0', '0', hex_char((c as u32) as int / 16), hex_char((c as u32) as int % 16)]
    } else {
        seq![c]
    }
}

/// The text written as the contents of a JSON string literal.
pub open spec fn json_escape_spec(s: Seq<char>) -> Seq<char>
    decreases s.len(),
{
    if s.len() == 0 {
        Seq::empty()
    } else {
        json_escape_spec(s.drop_last()) + json_escape_char(s.last())
    }
}

/// `String::push`: appends one character.
#[verifier::external_body]
pub fn push_char(s: &mut String, c: char)
    ensures
        final(s)@ == old(s)@.push(c),
{
    s.push(c);
}

/// Append the decimal representation of `n`.
pub fn push_decimal(s: &mut String, n: usize)
    ensures
        final(s)@ == old(s)@ + decimal(n as nat),
    decreases n,
{
    if n >= 10 {
        push_decimal(s, n / 10);
    }
    let d = (n % 10) as u8;
    let c = (48u8 + d) as char;
    assert(c == digit_char((n % 10) as int));
    push_char(s, c);
    assert(s@ == old(s)@ + decimal(n as nat));
}

/// Append `b` as `true` or `false`.
pub fn push_bool(s: &mut String, b: bool)
    ensures
        final(s)@ == old(s)@ + bool_text(b),
{
    if b {
        s.append("true");
    } else {
        s.append("false");
    }
}

/// Append the JSON escape of one character.
fn push_json_char(s: &mut String, c: char)
    ensures
        final(s)@ == old(s)@ + json_escape_char(c),
{
    let code = c as u32;
    if c == '"' {
        push_char(s, '\\');
        push_char(s, '"');
    } else if c == '\\' {
        push_char(s, '\\');
        push_char(s, '\\');
    } else if c == '\n' {
        push_char(s, '\\');
        push_char(s, 'n');
    } else if c == '\r' {
        push_char(s, '\\');
        push_char(s, 'r');
    } else if c == '\t' {
        push_char(s, '\\');
        push_char(s, 't');
    } else if code == 8 {
        push_char(s, '\\');
        push_char(s, 'b');
    } else if code == 12 {
        push_char(s, '\\');
        push_char(s, 'f');
    } else if code < 32 {
        let hi = (code / 16) as u8;
        let lo = (code % 16) as u8;
        let h = if hi < 10 { (48u8 + hi) as char } else { (87u8 + hi) as char };
        let l = if lo < 10 { (48u8 + lo) as char } else { (87u8 + lo) as char };
        assert(h == hex_char((c as u32) as int / 16));
        assert(l == hex_char((c as u32) as int % 16));
        push_char(s, '\\');
        push_char(s, 'u');
        push_char(s, '0');
        push_char(s, '0');
        push_char(s, h);
        push_char(s, l);
    } else {
        push_char(s, c);
    }
    assert(s@ =~= old(s)@ + json_escape_char(c));
}

/// Append `text` escaped as the contents of a JSON string literal.
pub fn push_escaped(s: &mut String, text: &str)
    ensures
        final(s)@ == old(s)@ + json_escape_spec(text@),
{
    broadcast use vstd::string::axiom_spec_iter;
    let ghost start = s@;
    let ghost t = text@;
    let mut chars = text.chars();
    let ghost mut done: Seq<char> = Seq::empty();
    loop
        invariant
            chars.obeys_prophetic_iter_laws(),
            t == done + chars.remaining(),
            s@ == start + json_escape_spec(done),
            chars.decrease() is Some,
        ensures
            s@ == start + json_escape_spec(t),
        decreases chars.decrease()->0,
    {
        let ghost before = chars;
        match chars.next() {
            Some(c) => {
                proof {
                    assert(before.remaining()[0] == c);
                    let nd = done.push(c);
                    assert(nd.drop_last() =~= done);
                    assert(t =~= nd + chars.remaining());
                    done = nd;
                }
                push_json_char(s, c);
                proof {
                    assert(s@ =~= start + json_escape_spec(done));
                }
            },
            None => {
                proof {
                    assert(t =~= done);
                }
                break;
            },
        }
    }
}

/// The first `n` characters of `text` (all of it when it is shorter).
pub open spec fn take_chars(text: Seq<char>, n: int) -> Seq<char> {
    if text.len() > n { text.subrange(0, n) } else { text }
}

/// The first `n` characters of `text`, as a new string.
pub fn first_chars(text: &str, n: usize) -> (r: String)
    ensures
        r@ == take_chars(text@, n as int),
{
    broadcast use vstd::string::axiom_spec_iter;
    let ghost t = text@;
    let mut out = String::new();
    let mut chars = text.chars();
    let ghost mut done: Seq<char> = Seq::empty();
    let mut count: usize = 0;
    loop
        invariant
            chars.obeys_prophetic_iter_laws(),
            t == done + chars.remaining(),
            out@ == done,
            count == done.len(),
            count <= n,
            chars.decrease() is Some,
        ensures
            out@ == take_chars(t, n as int),
        decreases chars.decrease()->0,
    {
        if count == n {
            proof {
                assert(t.subrange(0, n as int) =~= done);
            }
            break;
        }
        let ghost before = chars;
        match chars.next() {
            Some(c) => {
                proof {
                    assert(before.remaining()[0] == c);
                    let nd = done.push(c);
                    assert(t =~= nd + chars.remaining());
                    done = nd;
                }
                push_char(&mut out, c);
                count += 1;
            },
            None => {
                proof {
                    assert(t =~= done);
                }
                break;
            },
        }
    }
    out
}

} // verus!
