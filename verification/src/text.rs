//! Text building blocks: appending single characters, decimal renderings
//! of integers, and JSON string escaping.

use vstd::prelude::*;
use vstd::string::StrSliceExecFns;

verus! {

/// Relies on `String::push` of std: it appends the given character to the
/// end of the string.
pub assume_specification[ String::push ](s: &mut String, ch: char)
    ensures
        final(s)@ == old(s)@.push(ch),
;

/// The decimal digit character for `d`.
pub open spec fn digit_char(d: int) -> char
    recommends
        0 <= d < 10,
{
    (('0' as u8) + d) as u8 as char
}

/// The decimal rendering of a natural number, most significant digit
/// first, without sign and without leading zeros (except for zero itself).
pub open spec fn uint_text(n: nat) -> Seq<char>
    decreases n,
{
    if n < 10 {
        seq![digit_char(n as int)]
    } else {
        uint_text(n / 10).push(digit_char((n % 10) as int))
    }
}

/// The decimal rendering of an integer: a minus sign first when it is
/// negative.
pub open spec fn int_text(i: int) -> Seq<char> {
    if i >= 0 {
        uint_text(i as nat)
    } else {
        seq!['-'] + uint_text((-i) as nat)
    }
}

/// Append the decimal rendering of `n`.
pub fn push_uint(out: &mut String, n: u64)
    ensures
        final(out)@ == old(out)@ + uint_text(n as nat),
    decreases n,
{
    if n < 10 {
        out.push((('0' as u8) + (n as u8)) as char);
        proof {
            assert(old(out)@.push(digit_char(n as int)) =~= old(out)@ + uint_text(n as nat));
        }
    } else {
        push_uint(out, n / 10);
        let d = (n % 10) as u8;
        out.push((('0' as u8) + d) as char);
        proof {
            assert((old(out)@ + uint_text((n / 10) as nat)).push(digit_char((n % 10) as int))
                =~= old(out)@ + uint_text(n as nat));
        }
    }
}

/// Append the decimal rendering of `i`.
pub fn push_int(out: &mut String, i: i64)
    ensures
        final(out)@ == old(out)@ + int_text(i as int),
{
    if i >= 0 {
        push_uint(out, i as u64);
    } else {
        out.push('-');
        let mag: u64 = ((-(i as i128)) as u64);
        push_uint(out, mag);
        proof {
            assert(old(out)@.push('-') + uint_text((-(i as int)) as nat)
                =~= old(out)@ + int_text(i as int));
        }
    }
}

/// The lower-case hexadecimal digit character for `d`.
pub open spec fn hex_char(d: int) -> char
    recommends
        0 <= d < 16,
{
    if d < 10 {
        (('0' as u8) + d) as u8 as char
    } else {
        (('a' as u8) + (d - 10)) as u8 as char
    }
}

/// How one character is written inside a JSON string literal: quote and
/// backslash get a backslash, the five short control escapes are used
/// where they exist, any other control character is written `\u00xx`, and
/// everything else stands as itself.
pub open spec fn escape_char(c: char) -> Seq<char> {
    if c == '"' {
        seq!['\\', '"']
    } else if c == '\\' {
        seq!['\\', '\\']
    } else if c == '\u{8}' {
        seq!['\\', 'b']
    } else if c == '\u{c}' {
        seq!['\\', 'f']
    } else if c == '\n' {
        seq!['\\', 'n']
    } else if c == '\r' {
        seq!['\\', 'r']
    } else if c == '\t' {
        seq!['\\', 't']
    } else if (c as u32) < 0x20 {
        seq!['\\', 'u', '0', '0', hex_char((c as u32) as int / 16), hex_char((c as u32) as int % 16)]
    } else {
        seq![c]
    }
}

/// The body of a JSON string literal: each character escaped in turn.
pub open spec fn escaped_text(s: Seq<char>) -> Seq<char>
    decreases s.len(),
{
    if s.len() == 0 {
        Seq::<char>::empty()
    } else {
        escape_char(s[0]) + escaped_text(s.drop_first())
    }
}

/// A full JSON string literal: quotes around the escaped body.
pub open spec fn quoted_text(s: Seq<char>) -> Seq<char> {
    seq!['"'] + escaped_text(s) + seq!['"']
}

/// `escaped_text` distributes over splitting a sequence at `i`.
proof fn lemma_escaped_text_step(s: Seq<char>, i: int)
    requires
        0 <= i < s.len(),
    ensures
        escaped_text(s.take(i)) + escape_char(s[i]) == escaped_text(s.take(i + 1)),
    decreases i,
{
    if i == 0 {
        assert(s.take(1).drop_first() =~= Seq::<char>::empty());
        assert(s.take(0) =~= Seq::<char>::empty());
        assert(escaped_text(s.take(0)) + escape_char(s[0]) =~= escape_char(s[0]) + escaped_text(
            s.take(1).drop_first(),
        ));
    } else {
        lemma_escaped_text_step(s.drop_first(), i - 1);
        assert(s.take(i).drop_first() =~= s.drop_first().take(i - 1));
        assert(s.take(i + 1).drop_first() =~= s.drop_first().take(i));
        assert(escaped_text(s.take(i)) + escape_char(s[i]) =~= escape_char(s[0]) + (escaped_text(
            s.drop_first().take(i - 1),
        ) + escape_char(s.drop_first()[i - 1])));
    }
}

/// Append one character in its JSON-escaped form.
fn push_escaped_char(out: &mut String, c: char)
    ensures
        final(out)@ == old(out)@ + escape_char(c),
{
    if c == '"' {
        out.push('\\');
        out.push('"');
    } else if c == '\\' {
        out.push('\\');
        out.push('\\');
    } else if c == '\u{8}' {
        out.push('\\');
        out.push('b');
    } else if c == '\u{c}' {
        out.push('\\');
        out.push('f');
    } else if c == '\n' {
        out.push('\\');
        out.push('n');
    } else if c == '\r' {
        out.push('\\');
        out.push('r');
    } else if c == '\t' {
        out.push('\\');
        out.push('t');
    } else if (c as u32) < 0x20 {
        out.push('\\');
        out.push('u');
        out.push('0');
        out.push('0');
        let hi = ((c as u32) / 16) as u8;
        let lo = ((c as u32) % 16) as u8;
        out.push(hex_digit(hi));
        out.push(hex_digit(lo));
    } else {
        out.push(c);
    }
    proof {
        assert(out@ =~= old(out)@ + escape_char(c));
    }
}

/// The lower-case hexadecimal digit character for `d`.
fn hex_digit(d: u8) -> (c: char)
    requires
        d < 16,
    ensures
        c == hex_char(d as int),
{
    if d < 10 {
        (('0' as u8) + d) as char
    } else {
        (('a' as u8) + (d - 10)) as char
    }
}

/// Append `s` as a JSON string literal, quotes and escapes included.
pub fn push_quoted(out: &mut String, s: &str)
    ensures
        final(out)@ == old(out)@ + quoted_text(s@),
{
    out.push('"');
    let n = s.unicode_len();
    proof {
        assert(s@.take(0) =~= Seq::<char>::empty());
        assert(out@ =~= old(out)@.push('"') + escaped_text(s@.take(0)));
    }
    for i in 0..n
        invariant
            n == s@.len(),
            out@ == old(out)@.push('"') + escaped_text(s@.take(i as int)),
    {
        let c = s.get_char(i);
        push_escaped_char(out, c);
        proof {
            lemma_escaped_text_step(s@, i as int);
            assert((old(out)@.push('"') + escaped_text(s@.take(i as int))) + escape_char(
                s@[i as int],
            ) =~= old(out)@.push('"') + escaped_text(s@.take(i as int + 1)));
        }
    }
    out.push('"');
    proof {
        assert(s@.take(n as int) =~= s@);
        assert(old(out)@.push('"') + escaped_text(s@) + seq!['"'] =~= old(out)@ + quoted_text(s@));
    }
}

} // verus!
