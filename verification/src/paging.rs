//! The paging-state codec: opaque continuation bytes from the database,
//! carried on the wire as standard base64 without padding.
//!
//! The token itself is never inspected.  Decoding is strict: a string
//! that is not canonical unpadded base64 (a stray character, a length of
//! one more than a multiple of four, or nonzero trailing bits) decodes to
//! the empty token, which reads as "no continuation".

use vstd::prelude::*;
use vstd::string::StrSliceExecFns;

verus! {

/// The character of the standard base64 alphabet for a sextet.
pub open spec fn b64_char_of(x: int) -> char
    recommends
        0 <= x < 64,
{
    if x < 26 {
        ((('A' as u8) + x) as u8) as char
    } else if x < 52 {
        ((('a' as u8) + (x - 26)) as u8) as char
    } else if x < 62 {
        ((('0' as u8) + (x - 52)) as u8) as char
    } else if x == 62 {
        '+'
    } else {
        '/'
    }
}

/// The sextet value of a character; 64 marks one outside the alphabet.
pub open spec fn b64_val_of(c: char) -> int {
    let x = c as u32;
    if 65 <= x && x <= 90 {
        x - 65
    } else if 97 <= x && x <= 122 {
        x - 97 + 26
    } else if 48 <= x && x <= 57 {
        x - 48 + 52
    } else if x == 43 {
        62
    } else if x == 47 {
        63
    } else {
        64
    }
}

/// The unpadded base64 writing of a byte sequence.
pub open spec fn b64_encode_spec(bytes: Seq<u8>) -> Seq<char>
    decreases bytes.len(),
{
    if bytes.len() == 0 {
        Seq::<char>::empty()
    } else if bytes.len() == 1 {
        let b0 = bytes[0] as int;
        seq![b64_char_of(b0 / 4), b64_char_of((b0 % 4) * 16)]
    } else if bytes.len() == 2 {
        let b0 = bytes[0] as int;
        let b1 = bytes[1] as int;
        seq![
            b64_char_of(b0 / 4),
            b64_char_of((b0 % 4) * 16 + b1 / 16),
            b64_char_of((b1 % 16) * 4),
        ]
    } else {
        let b0 = bytes[0] as int;
        let b1 = bytes[1] as int;
        let b2 = bytes[2] as int;
        seq![
            b64_char_of(b0 / 4),
            b64_char_of((b0 % 4) * 16 + b1 / 16),
            b64_char_of((b1 % 16) * 4 + b2 / 64),
            b64_char_of(b2 % 64),
        ] + b64_encode_spec(bytes.skip(3))
    }
}

/// The strict reading of unpadded base64: the bytes, or nothing when the
/// input is not a canonical writing.
pub open spec fn b64_decode_spec(s: Seq<char>) -> Option<Seq<u8>>
    decreases s.len(),
{
    if s.len() == 0 {
        Some(Seq::<u8>::empty())
    } else if s.len() == 1 {
        None::<Seq<u8>>
    } else if s.len() == 2 {
        let v0 = b64_val_of(s[0]);
        let v1 = b64_val_of(s[1]);
        if v0 < 64 && v1 < 64 && v1 % 16 == 0 {
            Some(seq![(v0 * 4 + v1 / 16) as u8])
        } else {
            None::<Seq<u8>>
        }
    } else if s.len() == 3 {
        let v0 = b64_val_of(s[0]);
        let v1 = b64_val_of(s[1]);
        let v2 = b64_val_of(s[2]);
        if v0 < 64 && v1 < 64 && v2 < 64 && v2 % 4 == 0 {
            Some(seq![(v0 * 4 + v1 / 16) as u8, ((v1 % 16) * 16 + v2 / 4) as u8])
        } else {
            None::<Seq<u8>>
        }
    } else {
        let v0 = b64_val_of(s[0]);
        let v1 = b64_val_of(s[1]);
        let v2 = b64_val_of(s[2]);
        let v3 = b64_val_of(s[3]);
        if v0 < 64 && v1 < 64 && v2 < 64 && v3 < 64 {
            match b64_decode_spec(s.skip(4)) {
                Some(rest) => Some(
                    seq![
                        (v0 * 4 + v1 / 16) as u8,
                        ((v1 % 16) * 16 + v2 / 4) as u8,
                        ((v2 % 4) * 64 + v3) as u8,
                    ] + rest,
                ),
                None => None::<Seq<u8>>,
            }
        } else {
            None::<Seq<u8>>
        }
    }
}

/// Reading the alphabet back gives the sextet that was written.
proof fn lemma_b64_char_val(x: int)
    requires
        0 <= x < 64,
    ensures
        b64_val_of(b64_char_of(x)) == x,
{
}

/// Decoding an encoding yields the bytes that were encoded: the codec
/// round-trips on every token, the empty one included.
pub proof fn lemma_b64_round_trip(bytes: Seq<u8>)
    ensures
        b64_decode_spec(b64_encode_spec(bytes)) == Some(bytes),
    decreases bytes.len(),
{
    let s = b64_encode_spec(bytes);
    if bytes.len() == 0 {
        assert(s.len() == 0);
        assert(b64_decode_spec(s) == Some(bytes)) by {
            assert(Seq::<u8>::empty() =~= bytes);
        }
    } else if bytes.len() == 1 {
        let b0 = bytes[0] as int;
        lemma_b64_char_val(b0 / 4);
        lemma_b64_char_val((b0 % 4) * 16);
        assert(((b0 / 4) * 4 + ((b0 % 4) * 16) / 16) == b0);
        assert(b64_decode_spec(s)->Some_0 =~= bytes);
    } else if bytes.len() == 2 {
        let b0 = bytes[0] as int;
        let b1 = bytes[1] as int;
        lemma_b64_char_val(b0 / 4);
        lemma_b64_char_val((b0 % 4) * 16 + b1 / 16);
        lemma_b64_char_val((b1 % 16) * 4);
        assert(((b0 / 4) * 4 + ((b0 % 4) * 16 + b1 / 16) / 16) == b0);
        assert((((b0 % 4) * 16 + b1 / 16) % 16) * 16 + ((b1 % 16) * 4) / 4 == b1);
        assert(b64_decode_spec(s)->Some_0 =~= bytes);
    } else {
        let b0 = bytes[0] as int;
        let b1 = bytes[1] as int;
        let b2 = bytes[2] as int;
        lemma_b64_char_val(b0 / 4);
        lemma_b64_char_val((b0 % 4) * 16 + b1 / 16);
        lemma_b64_char_val((b1 % 16) * 4 + b2 / 64);
        lemma_b64_char_val(b2 % 64);
        lemma_b64_round_trip(bytes.skip(3));
        assert(s.skip(4) =~= b64_encode_spec(bytes.skip(3)));
        let v0 = b64_val_of(s[0]);
        let v1 = b64_val_of(s[1]);
        let v2 = b64_val_of(s[2]);
        let v3 = b64_val_of(s[3]);
        assert(v0 * 4 + v1 / 16 == b0);
        assert((v1 % 16) * 16 + v2 / 4 == b1);
        assert((v2 % 4) * 64 + v3 == b2);
        assert(seq![
            (v0 * 4 + v1 / 16) as u8,
            ((v1 % 16) * 16 + v2 / 4) as u8,
            ((v2 % 4) * 64 + v3) as u8,
        ] + bytes.skip(3) =~= bytes);
    }
}

/// The empty token and the empty string stand for each other: writing no
/// bytes gives the empty string, and reading the empty string gives no
/// bytes.
pub proof fn lemma_paging_empty()
    ensures
        b64_encode_spec(Seq::<u8>::empty()) == Seq::<char>::empty(),
        b64_decode_spec(Seq::<char>::empty()) == Some(Seq::<u8>::empty()),
{
}

/// The sextet character, in executable form.
fn b64_char(x: u8) -> (c: char)
    requires
        x < 64,
    ensures
        c == b64_char_of(x as int),
{
    if x < 26 {
        (('A' as u8) + x) as char
    } else if x < 52 {
        (('a' as u8) + (x - 26)) as char
    } else if x < 62 {
        (('0' as u8) + (x - 52)) as char
    } else if x == 62 {
        '+'
    } else {
        '/'
    }
}

/// The sextet value of a character, in executable form; 64 for one
/// outside the alphabet.
fn b64_val(c: char) -> (x: u8)
    ensures
        x as int == b64_val_of(c),
{
    let u = c as u32;
    if 65 <= u && u <= 90 {
        (u - 65) as u8
    } else if 97 <= u && u <= 122 {
        (u - 97 + 26) as u8
    } else if 48 <= u && u <= 57 {
        (u - 48 + 52) as u8
    } else if u == 43 {
        62
    } else if u == 47 {
        63
    } else {
        64
    }
}

/// Write bytes as unpadded base64.
#[verifier::loop_isolation(false)]
pub fn b64_encode(bytes: &Vec<u8>) -> (r: String)
    ensures
        r@ == b64_encode_spec(bytes@),
{
    let mut out = String::new();
    let n = bytes.len();
    let mut i: usize = 0;
    proof {
        assert(bytes@.skip(0) =~= bytes@);
        assert(out@ + b64_encode_spec(bytes@) =~= b64_encode_spec(bytes@));
    }
    while n - i >= 3
        invariant
            i <= n,
            out@ + b64_encode_spec(bytes@.skip(i as int)) == b64_encode_spec(bytes@),
        decreases n - i,
    {
        let ghost out0 = out@;
        let b0 = bytes[i];
        let b1 = bytes[i + 1];
        let b2 = bytes[i + 2];
        out.push(b64_char(b0 / 4));
        out.push(b64_char((b0 % 4) * 16 + b1 / 16));
        out.push(b64_char((b1 % 16) * 4 + b2 / 64));
        out.push(b64_char(b2 % 64));
        proof {
            assert(bytes@.skip(i as int).skip(3) =~= bytes@.skip(i as int + 3));
            assert(out@ + b64_encode_spec(bytes@.skip(i as int + 3)) =~= out0 + b64_encode_spec(
                bytes@.skip(i as int),
            ));
        }
        i = i + 3;
    }
    let ghost out0 = out@;
    if n - i == 1 {
        let b0 = bytes[i];
        out.push(b64_char(b0 / 4));
        out.push(b64_char((b0 % 4) * 16));
        proof {
            assert(out@ =~= out0 + b64_encode_spec(bytes@.skip(i as int)));
        }
    } else if n - i == 2 {
        let b0 = bytes[i];
        let b1 = bytes[i + 1];
        out.push(b64_char(b0 / 4));
        out.push(b64_char((b0 % 4) * 16 + b1 / 16));
        out.push(b64_char((b1 % 16) * 4));
        proof {
            assert(out@ =~= out0 + b64_encode_spec(bytes@.skip(i as int)));
        }
    } else {
        proof {
            assert(bytes@.skip(i as int) =~= Seq::<u8>::empty());
            assert(out@ =~= out0 + b64_encode_spec(bytes@.skip(i as int)));
        }
    }
    out
}

/// Read unpadded base64 strictly; anything else reads as the empty token.
#[verifier::loop_isolation(false)]
pub fn b64_decode(s: &str) -> (r: Vec<u8>)
    ensures
        r@ == (match b64_decode_spec(s@) {
            Some(b) => b,
            None => Seq::<u8>::empty(),
        }),
{
    let mut out: Vec<u8> = Vec::new();
    let n = s.unicode_len();
    let mut i: usize = 0;
    proof {
        assert(s@.skip(0) =~= s@);
        if b64_decode_spec(s@) is Some {
            assert(out@ + b64_decode_spec(s@)->Some_0 =~= b64_decode_spec(s@)->Some_0);
        }
    }
    while n - i >= 4
        invariant
            i <= n,
            b64_decode_spec(s@) == (match b64_decode_spec(s@.skip(i as int)) {
                Some(rest) => Some(out@ + rest),
                None => None::<Seq<u8>>,
            }),
        decreases n - i,
    {
        let ghost out0 = out@;
        let v0 = b64_val(s.get_char(i));
        let v1 = b64_val(s.get_char(i + 1));
        let v2 = b64_val(s.get_char(i + 2));
        let v3 = b64_val(s.get_char(i + 3));
        if v0 >= 64 || v1 >= 64 || v2 >= 64 || v3 >= 64 {
            return Vec::new();
        }
        out.push(v0 * 4 + v1 / 16);
        out.push((v1 % 16) * 16 + v2 / 4);
        out.push((v2 % 4) * 64 + v3);
        proof {
            assert(s@.skip(i as int).skip(4) =~= s@.skip(i as int + 4));
            if b64_decode_spec(s@.skip(i as int + 4)) is Some {
                assert(out0 + b64_decode_spec(s@.skip(i as int))->Some_0 =~= out@
                    + b64_decode_spec(s@.skip(i as int + 4))->Some_0);
            }
        }
        i = i + 4;
    }
    let ghost out0 = out@;
    if n - i == 0 {
        proof {
            assert(s@.skip(i as int) =~= Seq::<char>::empty());
            assert(out@ + b64_decode_spec(s@.skip(i as int))->Some_0 =~= out@);
        }
        out
    } else if n - i == 2 {
        let v0 = b64_val(s.get_char(i));
        let v1 = b64_val(s.get_char(i + 1));
        if v0 < 64 && v1 < 64 && v1 % 16 == 0 {
            out.push(v0 * 4 + v1 / 16);
            proof {
                assert(out0 + b64_decode_spec(s@.skip(i as int))->Some_0 =~= out@);
            }
            out
        } else {
            Vec::new()
        }
    } else if n - i == 3 {
        let v0 = b64_val(s.get_char(i));
        let v1 = b64_val(s.get_char(i + 1));
        let v2 = b64_val(s.get_char(i + 2));
        if v0 < 64 && v1 < 64 && v2 < 64 && v2 % 4 == 0 {
            out.push(v0 * 4 + v1 / 16);
            out.push((v1 % 16) * 16 + v2 / 4);
            proof {
                assert(out0 + b64_decode_spec(s@.skip(i as int))->Some_0 =~= out@);
            }
            out
        } else {
            Vec::new()
        }
    } else {
        Vec::new()
    }
}

} // verus!
