//! UTF-16 text handling for the wide-character strings that the native
//! enumeration and configuration calls hand back.
use vstd::prelude::*;
use vstd::utf8::is_scalar;
use vstd::utf8::char_u32_cast;
use vstd::std_specs::iter::IteratorSpec;

verus! {

pub open spec fn is_high_surrogate(w: u16) -> bool {
    0xD800 <= w && w < 0xDC00
}

pub open spec fn is_low_surrogate(w: u16) -> bool {
    0xDC00 <= w && w < 0xE000
}

pub open spec fn is_bmp(w: u16) -> bool {
    !is_high_surrogate(w) && !is_low_surrogate(w)
}

/// The Unicode scalar value that a surrogate pair stands for.
pub open spec fn pair_scalar(h: u16, l: u16) -> u32 {
    (0x10000 + (h as int - 0xD800) * 0x400 + (l as int - 0xDC00)) as u32
}

/// A word sequence is well-formed UTF-16 when every high surrogate is
/// followed by a low surrogate and no surrogate stands alone.
pub open spec fn utf16_well_formed(ws: Seq<u16>) -> bool
    decreases ws.len(),
{
    if ws.len() == 0 {
        true
    } else if is_bmp(ws[0]) {
        utf16_well_formed(ws.skip(1))
    } else if is_high_surrogate(ws[0]) && ws.len() >= 2 && is_low_surrogate(ws[1]) {
        utf16_well_formed(ws.skip(2))
    } else {
        false
    }
}

/// Lossy decoding: a basic-plane word is its own character, a surrogate
/// pair is its scalar, and a stray surrogate becomes the replacement
/// character.  On well-formed input this is exact decoding.
pub open spec fn utf16_decode(ws: Seq<u16>) -> Seq<char>
    decreases ws.len(),
{
    if ws.len() == 0 {
        Seq::empty()
    } else if is_bmp(ws[0]) {
        seq![(ws[0] as u32) as char] + utf16_decode(ws.skip(1))
    } else if is_high_surrogate(ws[0]) && ws.len() >= 2 && is_low_surrogate(ws[1]) {
        seq![pair_scalar(ws[0], ws[1]) as char] + utf16_decode(ws.skip(2))
    } else {
        seq!['\u{FFFD}'] + utf16_decode(ws.skip(1))
    }
}

/// Relies on char::from_u32: returns Some exactly for Unicode scalar
/// values and preserves the numeric value of the character.
#[verifier::external_body]
fn char_from_u32(v: u32) -> (r: Option<char>)
    ensures
        r is Some <==> is_scalar(v),
        r matches Some(c) ==> c as u32 == v,
{
    char::from_u32(v)
}

/// Relies on String::push: appends exactly the given character.
#[verifier::external_body]
pub(crate) fn push_char(s: &mut String, c: char)
    ensures
        final(s)@ == old(s)@.push(c),
{
    s.push(c);
}

/// Decodes a wide-character buffer, reporting both the (lossy) text and
/// whether the input was well-formed UTF-16.
pub fn decode_utf16(ws: &[u16]) -> (r: (String, bool))
    ensures
        r.0@ == utf16_decode(ws@),
        r.1 == utf16_well_formed(ws@),
{
    let mut out = String::new();
    let mut ok = true;
    let mut i: usize = 0;
    proof {
        assert(ws@.skip(0) =~= ws@);
    }
    while i < ws.len()
        invariant
            0 <= i <= ws@.len(),
            utf16_decode(ws@) == out@ + utf16_decode(ws@.skip(i as int)),
            utf16_well_formed(ws@) == (ok && utf16_well_formed(ws@.skip(i as int))),
        decreases ws@.len() - i,
    {
        let ghost rest = ws@.skip(i as int);
        let w = ws[i];
        proof {
            assert(rest[0] == ws@[i as int]);
        }
        if !(0xD800 <= w && w < 0xE000) {
            // Basic-plane word.
            let c = char_from_u32(w as u32).unwrap();
            push_char(&mut out, c);
            proof {
                char_u32_cast(c, w as u32);
                assert(rest.skip(1) =~= ws@.skip(i as int + 1));
                assert(out@ + utf16_decode(ws@.skip(i as int + 1)) =~= utf16_decode(ws@));
            }
            i = i + 1;
        } else if w < 0xDC00 && i + 1 < ws.len() && 0xDC00 <= ws[i + 1] && ws[i + 1] < 0xE000 {
            // Surrogate pair.
            let l = ws[i + 1];
            let v: u32 = 0x10000 + ((w - 0xD800) as u32) * 0x400 + ((l - 0xDC00) as u32);
            proof {
                assert(rest.len() >= 2 && rest[1] == ws@[i as int + 1]);
                assert(v == pair_scalar(w, l));
                assert(is_scalar(v));
            }
            let c = char_from_u32(v).unwrap();
            push_char(&mut out, c);
            proof {
                char_u32_cast(c, v);
                assert(rest.skip(2) =~= ws@.skip(i as int + 2));
                assert(out@ + utf16_decode(ws@.skip(i as int + 2)) =~= utf16_decode(ws@));
            }
            i = i + 2;
        } else {
            // Stray surrogate.
            push_char(&mut out, '\u{FFFD}');
            ok = false;
            proof {
                assert(rest.skip(1) =~= ws@.skip(i as int + 1));
                assert(out@ + utf16_decode(ws@.skip(i as int + 1)) =~= utf16_decode(ws@));
            }
            i = i + 1;
        }
    }
    proof {
        assert(ws@.skip(ws@.len() as int) =~= Seq::<u16>::empty());
        assert(out@ =~= utf16_decode(ws@));
    }
    (out, ok)
}

/// Strict decoding: the exact text when the input is well-formed, None
/// otherwise.
pub fn decode_utf16_strict(ws: &[u16]) -> (r: Option<String>)
    ensures
        r is Some <==> utf16_well_formed(ws@),
        r matches Some(s) ==> s@ == utf16_decode(ws@),
{
    let (s, ok) = decode_utf16(ws);
    if ok {
        Some(s)
    } else {
        None
    }
}

/// The words with every trailing zero word removed.
pub open spec fn strip_trailing_zeros(ws: Seq<u16>) -> Seq<u16>
    decreases ws.len(),
{
    if ws.len() > 0 && ws[ws.len() - 1] == 0 {
        strip_trailing_zeros(ws.take(ws.len() - 1))
    } else {
        ws
    }
}

/// Removes the trailing zero terminators that fixed-size native string
/// fields carry.
pub fn strip_zero_terminators(ws: &mut Vec<u16>)
    ensures
        final(ws)@ == strip_trailing_zeros(old(ws)@),
{
    while ws.len() > 0 && ws[ws.len() - 1] == 0
        invariant
            strip_trailing_zeros(ws@) == strip_trailing_zeros(old(ws)@),
        decreases ws@.len(),
    {
        let ghost before = ws@;
        ws.pop();
        proof {
            assert(ws@ =~= before.take(before.len() - 1));
        }
    }
}

/// The 16-bit words stored in a little-endian byte buffer; a trailing odd
/// byte is dropped.
pub open spec fn words_of_bytes(bs: Seq<u8>) -> Seq<u16> {
    Seq::new(bs.len() / 2, |i: int| (bs[2 * i] + bs[2 * i + 1] * 0x100) as u16)
}

/// Reassembles the 16-bit words of a little-endian byte buffer.
pub fn bytes_to_words(bs: &[u8]) -> (r: Vec<u16>)
    ensures
        r@ == words_of_bytes(bs@),
{
    let mut out: Vec<u16> = Vec::new();
    let n = bs.len() / 2;
    let mut i: usize = 0;
    while i < n
        invariant
            0 <= i <= n,
            n == bs@.len() / 2,
            bs@.len() <= usize::MAX,
            out@.len() == i,
            forall|j: int| 0 <= j < i ==> out@[j] == words_of_bytes(bs@)[j],
        decreases n - i,
    {
        proof {
            assert(2 * (bs@.len() / 2) <= bs@.len());
        }
        let w: u16 = bs[2 * i] as u16 + (bs[2 * i + 1] as u16) * 0x100;
        out.push(w);
        i = i + 1;
    }
    proof {
        assert(out@ =~= words_of_bytes(bs@));
    }
    out
}

/// The UTF-16 encoding of one character.
pub open spec fn encoded_char(c: char) -> Seq<u16> {
    let v = c as u32;
    if v < 0x10000 {
        seq![v as u16]
    } else {
        seq![
            (0xD800 + (v - 0x10000) / 0x400) as u16,
            (0xDC00 + (v - 0x10000) % 0x400) as u16,
        ]
    }
}

/// The UTF-16 encoding of a character sequence.
pub open spec fn utf16_encode(cs: Seq<char>) -> Seq<u16>
    decreases cs.len(),
{
    if cs.len() == 0 {
        Seq::empty()
    } else {
        encoded_char(cs[0]) + utf16_encode(cs.skip(1))
    }
}

/// Encodes text into the zero-terminated wide-character form that the
/// native calls take.
pub fn utf16_str(text: &str) -> (r: Vec<u16>)
    ensures
        r@ == utf16_encode(text@) + seq![0u16],
{
    broadcast use vstd::string::next_postcondition;
    broadcast use vstd::string::axiom_spec_iter;

    let mut out: Vec<u16> = Vec::new();
    let mut it = text.chars();
    loop
        invariant
            IteratorSpec::obeys_prophetic_iter_laws(&it),
            IteratorSpec::decrease(&it) is Some,
            out@ + utf16_encode(IteratorSpec::remaining(&it)) == utf16_encode(text@),
        decreases IteratorSpec::decrease(&it)->0,
    {
        let ghost rem = IteratorSpec::remaining(&it);
        match it.next() {
            Some(c) => {
                proof {
                    assert(rem.len() > 0);
                    assert(c == rem[0]);
                    assert(IteratorSpec::remaining(&it) == rem.drop_first());
                    assert(rem.drop_first() =~= rem.skip(1));
                    vstd::utf8::char_is_scalar(c);
                }
                let v: u32 = c as u32;
                if v < 0x10000 {
                    out.push(v as u16);
                    proof {
                        assert(out@ =~= out@.take(out@.len() - 1) + encoded_char(c));
                        assert(out@ + utf16_encode(rem.skip(1)) =~= utf16_encode(text@));
                    }
                } else {
                    let high: u16 = (0xD800 + (v - 0x10000) / 0x400) as u16;
                    let low: u16 = (0xDC00 + (v - 0x10000) % 0x400) as u16;
                    let ghost before = out@;
                    out.push(high);
                    out.push(low);
                    proof {
                        assert((v - 0x10000) / 0x400 < 0x400);
                        assert(out@ =~= before + encoded_char(c));
                        assert(out@ + utf16_encode(rem.skip(1)) =~= utf16_encode(text@));
                    }
                }
            },
            None => {
                proof {
                    assert(rem.len() == 0);
                    assert(utf16_encode(rem) =~= Seq::<u16>::empty());
                }
                out.push(0u16);
                proof {
                    assert(out@ =~= utf16_encode(text@) + seq![0u16]);
                }
                return out;
            },
        }
    }
}

} // verus!
