//! Canonical security identifiers: a size-checked parse of the raw
//! identifier structure that the native account and session records carry.
//!
//! The raw layout is: one revision byte, one subauthority-count byte, a
//! 48-bit big-endian authority, then the subauthorities as 32-bit
//! little-endian words.  A structure is accepted only when the revision is
//! the single defined one, the count is within the documented maximum, and
//! the length matches the count exactly; everything else is a parse
//! failure, never a partial value.
use vstd::prelude::*;

use crate::utf16::push_char;

verus! {

/// The character of one decimal digit.
pub open spec fn digit_char(d: int) -> char {
    ((48 + d) as u8) as char
}

/// The decimal rendering of a number, most significant digit first, with
/// no leading zeros (zero itself is "0").
pub open spec fn dec_rep(n: int) -> Seq<char>
    decreases n,
{
    if n < 10 {
        seq![digit_char(n)]
    } else {
        dec_rep(n / 10) + seq![digit_char(n % 10)]
    }
}

/// The digit characters of a digit stack, read from the top down.
spec fn chars_of_rev(ds: Seq<u8>) -> Seq<char>
    decreases ds.len(),
{
    if ds.len() == 0 {
        Seq::empty()
    } else {
        seq![digit_char(ds.last() as int)] + chars_of_rev(ds.drop_last())
    }
}

/// Appends the decimal rendering of a number.
fn push_u64_dec(s: &mut String, n: u64)
    ensures
        final(s)@ == old(s)@ + dec_rep(n as int),
{
    let mut stack: Vec<u8> = Vec::new();
    let mut m: u64 = n;
    while m >= 10
        invariant
            dec_rep(n as int) == dec_rep(m as int) + chars_of_rev(stack@),
            forall|i: int| 0 <= i < stack@.len() ==> stack@[i] < 10,
        decreases m,
    {
        let ghost before = stack@;
        stack.push((m % 10) as u8);
        proof {
            assert(stack@.drop_last() =~= before);
            assert(chars_of_rev(stack@) =~= seq![digit_char(m as int % 10)] + chars_of_rev(
                before,
            ));
        }
        m = m / 10;
    }
    let ghost before = stack@;
    stack.push(m as u8);
    proof {
        assert(stack@.drop_last() =~= before);
        assert(chars_of_rev(stack@) =~= seq![digit_char(m as int)] + chars_of_rev(before));
        assert(dec_rep(m as int) == seq![digit_char(m as int)]);
        assert(dec_rep(n as int) == chars_of_rev(stack@));
    }
    let ghost full = stack@;
    let ghost start = s@;
    while stack.len() > 0
        invariant
            s@ + chars_of_rev(stack@) == start + chars_of_rev(full),
            forall|i: int| 0 <= i < stack@.len() ==> stack@[i] < 10,
        decreases stack@.len(),
    {
        let ghost cur = stack@;
        let d = match stack.pop() {
            Some(d) => d,
            None => vstd::pervasive::unreached(),
        };
        proof {
            assert(stack@ =~= cur.drop_last());
            assert(d == cur.last());
            assert(d < 10);
        }
        push_char(s, (48 + d) as char);
        proof {
            assert((48 + d) as char == digit_char(d as int));
            assert(s@ + chars_of_rev(stack@) =~= start + chars_of_rev(full));
        }
    }
    proof {
        assert(chars_of_rev(stack@) =~= Seq::<char>::empty());
        assert(s@ =~= start + dec_rep(n as int));
    }
}

/// The only defined revision of the identifier structure.
pub const SID_REVISION: u8 = 1;

/// The documented maximum number of subauthorities.
pub const SID_MAX_SUBAUTHORITIES: u8 = 15;

/// A validated identifier: normalized and comparable, stable across
/// account renames.
pub struct Sid {
    pub revision: u8,
    pub authority: u64,
    pub subauthorities: Vec<u32>,
}

/// The mathematical value of a [`Sid`].
#[verifier::ext_equal]
pub ghost struct SidV {
    pub revision: u8,
    pub authority: u64,
    pub subs: Seq<u32>,
}

impl View for Sid {
    type V = SidV;

    open spec fn view(&self) -> SidV {
        SidV { revision: self.revision, authority: self.authority, subs: self.subauthorities@ }
    }
}

/// Whether a raw byte sequence is a well-formed identifier structure.
pub open spec fn sid_bytes_valid(b: Seq<u8>) -> bool {
    &&& b.len() >= 8
    &&& b[0] == SID_REVISION
    &&& b[1] <= SID_MAX_SUBAUTHORITIES
    &&& b.len() == 8 + 4 * (b[1] as int)
}

/// The 48-bit big-endian authority stored at bytes 2 to 7.
pub open spec fn authority_of(b: Seq<u8>) -> u64 {
    (
        (b[2] as int) * 0x100_0000_0000
        + (b[3] as int) * 0x1_0000_0000
        + (b[4] as int) * 0x100_0000
        + (b[5] as int) * 0x1_0000
        + (b[6] as int) * 0x100
        + (b[7] as int)
    ) as u64
}

/// The i-th 32-bit little-endian subauthority.
pub open spec fn subauthority_of(b: Seq<u8>, i: int) -> u32 {
    (
        (b[8 + 4 * i] as int)
        + (b[9 + 4 * i] as int) * 0x100
        + (b[10 + 4 * i] as int) * 0x1_0000
        + (b[11 + 4 * i] as int) * 0x100_0000
    ) as u32
}

/// The dash-separated decimal renderings of the subauthorities.
pub open spec fn subs_rep(subs: Seq<u32>) -> Seq<char>
    decreases subs.len(),
{
    if subs.len() == 0 {
        Seq::empty()
    } else {
        seq!['-'] + dec_rep(subs[0] as int) + subs_rep(subs.skip(1))
    }
}

/// The canonical string form of an identifier.
pub open spec fn sid_string(v: SidV) -> Seq<char> {
    seq!['S', '-'] + dec_rep(v.revision as int) + seq!['-'] + dec_rep(v.authority as int)
        + subs_rep(v.subs)
}

/// What parsing a raw identifier yields: the validated value, or nothing
/// for a malformed structure.
pub open spec fn sid_parse(b: Seq<u8>) -> Option<SidV> {
    if sid_bytes_valid(b) {
        Some(
            SidV {
                revision: b[0],
                authority: authority_of(b),
                subs: Seq::new(b[1] as nat, |i: int| subauthority_of(b, i)),
            },
        )
    } else {
        None
    }
}

impl Sid {
    /// Parses a raw identifier structure; a malformed or unsupported
    /// structure is rejected whole.
    pub fn from_bytes(b: &[u8]) -> (r: Option<Sid>)
        ensures
            r is Some <==> sid_bytes_valid(b@),
            r matches Some(s) ==> Some(s@) == sid_parse(b@),
    {
        if b.len() < 8 {
            return None;
        }
        if b[0] != SID_REVISION {
            return None;
        }
        let count = b[1];
        if count > SID_MAX_SUBAUTHORITIES {
            return None;
        }
        if b.len() != 8 + 4 * (count as usize) {
            return None;
        }
        let authority: u64 = (b[2] as u64) * 0x100_0000_0000
            + (b[3] as u64) * 0x1_0000_0000
            + (b[4] as u64) * 0x100_0000
            + (b[5] as u64) * 0x1_0000
            + (b[6] as u64) * 0x100
            + (b[7] as u64);
        let mut subs: Vec<u32> = Vec::new();
        let mut i: usize = 0;
        while i < count as usize
            invariant
                0 <= i <= count,
                b@.len() == 8 + 4 * (count as int),
                subs@.len() == i,
                forall|j: int| 0 <= j < i ==> subs@[j] == subauthority_of(b@, j),
            decreases count as int - i,
        {
            let base: usize = 8 + 4 * i;
            let s: u32 = (b[base] as u32)
                + (b[base + 1] as u32) * 0x100
                + (b[base + 2] as u32) * 0x1_0000
                + (b[base + 3] as u32) * 0x100_0000;
            subs.push(s);
            i = i + 1;
        }
        let sid = Sid { revision: SID_REVISION, authority, subauthorities: subs };
        proof {
            assert(sid@.subs =~= sid_parse(b@)->0.subs);
            assert(sid@ =~= sid_parse(b@)->0);
        }
        Some(sid)
    }

    /// Whether two identifiers are the same canonical identifier.
    pub fn same_as(&self, other: &Sid) -> (r: bool)
        ensures
            r == (self@ == other@),
    {
        if self.revision != other.revision || self.authority != other.authority {
            return false;
        }
        if self.subauthorities.len() != other.subauthorities.len() {
            proof {
                assert(self@.subs.len() != other@.subs.len());
            }
            return false;
        }
        let n = self.subauthorities.len();
        let mut i: usize = 0;
        while i < n
            invariant
                0 <= i <= n,
                n == self@.subs.len() && n == other@.subs.len(),
                forall|j: int| 0 <= j < i ==> self@.subs[j] == other@.subs[j],
            decreases n - i,
        {
            if self.subauthorities[i] != other.subauthorities[i] {
                return false;
            }
            i = i + 1;
        }
        proof {
            assert(self@.subs =~= other@.subs);
            assert(self@ =~= other@);
        }
        true
    }

    /// The canonical string form of the identifier: an S, the revision
    /// and the authority, then every subauthority, all in decimal and
    /// separated by dashes.
    pub fn to_string_sid(&self) -> (r: String)
        ensures
            r@ == sid_string(self@),
    {
        let mut s = String::new();
        push_char(&mut s, 'S');
        push_char(&mut s, '-');
        push_u64_dec(&mut s, self.revision as u64);
        push_char(&mut s, '-');
        push_u64_dec(&mut s, self.authority);
        proof {
            assert(self@.subs.skip(0) =~= self@.subs);
            assert(s@ + subs_rep(self@.subs) =~= sid_string(self@));
        }
        let n = self.subauthorities.len();
        let mut i: usize = 0;
        while i < n
            invariant
                0 <= i <= n,
                n == self@.subs.len(),
                s@ + subs_rep(self@.subs.skip(i as int)) == sid_string(self@),
            decreases n - i,
        {
            let ghost rest = self@.subs.skip(i as int);
            proof {
                assert(rest[0] == self@.subs[i as int]);
                assert(rest.skip(1) =~= self@.subs.skip(i as int + 1));
            }
            push_char(&mut s, '-');
            push_u64_dec(&mut s, self.subauthorities[i] as u64);
            proof {
                assert(s@ + subs_rep(self@.subs.skip(i as int + 1)) =~= sid_string(self@));
            }
            i = i + 1;
        }
        proof {
            assert(self@.subs.skip(n as int) =~= Seq::<u32>::empty());
            assert(s@ =~= sid_string(self@));
        }
        s
    }

    /// A copy of this identifier.
    pub fn duplicate(&self) -> (r: Sid)
        ensures
            r@ == self@,
    {
        let mut subs: Vec<u32> = Vec::new();
        let n = self.subauthorities.len();
        let mut i: usize = 0;
        while i < n
            invariant
                0 <= i <= n,
                n == self@.subs.len(),
                subs@.len() == i,
                forall|j: int| 0 <= j < i ==> subs@[j] == self@.subs[j],
            decreases n - i,
        {
            subs.push(self.subauthorities[i]);
            i = i + 1;
        }
        let r = Sid { revision: self.revision, authority: self.authority, subauthorities: subs };
        proof {
            assert(r@.subs =~= self@.subs);
            assert(r@ =~= self@);
        }
        r
    }
}

} // verus!
