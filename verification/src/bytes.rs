//! Byte-level helpers shared by the archive loader and the report codec.

use vstd::prelude::*;

verus! {

/// Copy a fixed-size byte array into a growable vector.
pub fn bytes_of<const N: usize>(a: [u8; N]) -> (v: Vec<u8>)
    ensures
        v@ == a@,
{
    let mut v: Vec<u8> = Vec::new();
    let mut i: usize = 0;
    while i < N
        invariant
            0 <= i <= N,
            v@ == a@.subrange(0, i as int),
        decreases N - i,
    {
        v.push(a[i]);
        proof {
            assert(v@ =~= a@.subrange(0, i + 1));
        }
        i = i + 1;
    }
    proof {
        assert(v@ =~= a@);
    }
    v
}

/// Copy a byte vector element by element.
pub fn clone_bytes(v: &Vec<u8>) -> (out: Vec<u8>)
    ensures
        out@ == v@,
{
    let mut out: Vec<u8> = Vec::new();
    let mut i: usize = 0;
    while i < v.len()
        invariant
            0 <= i <= v.len(),
            out@ == v@.subrange(0, i as int),
        decreases v.len() - i,
    {
        out.push(v[i]);
        proof {
            assert(out@ =~= v@.subrange(0, i + 1));
        }
        i = i + 1;
    }
    proof {
        assert(out@ =~= v@);
    }
    out
}

/// The 32-bit little-endian value stored at `s[i .. i + 4]`.
pub open spec fn le32_at(s: Seq<u8>, i: int) -> int {
    s[i] + 256 * (s[i + 1] + 256 * (s[i + 2] + 256 * s[i + 3]))
}

/// The four little-endian bytes of `n`.
pub open spec fn enc32(n: u32) -> Seq<u8> {
    seq![
        (n % 256) as u8,
        ((n / 256) % 256) as u8,
        ((n / 65536) % 256) as u8,
        ((n / 16777216) % 256) as u8,
    ]
}

/// Decoding the four little-endian bytes of `n` gives `n` back.
pub proof fn lemma_enc32_roundtrip(n: u32)
    ensures
        enc32(n).len() == 4,
        le32_at(enc32(n), 0) == n,
{
    assert(n % 256 + 256 * ((n / 256) % 256 + 256 * ((n / 65536) % 256 + 256 * ((n / 16777216)
        % 256))) == n) by (bit_vector);
}

/// Read the 32-bit little-endian value at `i`.
pub fn le32_read(v: &Vec<u8>, i: usize) -> (n: u32)
    requires
        i + 4 <= v@.len(),
    ensures
        n == le32_at(v@, i as int),
{
    // the exec length pins the vector's length into usize range
    let total = v.len();
    let b0 = v[i] as u32;
    let b1 = v[i + 1] as u32;
    let b2 = v[i + 2] as u32;
    let b3 = v[i + 3] as u32;
    b0 + 256 * (b1 + 256 * (b2 + 256 * b3))
}

/// Append the four little-endian bytes of `n`.
pub fn push_le32(out: &mut Vec<u8>, n: u32)
    ensures
        final(out)@ == old(out)@ + enc32(n),
{
    out.push((n % 256) as u8);
    out.push(((n / 256) % 256) as u8);
    out.push(((n / 65536) % 256) as u8);
    out.push(((n / 16777216) % 256) as u8);
    proof {
        assert(out@ =~= old(out)@ + enc32(n));
    }
}

/// Copy `v[a .. b]` into a fresh vector.
pub fn copy_range(v: &Vec<u8>, a: usize, b: usize) -> (out: Vec<u8>)
    requires
        a <= b <= v@.len(),
    ensures
        out@ == v@.subrange(a as int, b as int),
{
    let mut out: Vec<u8> = Vec::new();
    let mut i: usize = a;
    while i < b
        invariant
            a <= i <= b <= v@.len(),
            out@ == v@.subrange(a as int, i as int),
        decreases b - i,
    {
        out.push(v[i]);
        proof {
            assert(out@ =~= v@.subrange(a as int, i + 1));
        }
        i = i + 1;
    }
    out
}

/// Whether two byte vectors hold the same bytes.
pub fn bytes_eq(a: &Vec<u8>, b: &Vec<u8>) -> (r: bool)
    ensures
        r == (a@ == b@),
{
    if a.len() != b.len() {
        return false;
    }
    let mut i: usize = 0;
    while i < a.len()
        invariant
            0 <= i <= a@.len(),
            a@.len() == b@.len(),
            forall|j: int| 0 <= j < i ==> a@[j] == b@[j],
        decreases a.len() - i,
    {
        if a[i] != b[i] {
            return false;
        }
        i = i + 1;
    }
    proof {
        assert(a@ =~= b@);
    }
    true
}

/// The first index of `b` in `s` at or after `from`, or `s.len()` when
/// there is none.
pub open spec fn find_from(s: Seq<u8>, b: u8, from: int) -> int
    decreases s.len() - from,
{
    if from >= s.len() {
        s.len() as int
    } else if s[from] == b {
        from
    } else {
        find_from(s, b, from + 1)
    }
}

/// Skipping over positions that do not hold `b` leaves the result of the
/// search unchanged.
pub proof fn lemma_find_from_skip(s: Seq<u8>, b: u8, from: int, upto: int)
    requires
        0 <= from <= upto <= s.len(),
        forall|j: int| from <= j < upto ==> s[j] != b,
    ensures
        find_from(s, b, from) == find_from(s, b, upto),
    decreases upto - from,
{
    if from < upto {
        lemma_find_from_skip(s, b, from + 1, upto);
    }
}

/// Find the first occurrence of `b` in `v` at or after `from`.
pub fn find_byte(v: &Vec<u8>, b: u8, from: usize) -> (r: usize)
    requires
        from <= v@.len(),
    ensures
        r == find_from(v@, b, from as int),
        from <= r <= v@.len(),
        r < v@.len() ==> v@[r as int] == b,
    decreases v@.len() - from,
{
    let mut i: usize = from;
    while i < v.len()
        invariant
            from <= i <= v@.len(),
            forall|j: int| from <= j < i ==> v@[j] != b,
        decreases v.len() - i,
    {
        if v[i] == b {
            proof {
                lemma_find_from_skip(v@, b, from as int, i as int);
            }
            return i;
        }
        i = i + 1;
    }
    proof {
        lemma_find_from_skip(v@, b, from as int, v@.len() as int);
    }
    v.len()
}

/// An ASCII decimal digit.
pub open spec fn is_digit(b: u8) -> bool {
    48 <= b <= 57
}

/// A dotted version string: nonempty, digits and dots only, starting and
/// ending with a digit, with no two dots adjacent.  `"1"`, `"1.2"` and
/// `"10.2.3"` are versions; `""`, `".1"`, `"1..2"` and `"1.x"` are not.
pub open spec fn version_ok(s: Seq<u8>) -> bool {
    &&& s.len() > 0
    &&& forall|i: int| 0 <= i < s.len() ==> is_digit(#[trigger] s[i]) || s[i] == 46
    &&& is_digit(s[0])
    &&& is_digit(s[s.len() - 1])
    &&& forall|i: int| 1 <= i < s.len() ==> !(#[trigger] s[i] == 46 && s[i - 1] == 46)
}

/// Check the dotted version shape.
pub fn check_version(v: &Vec<u8>) -> (r: bool)
    ensures
        r == version_ok(v@),
{
    if v.len() == 0 {
        return false;
    }
    let first = v[0];
    if !(48 <= first && first <= 57) {
        return false;
    }
    let last = v[v.len() - 1];
    if !(48 <= last && last <= 57) {
        return false;
    }
    let mut i: usize = 0;
    while i < v.len()
        invariant
            0 <= i <= v@.len(),
            v@.len() > 0,
            forall|j: int| 0 <= j < i ==> is_digit(#[trigger] v@[j]) || v@[j] == 46,
            forall|j: int| 1 <= j < i ==> !(#[trigger] v@[j] == 46 && v@[j - 1] == 46),
        decreases v.len() - i,
    {
        let c = v[i];
        if !((48 <= c && c <= 57) || c == 46) {
            return false;
        }
        if i > 0 && c == 46 && v[i - 1] == 46 {
            return false;
        }
        i = i + 1;
    }
    true
}

} // verus!
