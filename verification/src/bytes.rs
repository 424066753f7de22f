//! Byte strings: comparison, order and fixed-width big-endian numbers.

use vstd::prelude::*;

verus! {

/// Whether `a` comes before `b` in the lexicographic order of byte strings,
/// looking at both from index `i` on.
pub open spec fn lex_less_from(a: Seq<u8>, b: Seq<u8>, i: int) -> bool
    decreases a.len() - i,
{
    if i < 0 || i >= b.len() {
        false
    } else if i >= a.len() {
        true
    } else if a[i] != b[i] {
        a[i] < b[i]
    } else {
        lex_less_from(a, b, i + 1)
    }
}

/// Whether `a` comes before `b` in the lexicographic order of byte strings.
pub open spec fn lex_less(a: Seq<u8>, b: Seq<u8>) -> bool {
    lex_less_from(a, b, 0)
}

/// Of two different byte strings exactly one comes before the other.
pub proof fn lemma_lex_less_total(a: Seq<u8>, b: Seq<u8>)
    ensures
        a != b ==> (lex_less(a, b) <==> !lex_less(b, a)),
        !lex_less(a, a),
{
    lemma_lex_total_from(a, b, 0);
    lemma_lex_irreflexive_from(a, 0);
}

proof fn lemma_lex_total_from(a: Seq<u8>, b: Seq<u8>, i: int)
    requires
        0 <= i <= a.len(),
        i <= b.len(),
        forall|k: int| 0 <= k < i ==> a[k] == b[k],
    ensures
        a != b ==> (lex_less_from(a, b, i) <==> !lex_less_from(b, a, i)),
    decreases a.len() - i,
{
    if i < a.len() && i < b.len() && a[i] == b[i] {
        lemma_lex_total_from(a, b, i + 1);
    } else if i >= a.len() && i >= b.len() {
        assert(a =~= b);
    }
}

proof fn lemma_lex_irreflexive_from(a: Seq<u8>, i: int)
    requires
        0 <= i <= a.len(),
    ensures
        !lex_less_from(a, a, i),
    decreases a.len() - i,
{
    if i < a.len() {
        lemma_lex_irreflexive_from(a, i + 1);
    }
}

/// Whether two byte strings are equal.
pub fn same_bytes(a: &[u8], b: &[u8]) -> (r: bool)
    ensures
        r == (a@ == b@),
{
    if a.len() != b.len() {
        return false;
    }
    let mut i: usize = 0;
    while i < a.len()
        invariant
            0 <= i <= a@.len(),
            a@.len() == b@.len(),
            forall|k: int| 0 <= k < i ==> a@[k] == b@[k],
        decreases a@.len() - i,
    {
        if a[i] != b[i] {
            return false;
        }
        i = i + 1;
    }
    assert(a@ =~= b@);
    true
}

/// Whether `a` comes before `b` in the lexicographic order of byte strings.
pub fn bytes_less(a: &[u8], b: &[u8]) -> (r: bool)
    ensures
        r == lex_less(a@, b@),
{
    let mut i: usize = 0;
    while i < a.len() && i < b.len() && a[i] == b[i]
        invariant
            0 <= i <= a@.len(),
            i <= b@.len(),
            lex_less(a@, b@) == lex_less_from(a@, b@, i as int),
        decreases a@.len() - i,
    {
        i = i + 1;
    }
    if i >= b.len() {
        false
    } else if i >= a.len() {
        true
    } else {
        a[i] < b[i]
    }
}

/// The byte string of `n` zero bytes.
pub open spec fn zeros(n: nat) -> Seq<u8> {
    Seq::new(n, |i: int| 0u8)
}

/// Whether every byte is zero.
pub fn all_zero(a: &[u8]) -> (r: bool)
    ensures
        r == (a@ == zeros(a@.len())),
{
    let mut i: usize = 0;
    while i < a.len()
        invariant
            0 <= i <= a@.len(),
            forall|k: int| 0 <= k < i ==> a@[k] == 0,
        decreases a@.len() - i,
    {
        if a[i] != 0 {
            assert(a@[i as int] != zeros(a@.len())[i as int]);
            return false;
        }
        i = i + 1;
    }
    assert(a@ =~= zeros(a@.len()));
    true
}

/// A copy of a byte string.
pub fn copy_bytes(a: &[u8]) -> (v: Vec<u8>)
    ensures
        v@ == a@,
{
    let mut v: Vec<u8> = Vec::with_capacity(a.len());
    append_bytes(&mut v, a);
    assert(v@ =~= a@);
    v
}

/// Appends `a` to `v`.
pub fn append_bytes(v: &mut Vec<u8>, a: &[u8])
    ensures
        final(v)@ == old(v)@ + a@,
{
    v.extend_from_slice(a);
    assert(v@ =~= old(v)@ + a@);
}

/// A copy of the bytes of `a` from `from` up to `to`.
pub fn copy_range(a: &[u8], from: usize, to: usize) -> (v: Vec<u8>)
    requires
        from <= to <= a@.len(),
    ensures
        v@ == a@.subrange(from as int, to as int),
{
    copy_bytes(vstd::slice::slice_subrange(a, from, to))
}

/// The two bytes of `x`, most significant first.
pub open spec fn be16(x: u16) -> Seq<u8> {
    seq![(x / 256) as u8, (x % 256) as u8]
}

/// The four bytes of `x`, most significant first.
pub open spec fn be32(x: u32) -> Seq<u8> {
    seq![
        (x / 0x100_0000) as u8,
        (x / 0x1_0000 % 256) as u8,
        (x / 0x100 % 256) as u8,
        (x % 256) as u8,
    ]
}

/// The eight bytes of `x`, most significant first.
pub open spec fn be64(x: u64) -> Seq<u8> {
    be32((x / 0x1_0000_0000) as u32) + be32((x % 0x1_0000_0000) as u32)
}

/// The number whose two bytes, most significant first, are `s`.
pub open spec fn of_be16(s: Seq<u8>) -> u16 {
    (s[0] * 256 + s[1]) as u16
}

/// The number whose four bytes, most significant first, are `s`.
pub open spec fn of_be32(s: Seq<u8>) -> u32 {
    (s[0] * 0x100_0000 + s[1] * 0x1_0000 + s[2] * 0x100 + s[3]) as u32
}

/// The number whose eight bytes, most significant first, are `s`.
pub open spec fn of_be64(s: Seq<u8>) -> u64 {
    (of_be32(s.subrange(0, 4)) * 0x1_0000_0000 + of_be32(s.subrange(4, 8))) as u64
}

/// Reading back the two bytes of a number gives the number.
pub proof fn lemma_be16(x: u16)
    ensures
        be16(x).len() == 2,
        of_be16(be16(x)) == x,
{
}

/// Reading back the four bytes of a number gives the number.
pub proof fn lemma_be32(x: u32)
    ensures
        be32(x).len() == 4,
        of_be32(be32(x)) == x,
{
}

/// Reading back the eight bytes of a number gives the number.
pub proof fn lemma_be64(x: u64)
    ensures
        be64(x).len() == 8,
        of_be64(be64(x)) == x,
{
    let hi = (x / 0x1_0000_0000) as u32;
    let lo = (x % 0x1_0000_0000) as u32;
    lemma_be32(hi);
    lemma_be32(lo);
    assert(be64(x).subrange(0, 4) =~= be32(hi));
    assert(be64(x).subrange(4, 8) =~= be32(lo));
}

/// Appends the two bytes of `x`, most significant first.
pub fn push_be16(v: &mut Vec<u8>, x: u16)
    ensures
        final(v)@ == old(v)@ + be16(x),
{
    v.push((x / 256) as u8);
    v.push((x % 256) as u8);
    assert(v@ =~= old(v)@ + be16(x));
}

/// Appends the four bytes of `x`, most significant first.
pub fn push_be32(v: &mut Vec<u8>, x: u32)
    ensures
        final(v)@ == old(v)@ + be32(x),
{
    v.push((x / 0x100_0000) as u8);
    v.push((x / 0x1_0000 % 256) as u8);
    v.push((x / 0x100 % 256) as u8);
    v.push((x % 256) as u8);
    assert(v@ =~= old(v)@ + be32(x));
}

/// Appends the eight bytes of `x`, most significant first.
pub fn push_be64(v: &mut Vec<u8>, x: u64)
    ensures
        final(v)@ == old(v)@ + be64(x),
{
    push_be32(v, (x / 0x1_0000_0000) as u32);
    push_be32(v, (x % 0x1_0000_0000) as u32);
    assert(v@ =~= old(v)@ + be64(x));
}

/// Reads two bytes at `at`, most significant first.
pub fn read_be16(a: &[u8], at: usize) -> (x: u16)
    requires
        at + 2 <= a@.len(),
    ensures
        x == of_be16(a@.subrange(at as int, at + 2)),
{
    a[at] as u16 * 256 + a[at + 1] as u16
}

/// Reads four bytes at `at`, most significant first.
pub fn read_be32(a: &[u8], at: usize) -> (x: u32)
    requires
        at + 4 <= a@.len(),
    ensures
        x == of_be32(a@.subrange(at as int, at + 4)),
{
    a[at] as u32 * 0x100_0000 + a[at + 1] as u32 * 0x1_0000 + a[at + 2] as u32 * 0x100
        + a[at + 3] as u32
}

/// Reads eight bytes at `at`, most significant first.
pub fn read_be64(a: &[u8], at: usize) -> (x: u64)
    requires
        at + 8 <= a@.len(),
    ensures
        x == of_be64(a@.subrange(at as int, at + 8)),
{
    assert(a@.len() == a.len());
    let hi: u32 = read_be32(a, at);
    let lo: u32 = read_be32(a, at + 4);
    proof {
        let s = a@.subrange(at as int, at + 8);
        assert(s.subrange(0, 4) =~= a@.subrange(at as int, at + 4));
        assert(s.subrange(4, 8) =~= a@.subrange(at + 4, at + 8));
    }
    hi as u64 * 0x1_0000_0000 + lo as u64
}

/// The 32 bytes of `a` from `at` on.
pub fn array32_at(a: &[u8], at: usize) -> (out: [u8; 32])
    requires
        at + 32 <= a@.len(),
    ensures
        out@ == a@.subrange(at as int, at + 32),
{
    assert(a@.len() == a.len());
    let mut out: [u8; 32] = [0u8; 32];
    let mut i: usize = 0;
    while i < 32
        invariant
            0 <= i <= 32,
            at + 32 <= a@.len(),
            a@.len() <= usize::MAX,
            forall|k: int| 0 <= k < i ==> out@[k] == a@[at + k],
        decreases 32 - i,
    {
        out[i] = a[at + i];
        i = i + 1;
    }
    assert(out@ =~= a@.subrange(at as int, at + 32));
    out
}

/// The 16 bytes of `a` from `at` on.
pub fn array16_at(a: &[u8], at: usize) -> (out: [u8; 16])
    requires
        at + 16 <= a@.len(),
    ensures
        out@ == a@.subrange(at as int, at + 16),
{
    assert(a@.len() == a.len());
    let mut out: [u8; 16] = [0u8; 16];
    let mut i: usize = 0;
    while i < 16
        invariant
            0 <= i <= 16,
            at + 16 <= a@.len(),
            a@.len() <= usize::MAX,
            forall|k: int| 0 <= k < i ==> out@[k] == a@[at + k],
        decreases 16 - i,
    {
        out[i] = a[at + i];
        i = i + 1;
    }
    assert(out@ =~= a@.subrange(at as int, at + 16));
    out
}

/// The contents of byte strings.
pub open spec fn byte_strings(v: Seq<Vec<u8>>) -> Seq<Seq<u8>> {
    v.map_values(|b: Vec<u8>| b@)
}

/// A copy of byte strings.
pub fn copy_byte_strings(a: &Vec<Vec<u8>>) -> (v: Vec<Vec<u8>>)
    ensures
        byte_strings(v@) == byte_strings(a@),
{
    let mut v: Vec<Vec<u8>> = Vec::new();
    let mut i: usize = 0;
    while i < a.len()
        invariant
            i <= a@.len(),
            byte_strings(v@) == byte_strings(a@).take(i as int),
        decreases a@.len() - i,
    {
        let ghost before = v@;
        let b: Vec<u8> = copy_bytes(a[i].as_slice());
        v.push(b);
        i = i + 1;
        assert(byte_strings(v@) =~= byte_strings(before).push(b@));
        assert(byte_strings(a@).take(i as int) =~= byte_strings(a@).take(i - 1).push(
            byte_strings(a@)[i - 1],
        ));
    }
    assert(byte_strings(a@).take(i as int) =~= byte_strings(a@));
    v
}

/// Numbers that are written are read back at their place, whatever is before and behind.
pub proof fn written_numbers_are_read(
    v: &mut Vec<u8>,
    x: u16,
    a: &[u8],
    i: usize,
    x1: u16,
    w: &mut Vec<u8>,
    y: u32,
    b: &[u8],
    j: usize,
    y1: u32,
    u: &mut Vec<u8>,
    z: u64,
    c: &[u8],
    k: usize,
    z1: u64,
    rest: Seq<u8>,
)
    requires
        call_ensures(push_be16, (v, x), ()),
        a@ == final(v)@ + rest,
        i == old(v)@.len(),
        call_ensures(read_be16, (a, i), x1),
        call_ensures(push_be32, (w, y), ()),
        b@ == final(w)@ + rest,
        j == old(w)@.len(),
        call_ensures(read_be32, (b, j), y1),
        call_ensures(push_be64, (u, z), ()),
        c@ == final(u)@ + rest,
        k == old(u)@.len(),
        call_ensures(read_be64, (c, k), z1),
    ensures
        x1 == x && y1 == y && z1 == z,
        final(v)@.len() == old(v)@.len() + 2,
        final(w)@.len() == old(w)@.len() + 4,
        final(u)@.len() == old(u)@.len() + 8,
{
    lemma_be16(x);
    lemma_be32(y);
    lemma_be64(z);
    assert(a@.subrange(i as int, i + 2) =~= be16(x));
    assert(b@.subrange(j as int, j + 4) =~= be32(y));
    assert(c@.subrange(k as int, k + 8) =~= be64(z));
}

/// The most significant byte stands first.
pub proof fn the_most_significant_byte_is_first(v: &mut Vec<u8>, x: u16, w: &mut Vec<u8>, y: u32)
    requires
        call_ensures(push_be16, (v, x), ()),
        call_ensures(push_be32, (w, y), ()),
    ensures
        final(v)@[old(v)@.len() as int] * 256 + final(v)@[old(v)@.len() as int + 1] == x,
        final(w)@[old(w)@.len() as int] * 16_777_216 + final(w)@[old(w)@.len() as int + 1] * 65_536
            + final(w)@[old(w)@.len() as int + 2] * 256 + final(w)@[old(w)@.len() as int + 3] == y,
        final(v)@.take(old(v)@.len() as int) == old(v)@,
        final(w)@.take(old(w)@.len() as int) == old(w)@,
{
    lemma_be16(x);
    lemma_be32(y);
    assert(final(v)@.take(old(v)@.len() as int) =~= old(v)@);
    assert(final(w)@.take(old(w)@.len() as int) =~= old(w)@);
}

proof fn lemma_differing_byte(a: Seq<u8>, b: Seq<u8>, i: int, k: int)
    requires
        0 <= i <= k <= a.len(),
        k < b.len(),
        forall|j: int| i <= j < k ==> #[trigger] a[j] == b[j],
        k == a.len() || a[k] < b[k],
    ensures
        lex_less_from(a, b, i),
    decreases k - i,
{
    if i < k {
        assert(a[i] == b[i]);
        lemma_differing_byte(a, b, i + 1, k);
    }
}

/// Byte strings are ordered by the first byte that differs, a string before its
/// continuations, and never both ways.
pub proof fn byte_strings_have_an_order(a: &[u8], b: &[u8], ab: bool, ba: bool, k: int)
    requires
        call_ensures(bytes_less, (a, b), ab),
        call_ensures(bytes_less, (b, a), ba),
        0 <= k <= a@.len(),
        k < b@.len(),
        forall|j: int| 0 <= j < k ==> #[trigger] a@[j] == b@[j],
        k == a@.len() || a@[k] < b@[k],
    ensures
        ab,
        !ba,
{
    lemma_differing_byte(a@, b@, 0, k);
    lemma_lex_less_total(a@, b@);
}

/// A byte string is all zero when each of its bytes is.
pub proof fn zero_strings_hold_zeros(a: &[u8], r: bool)
    requires
        call_ensures(all_zero, (a,), r),
    ensures
        r <==> forall|i: int| 0 <= i < a@.len() ==> #[trigger] a@[i] == 0,
{
    if forall|i: int| 0 <= i < a@.len() ==> #[trigger] a@[i] == 0 {
        assert(a@ =~= zeros(a@.len()));
    }
    if r {
        assert forall|i: int| 0 <= i < a@.len() implies #[trigger] a@[i] == 0 by {
            assert(zeros(a@.len())[i] == 0);
        }
    }
}

} // verus!
