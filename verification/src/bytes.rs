//! Big-endian integers, byte strings and the cursor that every codec reads with.

use vstd::prelude::*;

verus! {

/// The digest of nothing: thirty-two zero bytes.
pub const ZERO_DIGEST: [u8; 32] = [
    0, 0, 0, 0, 0, 0, 0, 0, 0, 0, 0, 0, 0, 0, 0, 0, 0, 0, 0, 0, 0, 0, 0, 0, 0, 0, 0, 0, 0, 0, 0, 0,
];

/// 256 to the power `n`: the number of values that `n` bytes can hold.
pub open spec fn pow256(n: nat) -> nat
    decreases n,
{
    if n == 0 {
        1
    } else {
        256 * pow256((n - 1) as nat)
    }
}

/// The `n` least significant bytes of `value`, most significant first.
pub open spec fn be_bytes(value: nat, n: nat) -> Seq<u8>
    decreases n,
{
    if n == 0 {
        Seq::empty()
    } else {
        be_bytes(value / 256, (n - 1) as nat).push((value % 256) as u8)
    }
}

/// The number that `s` writes, most significant byte first.
pub open spec fn be_value(s: Seq<u8>) -> nat
    decreases s.len(),
{
    if s.len() == 0 {
        0
    } else {
        be_value(s.drop_last()) * 256 + s.last() as nat
    }
}

pub open spec fn be16(value: u16) -> Seq<u8> {
    be_bytes(value as nat, 2)
}

pub open spec fn be32(value: u32) -> Seq<u8> {
    be_bytes(value as nat, 4)
}

pub open spec fn be64(value: u64) -> Seq<u8> {
    be_bytes(value as nat, 8)
}

/// The two's complement bit pattern of `value`.
pub open spec fn i64_bits(value: i64) -> u64 {
    if value >= 0 {
        value as u64
    } else {
        (value + 0x1_0000_0000_0000_0000) as u64
    }
}

/// The signed number whose two's complement bit pattern is `bits`.
pub open spec fn bits_i64(bits: u64) -> i64 {
    if bits < 0x8000_0000_0000_0000 {
        bits as i64
    } else {
        (bits - 0x1_0000_0000_0000_0000) as i64
    }
}

pub open spec fn i32_bits(value: i32) -> u32 {
    if value >= 0 {
        value as u32
    } else {
        (value + 0x1_0000_0000) as u32
    }
}

pub open spec fn be_i64(value: i64) -> Seq<u8> {
    be64(i64_bits(value))
}

pub open spec fn be_i32(value: i32) -> Seq<u8> {
    be32(i32_bits(value))
}

/// A length written as an unsigned 64-bit number.
pub open spec fn be_len(len: nat) -> Seq<u8> {
    be_bytes(len, 8)
}

/// A byte string behind its length in four bytes.
pub open spec fn counted(bytes: Seq<u8>) -> Seq<u8> {
    be32(bytes.len() as u32) + bytes
}

/// The UTF-8 bytes of a text.
pub open spec fn text(chars: Seq<char>) -> Seq<u8> {
    vstd::utf8::encode_utf8(chars)
}

/// The array whose elements are those of `s`.
pub open spec fn array_of<const N: usize>(s: Seq<u8>) -> [u8; N] {
    choose|a: [u8; N]| a@ == s
}

pub open spec fn u8_at(s: Seq<u8>, at: int) -> u8 {
    s[at]
}

pub open spec fn u16_at(s: Seq<u8>, at: int) -> u16 {
    be_value(s.subrange(at, at + 2)) as u16
}

pub open spec fn u32_at(s: Seq<u8>, at: int) -> u32 {
    be_value(s.subrange(at, at + 4)) as u32
}

pub open spec fn u64_at(s: Seq<u8>, at: int) -> u64 {
    be_value(s.subrange(at, at + 8)) as u64
}

pub open spec fn i64_at(s: Seq<u8>, at: int) -> i64 {
    bits_i64(u64_at(s, at))
}

pub open spec fn digest_at(s: Seq<u8>, at: int) -> [u8; 32] {
    array_of::<32>(s.subrange(at, at + 32))
}

/// The byte string that stands behind its length in four bytes at `at`, and where
/// it ends.
pub open spec fn counted_at(s: Seq<u8>, at: int) -> Option<(Seq<u8>, int)> {
    if at + 4 > s.len() || at + 4 + u32_at(s, at) > s.len() {
        None
    } else {
        Some((s.subrange(at + 4, at + 4 + u32_at(s, at)), at + 4 + u32_at(s, at)))
    }
}

/// Thirty-two zero bytes: the value no digest may have.
pub open spec fn zero_digest(digest: [u8; 32]) -> bool {
    forall|i: int| 0 <= i < 32 ==> digest@[i] == 0
}

pub proof fn lemma_array_of<const N: usize>(a: [u8; N])
    ensures
        array_of::<N>(a@) == a,
{
    let c = array_of::<N>(a@);
    assert(c@ == a@);
    assert forall|i: int| 0 <= i < N implies c[i] == a[i] by {
        assert(c@[i] == a@[i]);
    }
    assert(c =~= a);
}

/// Two arrays that hold the same bytes are equal.
pub proof fn lemma_array_eq<const N: usize>(a: [u8; N], b: [u8; N])
    requires
        a@ == b@,
    ensures
        a == b,
{
    lemma_array_of::<N>(a);
    lemma_array_of::<N>(b);
}

pub proof fn lemma_pow256_small()
    ensures
        pow256(0) == 1,
        pow256(1) == 0x100,
        pow256(2) == 0x1_0000,
        pow256(4) == 0x1_0000_0000,
        pow256(8) == 0x1_0000_0000_0000_0000,
{
    reveal_with_fuel(pow256, 9);
}

pub proof fn lemma_be_bytes_len(value: nat, n: nat)
    ensures
        be_bytes(value, n).len() == n,
    decreases n,
{
    if n > 0 {
        lemma_be_bytes_len(value / 256, (n - 1) as nat);
    }
}

/// The fixed widths.
pub proof fn lemma_be_lens()
    ensures
        forall|v: u16| (#[trigger] be16(v)).len() == 2,
        forall|v: u32| (#[trigger] be32(v)).len() == 4,
        forall|v: u64| (#[trigger] be64(v)).len() == 8,
        forall|v: i64| (#[trigger] be_i64(v)).len() == 8,
        forall|v: i32| (#[trigger] be_i32(v)).len() == 4,
        forall|n: nat| (#[trigger] be_len(n)).len() == 8,
{
    assert forall|v: u16| (#[trigger] be16(v)).len() == 2 by {
        lemma_be_bytes_len(v as nat, 2);
    }
    assert forall|v: u32| (#[trigger] be32(v)).len() == 4 by {
        lemma_be_bytes_len(v as nat, 4);
    }
    assert forall|v: u64| (#[trigger] be64(v)).len() == 8 by {
        lemma_be_bytes_len(v as nat, 8);
    }
    assert forall|v: i64| (#[trigger] be_i64(v)).len() == 8 by {
        lemma_be_bytes_len(i64_bits(v) as nat, 8);
    }
    assert forall|v: i32| (#[trigger] be_i32(v)).len() == 4 by {
        lemma_be_bytes_len(i32_bits(v) as nat, 4);
    }
    assert forall|n: nat| (#[trigger] be_len(n)).len() == 8 by {
        lemma_be_bytes_len(n, 8);
    }
}

/// Reading what was written gives the number back.
pub proof fn lemma_be_value_of_bytes(value: nat, n: nat)
    requires
        value < pow256(n),
    ensures
        be_value(be_bytes(value, n)) == value,
    decreases n,
{
    if n > 0 {
        let rest = be_bytes(value / 256, (n - 1) as nat);
        assert(value / 256 < pow256((n - 1) as nat));
        lemma_be_value_of_bytes(value / 256, (n - 1) as nat);
        let all = be_bytes(value, n);
        assert(all.drop_last() =~= rest);
        assert(all.last() == (value % 256) as u8);
    }
}

pub proof fn lemma_be_value_bound(s: Seq<u8>)
    ensures
        be_value(s) < pow256(s.len()),
    decreases s.len(),
{
    if s.len() > 0 {
        lemma_be_value_bound(s.drop_last());
    }
}

/// Writing what was read gives the bytes back.
pub proof fn lemma_be_bytes_of_value(s: Seq<u8>)
    ensures
        be_bytes(be_value(s), s.len()) == s,
    decreases s.len(),
{
    if s.len() > 0 {
        lemma_be_bytes_of_value(s.drop_last());
        let v = be_value(s);
        assert(v / 256 == be_value(s.drop_last()));
        assert(v % 256 == s.last() as nat);
        assert(be_bytes(v, s.len()) =~= s);
    } else {
        assert(s =~= Seq::<u8>::empty());
    }
}

/// What was read as a fixed-width integer, written again, is what was read.
pub proof fn lemma_read_then_write(s: Seq<u8>, at: int)
    requires
        0 <= at,
    ensures
        at + 2 <= s.len() ==> be16(u16_at(s, at)) == s.subrange(at, at + 2),
        at + 4 <= s.len() ==> be32(u32_at(s, at)) == s.subrange(at, at + 4),
        at + 8 <= s.len() ==> be64(u64_at(s, at)) == s.subrange(at, at + 8),
        at + 8 <= s.len() ==> be_i64(i64_at(s, at)) == s.subrange(at, at + 8),
        at + 32 <= s.len() ==> digest_at(s, at)@ == s.subrange(at, at + 32),
{
    lemma_pow256_small();
    if at + 2 <= s.len() {
        lemma_be_value_bound(s.subrange(at, at + 2));
        lemma_be_bytes_of_value(s.subrange(at, at + 2));
    }
    if at + 4 <= s.len() {
        lemma_be_value_bound(s.subrange(at, at + 4));
        lemma_be_bytes_of_value(s.subrange(at, at + 4));
    }
    if at + 8 <= s.len() {
        lemma_be_value_bound(s.subrange(at, at + 8));
        lemma_be_bytes_of_value(s.subrange(at, at + 8));
    }
    if at + 32 <= s.len() {
        lemma_array_exists(s.subrange(at, at + 32));
    }
}

/// Every sequence of thirty-two bytes is the contents of some array.
pub proof fn lemma_array_exists(s: Seq<u8>)
    requires
        s.len() == 32,
    ensures
        array_of::<32>(s)@ == s,
{
    let a: [u8; 32] = [
        s[0], s[1], s[2], s[3], s[4], s[5], s[6], s[7],
        s[8], s[9], s[10], s[11], s[12], s[13], s[14], s[15],
        s[16], s[17], s[18], s[19], s[20], s[21], s[22], s[23],
        s[24], s[25], s[26], s[27], s[28], s[29], s[30], s[31],
    ];
    assert(a@ =~= s);
}

/// What was written as a fixed-width integer, read again, is what was written.
pub proof fn lemma_write_then_read(s: Seq<u8>, at: int)
    requires
        0 <= at,
    ensures
        forall|v: u16| at + 2 <= s.len() && s.subrange(at, at + 2) == #[trigger] be16(v)
            ==> u16_at(s, at) == v,
        forall|v: u32| at + 4 <= s.len() && s.subrange(at, at + 4) == #[trigger] be32(v)
            ==> u32_at(s, at) == v,
        forall|v: u64| at + 8 <= s.len() && s.subrange(at, at + 8) == #[trigger] be64(v)
            ==> u64_at(s, at) == v,
        forall|v: i64| at + 8 <= s.len() && s.subrange(at, at + 8) == #[trigger] be_i64(v)
            ==> i64_at(s, at) == v,
        forall|v: [u8; 32]| at + 32 <= s.len() && s.subrange(at, at + 32) == #[trigger] v@
            ==> digest_at(s, at) == v,
{
    lemma_pow256_small();
    assert forall|v: u16| at + 2 <= s.len() && s.subrange(at, at + 2) == #[trigger] be16(v)
        implies u16_at(s, at) == v by {
        lemma_be_value_of_bytes(v as nat, 2);
    }
    assert forall|v: u32| at + 4 <= s.len() && s.subrange(at, at + 4) == #[trigger] be32(v)
        implies u32_at(s, at) == v by {
        lemma_be_value_of_bytes(v as nat, 4);
    }
    assert forall|v: u64| at + 8 <= s.len() && s.subrange(at, at + 8) == #[trigger] be64(v)
        implies u64_at(s, at) == v by {
        lemma_be_value_of_bytes(v as nat, 8);
    }
    assert forall|v: i64| at + 8 <= s.len() && s.subrange(at, at + 8) == #[trigger] be_i64(v)
        implies i64_at(s, at) == v by {
        lemma_be_value_of_bytes(i64_bits(v) as nat, 8);
    }
    assert forall|v: [u8; 32]| at + 32 <= s.len() && s.subrange(at, at + 32) == #[trigger] v@
        implies digest_at(s, at) == v by {
        lemma_array_of::<32>(v);
    }
}

/// What stands in a front stands in whatever begins with that front.
pub proof fn lemma_read_in_front(front: Seq<u8>, whole: Seq<u8>)
    requires
        front.len() <= whole.len(),
        whole.subrange(0, front.len() as int) == front,
    ensures
        forall|at: int|
            0 <= at < front.len() ==> #[trigger] whole[at] == front[at],
        forall|at: int|
            0 <= at && at + 2 <= front.len() ==> #[trigger] u16_at(whole, at) == u16_at(front, at),
        forall|at: int|
            0 <= at && at + 4 <= front.len() ==> #[trigger] u32_at(whole, at) == u32_at(front, at),
        forall|at: int|
            0 <= at && at + 8 <= front.len() ==> #[trigger] u64_at(whole, at) == u64_at(front, at),
        forall|at: int|
            0 <= at && at + 8 <= front.len() ==> #[trigger] i64_at(whole, at) == i64_at(front, at),
        forall|at: int|
            0 <= at && at + 32 <= front.len() ==> #[trigger] digest_at(whole, at) == digest_at(
                front,
                at,
            ),
        forall|at: int, end: int|
            0 <= at <= end <= front.len() ==> #[trigger] whole.subrange(at, end) == front.subrange(
                at,
                end,
            ),
{
    assert forall|at: int, end: int| 0 <= at <= end <= front.len() implies #[trigger]
        whole.subrange(at, end) == front.subrange(at, end) by {
        assert forall|i: int| at <= i < end implies whole[i] == front[i] by {
            assert(whole.subrange(0, front.len() as int)[i] == front[i]);
        }
        assert(whole.subrange(at, end) =~= front.subrange(at, end));
    }
    assert forall|at: int| 0 <= at < front.len() implies #[trigger] whole[at] == front[at] by {
        assert(whole.subrange(0, front.len() as int)[at] == front[at]);
    }
}

/// A counted byte string reads back.
pub proof fn lemma_counted(s: Seq<u8>, at: int, part: Seq<u8>)
    requires
        0 <= at,
        part.len() <= u32::MAX,
        at + 4 + part.len() <= s.len(),
        s.subrange(at, at + 4 + part.len()) == counted(part),
    ensures
        counted_at(s, at) == Some((part, at + 4 + part.len())),
{
    lemma_be_lens();
    let whole = counted(part);
    assert(whole.subrange(0, 4) =~= be32(part.len() as u32));
    assert(s.subrange(at, at + 4) =~= whole.subrange(0, 4));
    lemma_write_then_read(s, at);
    assert(s.subrange(at + 4, at + 4 + part.len()) =~= whole.subrange(4, 4 + part.len() as int));
    assert(whole.subrange(4, 4 + part.len() as int) =~= part);
}

/// Appends `value` in `n` bytes, most significant first.
pub fn push_be(out: &mut Vec<u8>, value: u64, n: usize)
    ensures
        final(out)@ == old(out)@ + be_bytes(value as nat, n as nat),
    decreases n,
{
    if n == 0 {
        assert(old(out)@ + be_bytes(value as nat, 0) =~= old(out)@);
    } else {
        let ghost before = out@;
        push_be(out, value / 256, n - 1);
        out.push((value % 256) as u8);
        assert(out@ =~= before + be_bytes(value as nat, n as nat));
    }
}

pub fn push_u16(out: &mut Vec<u8>, value: u16)
    ensures
        final(out)@ == old(out)@ + be16(value),
{
    push_be(out, value as u64, 2);
}

pub fn push_u32(out: &mut Vec<u8>, value: u32)
    ensures
        final(out)@ == old(out)@ + be32(value),
{
    push_be(out, value as u64, 4);
}

pub fn push_u64(out: &mut Vec<u8>, value: u64)
    ensures
        final(out)@ == old(out)@ + be64(value),
{
    push_be(out, value, 8);
}

/// Appends a length as an unsigned 64-bit number.
pub fn push_len(out: &mut Vec<u8>, len: usize)
    ensures
        final(out)@ == old(out)@ + be_len(len as nat),
{
    push_be(out, len as u64, 8);
}

pub fn push_i64(out: &mut Vec<u8>, value: i64)
    ensures
        final(out)@ == old(out)@ + be_i64(value),
{
    push_u64(out, to_bits(value));
}

pub fn push_i32(out: &mut Vec<u8>, value: i32)
    ensures
        final(out)@ == old(out)@ + be_i32(value),
{
    let bits: u32 = if value >= 0 {
        value as u32
    } else {
        ((value + 0x7FFF_FFFF) + 1) as u32 + 0x8000_0000
    };
    push_u32(out, bits);
}

/// The two's complement bit pattern of a signed number.
pub fn to_bits(value: i64) -> (bits: u64)
    ensures
        bits == i64_bits(value),
{
    if value >= 0 {
        value as u64
    } else {
        ((value + 0x7FFF_FFFF_FFFF_FFFF) + 1) as u64 + 0x8000_0000_0000_0000
    }
}

/// The signed number with the given two's complement bit pattern.
pub fn from_bits(bits: u64) -> (value: i64)
    ensures
        value == bits_i64(bits),
{
    if bits < 0x8000_0000_0000_0000 {
        bits as i64
    } else {
        (bits - 0x8000_0000_0000_0000) as i64 - 0x7FFF_FFFF_FFFF_FFFF - 1
    }
}

pub fn push_bytes(out: &mut Vec<u8>, bytes: &[u8])
    ensures
        final(out)@ == old(out)@ + bytes@,
{
    out.extend_from_slice(bytes);
    assert(out@ =~= old(out)@ + bytes@);
}

/// Appends a length in four bytes, then the bytes.
pub fn push_counted(out: &mut Vec<u8>, bytes: &[u8])
    requires
        bytes@.len() <= u32::MAX,
    ensures
        final(out)@ == old(out)@ + counted(bytes@),
{
    push_u32(out, bytes.len() as u32);
    push_bytes(out, bytes);
    assert(out@ =~= old(out)@ + counted(bytes@));
}

pub fn push_byte(out: &mut Vec<u8>, byte: u8)
    ensures
        final(out)@ == old(out)@ + seq![byte],
{
    out.push(byte);
    assert(out@ =~= old(out)@ + seq![byte]);
}

/// Appends the bytes of a text.
pub fn push_text(out: &mut Vec<u8>, text: &str)
    ensures
        final(out)@ == old(out)@ + self::text(text@),
{
    push_bytes(out, text.as_bytes());
}

/// Appends the length of a text in bytes, then its bytes.
pub fn push_counted_text(out: &mut Vec<u8>, text: &str)
    ensures
        final(out)@ == old(out)@ + be_len(self::text(text@).len()) + self::text(text@),
{
    let bytes = text.as_bytes();
    push_len(out, bytes.len());
    push_bytes(out, bytes);
}

/// The bytes of a text.
pub fn text_bytes(text: &str) -> (bytes: Vec<u8>)
    ensures
        bytes@ == self::text(text@),
{
    copy_bytes(text.as_bytes())
}

pub fn copy_bytes(bytes: &[u8]) -> (copy: Vec<u8>)
    ensures
        copy@ == bytes@,
{
    vstd::slice::slice_to_vec(bytes)
}

pub fn bytes_equal(a: &[u8], b: &[u8]) -> (equal: bool)
    ensures
        equal == (a@ == b@),
{
    if a.len() != b.len() {
        return false;
    }
    let mut i: usize = 0;
    while i < a.len()
        invariant
            i <= a@.len(),
            a@.len() == b@.len(),
            forall|j: int| 0 <= j < i ==> a@[j] == b@[j],
        decreases a@.len() - i,
    {
        if a[i] != b[i] {
            assert(a@[i as int] != b@[i as int]);
            return false;
        }
        i += 1;
    }
    assert(a@ =~= b@);
    true
}

pub fn array_equal<const N: usize>(a: &[u8; N], b: &[u8; N]) -> (equal: bool)
    ensures
        equal == (*a == *b),
{
    let equal: bool = bytes_equal(a, b);
    proof {
        if equal {
            lemma_array_eq::<N>(*a, *b);
        }
    }
    equal
}

pub fn is_zero_digest(digest: &[u8; 32]) -> (zero: bool)
    ensures
        zero == zero_digest(*digest),
{
    let mut i: usize = 0;
    while i < 32
        invariant
            i <= 32,
            forall|j: int| 0 <= j < i ==> digest@[j] == 0,
        decreases 32 - i,
    {
        if digest[i] != 0 {
            assert(digest@[i as int] != 0);
            return false;
        }
        i += 1;
    }
    true
}

/// The array with the bytes of a slice of its length.
pub fn array_from<const N: usize>(bytes: &[u8]) -> (array: [u8; N])
    requires
        bytes@.len() == N,
    ensures
        array@ == bytes@,
        array == array_of::<N>(bytes@),
{
    let mut array: [u8; N] = [0u8; N];
    let mut i: usize = 0;
    while i < N
        invariant
            i <= N,
            bytes@.len() == N,
            forall|j: int| 0 <= j < i ==> array@[j] == bytes@[j],
        decreases N - i,
    {
        array[i] = bytes[i];
        i += 1;
    }
    assert(array@ =~= bytes@);
    proof {
        lemma_array_of::<N>(array);
    }
    array
}

/// The number in the `n` bytes of `bytes` that start at `at`.
pub fn read_be(bytes: &[u8], at: usize, n: usize) -> (value: u64)
    requires
        n <= 8,
        at + n <= bytes@.len(),
    ensures
        value == be_value(bytes@.subrange(at as int, at + n)),
{
    let mut value: u64 = 0;
    let mut i: usize = 0;
    proof {
        assert(bytes@.subrange(at as int, at as int) =~= Seq::<u8>::empty());
    }
    while i < n
        invariant
            i <= n,
            n <= 8,
            at + n <= bytes.len(),
            value == be_value(bytes@.subrange(at as int, at + i)),
        decreases n - i,
    {
        proof {
            let read = bytes@.subrange(at as int, at + i);
            let next = bytes@.subrange(at as int, at + i + 1);
            assert(next.drop_last() =~= read);
            lemma_be_value_bound(next);
            reveal_with_fuel(pow256, 9);
        }
        value = value * 256 + bytes[at + i] as u64;
        i += 1;
    }
    value
}

/// Reads a byte string from its front.
pub struct Cursor<'a> {
    pub bytes: &'a [u8],
    pub offset: usize,
}

impl<'a> Cursor<'a> {
    pub open spec fn wf(&self) -> bool {
        self.offset <= self.bytes@.len()
    }

    /// Whether `n` more bytes are there.
    pub open spec fn has(&self, n: int) -> bool {
        self.offset + n <= self.bytes@.len()
    }

    /// `self` has moved `n` bytes past `before` over the same byte string.
    pub open spec fn moved(&self, before: &Self, n: int) -> bool {
        &&& self.bytes@ == before.bytes@
        &&& self.offset == before.offset + n
        &&& self.wf()
    }

    pub fn new(bytes: &'a [u8]) -> (cursor: Self)
        ensures
            cursor.bytes@ == bytes@,
            cursor.offset == 0,
            cursor.wf(),
    {
        Cursor { bytes, offset: 0 }
    }

    /// The next `len` bytes, or `None` (and no move) if fewer are left.
    pub fn take(&mut self, len: usize) -> (taken: Option<&'a [u8]>)
        requires
            old(self).wf(),
        ensures
            match taken {
                Some(part) => old(self).has(len as int) && part@ == old(self).bytes@.subrange(
                    old(self).offset as int,
                    old(self).offset + len,
                ) && final(self).moved(old(self), len as int),
                None => !old(self).has(len as int) && final(self).moved(old(self), 0),
            },
    {
        if len <= self.bytes.len() - self.offset {
            let part = vstd::slice::slice_subrange(self.bytes, self.offset, self.offset + len);
            self.offset = self.offset + len;
            Some(part)
        } else {
            None
        }
    }

    pub fn u8(&mut self) -> (read: Option<u8>)
        requires
            old(self).wf(),
        ensures
            match read {
                Some(v) => old(self).has(1) && v == u8_at(
                    old(self).bytes@,
                    old(self).offset as int,
                ) && final(self).moved(old(self), 1),
                None => !old(self).has(1) && final(self).moved(old(self), 0),
            },
    {
        if self.offset < self.bytes.len() {
            let value: u8 = self.bytes[self.offset];
            self.offset = self.offset + 1;
            Some(value)
        } else {
            None
        }
    }

    fn integer(&mut self, n: usize) -> (read: Option<u64>)
        requires
            old(self).wf(),
            n <= 8,
        ensures
            match read {
                Some(v) => old(self).has(n as int) && v == be_value(
                    old(self).bytes@.subrange(old(self).offset as int, old(self).offset + n),
                ) && v < pow256(n as nat) && final(self).moved(old(self), n as int),
                None => !old(self).has(n as int) && final(self).moved(old(self), 0),
            },
    {
        if n <= self.bytes.len() - self.offset {
            let value: u64 = read_be(self.bytes, self.offset, n);
            proof {
                lemma_be_value_bound(
                    self.bytes@.subrange(self.offset as int, self.offset + n),
                );
            }
            self.offset = self.offset + n;
            Some(value)
        } else {
            None
        }
    }

    pub fn u16(&mut self) -> (read: Option<u16>)
        requires
            old(self).wf(),
        ensures
            match read {
                Some(v) => old(self).has(2) && v == u16_at(
                    old(self).bytes@,
                    old(self).offset as int,
                ) && final(self).moved(old(self), 2),
                None => !old(self).has(2) && final(self).moved(old(self), 0),
            },
    {
        proof {
            lemma_pow256_small();
        }
        match self.integer(2) {
            Some(v) => Some(v as u16),
            None => None,
        }
    }

    pub fn u32(&mut self) -> (read: Option<u32>)
        requires
            old(self).wf(),
        ensures
            match read {
                Some(v) => old(self).has(4) && v == u32_at(
                    old(self).bytes@,
                    old(self).offset as int,
                ) && final(self).moved(old(self), 4),
                None => !old(self).has(4) && final(self).moved(old(self), 0),
            },
    {
        proof {
            lemma_pow256_small();
        }
        match self.integer(4) {
            Some(v) => Some(v as u32),
            None => None,
        }
    }

    pub fn u64(&mut self) -> (read: Option<u64>)
        requires
            old(self).wf(),
        ensures
            match read {
                Some(v) => old(self).has(8) && v == u64_at(
                    old(self).bytes@,
                    old(self).offset as int,
                ) && final(self).moved(old(self), 8),
                None => !old(self).has(8) && final(self).moved(old(self), 0),
            },
    {
        self.integer(8)
    }

    pub fn i64(&mut self) -> (read: Option<i64>)
        requires
            old(self).wf(),
        ensures
            match read {
                Some(v) => old(self).has(8) && v == i64_at(
                    old(self).bytes@,
                    old(self).offset as int,
                ) && final(self).moved(old(self), 8),
                None => !old(self).has(8) && final(self).moved(old(self), 0),
            },
    {
        match self.integer(8) {
            Some(v) => Some(from_bits(v)),
            None => None,
        }
    }

    pub fn array_32(&mut self) -> (read: Option<[u8; 32]>)
        requires
            old(self).wf(),
        ensures
            match read {
                Some(v) => old(self).has(32) && v == digest_at(
                    old(self).bytes@,
                    old(self).offset as int,
                ) && v@ == old(self).bytes@.subrange(
                    old(self).offset as int,
                    old(self).offset + 32,
                ) && final(self).moved(old(self), 32),
                None => !old(self).has(32) && final(self).moved(old(self), 0),
            },
    {
        match self.take(32) {
            Some(part) => Some(array_from::<32>(part)),
            None => None,
        }
    }

    /// A byte string behind its length in four bytes.
    pub fn counted(&mut self) -> (read: Option<&'a [u8]>)
        requires
            old(self).wf(),
        ensures
            final(self).wf(),
            final(self).bytes@ == old(self).bytes@,
            match (read, counted_at(old(self).bytes@, old(self).offset as int)) {
                (Some(part), Some((found, end))) => part@ == found && final(self).offset == end,
                (None, None) => true,
                _ => false,
            },
    {
        match self.u32() {
            Some(len) => self.take(len as usize),
            None => None,
        }
    }

    pub fn is_empty(&self) -> (empty: bool)
        ensures
            empty == (self.offset == self.bytes@.len()),
    {
        self.offset == self.bytes.len()
    }
}

/// A number stands with its most significant byte first: the byte at a place is the digit
/// to the base 256 that counts for as much as the bytes behind it can hold.
pub proof fn law_numbers_stand_most_significant_first(value: nat, n: nat, k: int)
    requires
        0 <= k < n,
    ensures
        be_bytes(value, n).len() == n,
        be_bytes(value, n)[k] == (value / pow256((n - 1 - k) as nat)) % 256,
    decreases n,
{
    lemma_be_bytes_len(value, n);
    lemma_be_bytes_len(value / 256, (n - 1) as nat);
    if k < n - 1 {
        law_numbers_stand_most_significant_first(value / 256, (n - 1) as nat, k);
        let low = (n - 2 - k) as nat;
        assert(pow256((n - 1 - k) as nat) == 256 * pow256(low));
        lemma_pow256_positive(low);
        vstd::arithmetic::div_mod::lemma_div_denominator(value as int, 256, pow256(low) as int);
    } else {
        assert(value / 1 == value);
    }
}

proof fn lemma_pow256_positive(n: nat)
    ensures
        pow256(n) > 0,
    decreases n,
{
    if n > 0 {
        lemma_pow256_positive((n - 1) as nat);
    }
}

/// Fixed-width numbers stand so in two, four and eight bytes, and a signed number as the
/// number that it is modulo two to the power of its bits.
pub proof fn law_fixed_width_numbers(a: u16, b: u32, c: u64, d: i64)
    ensures
        be16(a).len() == 2,
        be16(a)[0] == a / 256,
        be16(a)[1] == a % 256,
        be32(b).len() == 4,
        be32(b)[3] == b % 256,
        be32(b)[0] == b / 0x100_0000,
        be64(c).len() == 8,
        be64(c)[7] == c % 256,
        be64(c)[0] == c / 0x100_0000_0000_0000,
        i64_bits(d) == if d >= 0 { d as int } else { d + 0x1_0000_0000_0000_0000 },
        bits_i64(i64_bits(d)) == d,
        be_i64(d) == be64(i64_bits(d)),
{
    law_numbers_stand_most_significant_first(a as nat, 2, 0);
    law_numbers_stand_most_significant_first(a as nat, 2, 1);
    law_numbers_stand_most_significant_first(b as nat, 4, 0);
    law_numbers_stand_most_significant_first(b as nat, 4, 3);
    law_numbers_stand_most_significant_first(c as nat, 8, 0);
    law_numbers_stand_most_significant_first(c as nat, 8, 7);
    reveal_with_fuel(pow256, 9);
}

/// What was written as a number at a place reads back as that number, whatever stands
/// around it, and the number of a byte string is below what its length can hold.
pub proof fn law_numbers_read_back(front: Seq<u8>, value: u64, behind: Seq<u8>)
    ensures
        u64_at(front + be64(value) + behind, front.len() as int) == value,
        be_value(behind) < pow256(behind.len()),
{
    lemma_be_lens();
    let whole = front + be64(value) + behind;
    let at = front.len() as int;
    assert(whole.subrange(at, at + 8) =~= be64(value));
    lemma_write_then_read(whole, at);
    lemma_be_value_bound(behind);
}

/// A byte string behind its length reads back, with the place where it ends, whatever
/// stands around it.
pub proof fn law_counted_bytes_read_back(front: Seq<u8>, part: Seq<u8>, behind: Seq<u8>)
    requires
        part.len() <= u32::MAX,
    ensures
        counted(part).len() == 4 + part.len(),
        counted_at(front + counted(part) + behind, front.len() as int) == Some(
            (part, (front.len() + 4 + part.len()) as int),
        ),
{
    lemma_be_lens();
    let whole = front + counted(part) + behind;
    let at = front.len() as int;
    assert(whole.subrange(at, at + 4 + part.len()) =~= counted(part));
    lemma_counted(whole, at, part);
}

/// A digest is zero exactly if each of its thirty-two bytes is.
pub proof fn law_zero_digest_is_zero_in_every_byte(digest: [u8; 32])
    ensures
        zero_digest(digest) <==> digest@ == Seq::new(32, |i: int| 0u8),
{
    if zero_digest(digest) {
        assert(digest@ =~= Seq::new(32, |i: int| 0u8));
    } else {
        let zeros = Seq::new(32, |i: int| 0u8);
        if digest@ == zeros {
            assert forall|i: int| 0 <= i < 32 implies digest@[i] == 0 by {
                assert(zeros[i] == 0);
            }
        }
    }
}

} // verus!
