//! Commitments to a set of rows that arrive in any order.
//!
//! Every row has a digest of its own. The digests are combined twice, by exclusive or
//! and by addition modulo two to the power 256. Neither depends on the order of the
//! rows, and the sum also counts them.

use vstd::prelude::*;

use crate::bytes;

verus! {

/// Thirty-two bytes combined byte by byte.
pub open spec fn xored(a: Seq<u8>, b: Seq<u8>) -> Seq<u8> {
    Seq::new(32, |i: int| a[i] ^ b[i])
}

/// The sum of two big-endian numbers, cut to thirty-two bytes.
pub open spec fn summed(a: Seq<u8>, b: Seq<u8>) -> Seq<u8> {
    bytes::be_bytes(bytes::be_value(a) + bytes::be_value(b), 32)
}

/// A commitment with one more row in it.
pub open spec fn with_member(commitment: (Seq<u8>, Seq<u8>), member: [u8; 32]) -> (
    Seq<u8>,
    Seq<u8>,
) {
    (xored(commitment.0, member@), summed(commitment.1, member@))
}

/// The exclusive or and the sum of all members.
pub open spec fn committed(members: Seq<[u8; 32]>) -> (Seq<u8>, Seq<u8>) {
    members.fold_left(
        (bytes::ZERO_DIGEST@, bytes::ZERO_DIGEST@),
        |commitment: (Seq<u8>, Seq<u8>), member: [u8; 32]| with_member(commitment, member),
    )
}

/// Only the low bytes of a number are written.
proof fn lemma_be_bytes_wrap(value: nat, n: nat)
    ensures
        bytes::pow256(n) > 0,
        bytes::be_bytes(value, n) == bytes::be_bytes(value % bytes::pow256(n), n),
        bytes::be_value(bytes::be_bytes(value, n)) == value % bytes::pow256(n),
    decreases n,
{
    if n > 0 {
        let rest = bytes::pow256((n - 1) as nat);
        lemma_be_bytes_wrap(value / 256, (n - 1) as nat);
        let low = value % (256 * rest);
        vstd::arithmetic::div_mod::lemma_mod_breakdown(value as int, 256, rest as int);
        assert(low == 256 * ((value / 256) % rest) + value % 256);
        assert(low / 256 == (value / 256) % rest);
        assert(low % 256 == value % 256);
        lemma_be_bytes_wrap(low / 256, (n - 1) as nat);
        let written = bytes::be_bytes(value, n);
        assert(written.drop_last() =~= bytes::be_bytes(value / 256, (n - 1) as nat));
    } else {
        assert(value % 1 == 0);
    }
}

/// A byte in front counts for as much as the bytes behind it cannot hold.
pub proof fn lemma_be_value_behind(first: u8, s: Seq<u8>)
    ensures
        bytes::be_value(seq![first] + s) == first * bytes::pow256(s.len()) + bytes::be_value(s),
    decreases s.len(),
{
    let whole = seq![first] + s;
    if s.len() == 0 {
        assert(whole.drop_last() =~= Seq::<u8>::empty());
        assert(bytes::be_value(whole.drop_last()) == 0);
        assert(bytes::pow256(0) == 1);
        assert(first * bytes::pow256(s.len()) == first) by (nonlinear_arith)
            requires
                bytes::pow256(s.len()) == 1,
        ;
    } else {
        assert(whole.drop_last() =~= seq![first] + s.drop_last());
        assert(whole.last() == s.last());
        lemma_be_value_behind(first, s.drop_last());
        let rest = bytes::pow256((s.len() - 1) as nat);
        assert(first * rest * 256 == first * (256 * rest)) by (nonlinear_arith);
    }
}

/// The sum of two digests is their sum as numbers, modulo two to the power of their
/// bits.
pub proof fn law_sum_is_addition_modulo_the_width(a: Seq<u8>, b: Seq<u8>)
    ensures
        bytes::be_value(summed(a, b)) == (bytes::be_value(a) + bytes::be_value(b))
            % bytes::pow256(32),
        summed(a, b).len() == 32,
{
    lemma_be_bytes_wrap(bytes::be_value(a) + bytes::be_value(b), 32);
    bytes::lemma_be_bytes_len(bytes::be_value(a) + bytes::be_value(b), 32);
}

proof fn lemma_summed_commutes(a: Seq<u8>, b: Seq<u8>, c: Seq<u8>)
    ensures
        summed(summed(a, b), c) == summed(summed(a, c), b),
{
    let (x, y, z) = (bytes::be_value(a), bytes::be_value(b), bytes::be_value(c));
    let m = bytes::pow256(32);
    lemma_be_bytes_wrap(0, 32);
    law_sum_is_addition_modulo_the_width(a, b);
    law_sum_is_addition_modulo_the_width(a, c);
    lemma_be_bytes_wrap((x + y) % m + z, 32);
    lemma_be_bytes_wrap((x + z) % m + y, 32);
    vstd::arithmetic::div_mod::lemma_add_mod_noop((x + y) as int, z as int, m as int);
    vstd::arithmetic::div_mod::lemma_add_mod_noop(((x + y) % m) as int, z as int, m as int);
    vstd::arithmetic::div_mod::lemma_add_mod_noop((x + z) as int, y as int, m as int);
    vstd::arithmetic::div_mod::lemma_add_mod_noop(((x + z) % m) as int, y as int, m as int);
    vstd::arithmetic::div_mod::lemma_mod_twice((x + y) as int, m as int);
    vstd::arithmetic::div_mod::lemma_mod_twice((x + z) as int, m as int);
    assert(((x + y) % m + z) % m == ((x + z) % m + y) % m);
}

proof fn lemma_xored_commutes(a: Seq<u8>, b: Seq<u8>, c: Seq<u8>)
    ensures
        xored(xored(a, b), c) == xored(xored(a, c), b),
{
    assert forall|i: int| 0 <= i < 32 implies xored(xored(a, b), c)[i] == #[trigger] xored(
        xored(a, c),
        b,
    )[i] by {
        let (x, y, z) = (a[i], b[i], c[i]);
        assert((x ^ y) ^ z == (x ^ z) ^ y) by (bit_vector);
    }
    assert(xored(xored(a, b), c) =~= xored(xored(a, c), b));
}

/// Combines a digest into an exclusive or.
pub fn xor_256(target: &mut [u8; 32], value: &[u8; 32])
    ensures
        final(target)@ == xored(old(target)@, value@),
{
    let ghost before = target@;
    let mut i: usize = 0;
    while i < 32
        invariant
            i <= 32,
            before.len() == 32,
            target@.len() == 32,
            forall|k: int| 0 <= k < i ==> target@[k] == before[k] ^ value@[k],
            forall|k: int| i <= k < 32 ==> target@[k] == before[k],
        decreases 32 - i,
    {
        target[i] = target[i] ^ value[i];
        i += 1;
    }
    assert(target@ =~= xored(before, value@));
}

/// Adds a digest to a sum.
pub fn add_be_256(sum: &mut [u8; 32], value: [u8; 32])
    ensures
        final(sum)@ == summed(old(sum)@, value@),
{
    let ghost before = sum@;
    let mut carry: u16 = 0;
    let mut index: usize = 32;
    proof {
        assert(sum@.subrange(32, 32) =~= Seq::<u8>::empty());
        assert(value@.subrange(32, 32) =~= Seq::<u8>::empty());
        assert(before.subrange(32, 32) =~= Seq::<u8>::empty());
        bytes::lemma_pow256_small();
    }
    while index > 0
        invariant
            index <= 32,
            carry <= 1,
            before.len() == 32,
            sum@.len() == 32,
            value@.len() == 32,
            forall|k: int| 0 <= k < index ==> sum@[k] == before[k],
            bytes::be_value(sum@.subrange(index as int, 32)) + carry * bytes::pow256(
                (32 - index) as nat,
            ) == bytes::be_value(before.subrange(index as int, 32)) + bytes::be_value(
                value@.subrange(index as int, 32),
            ),
        decreases index,
    {
        let ghost behind = index as int;
        let ghost earlier = sum@;
        let ghost carried = carry;
        index -= 1;
        let total: u16 = sum[index] as u16 + value[index] as u16 + carry;
        let low: u8 = (total % 256) as u8;
        sum[index] = low;
        carry = total / 256;
        proof {
            let at = index as int;
            let width = bytes::pow256((32 - behind) as nat);
            let (a, b) = (before[at], value@[at]);
            assert(sum@.subrange(at, 32) =~= seq![low] + earlier.subrange(behind, 32));
            assert(before.subrange(at, 32) =~= seq![a] + before.subrange(behind, 32));
            assert(value@.subrange(at, 32) =~= seq![b] + value@.subrange(behind, 32));
            lemma_be_value_behind(low, earlier.subrange(behind, 32));
            lemma_be_value_behind(a, before.subrange(behind, 32));
            lemma_be_value_behind(b, value@.subrange(behind, 32));
            assert(total == carry * 256 + low);
            assert(total == a + b + carried);
            assert(bytes::pow256((32 - at) as nat) == 256 * width);
            assert(low * width + carry * (256 * width) == a * width + b * width + carried * width)
                by (nonlinear_arith)
                requires
                    carry * 256 + low == a + b + carried,
            ;
        }
    }
    proof {
        let all = bytes::be_value(before) + bytes::be_value(value@);
        let m = bytes::pow256(32);
        assert(sum@.subrange(0, 32) =~= sum@);
        assert(before.subrange(0, 32) =~= before);
        assert(value@.subrange(0, 32) =~= value@);
        bytes::lemma_be_value_bound(sum@);
        lemma_be_bytes_wrap(all, 32);
        assert(bytes::be_value(sum@) == all % m) by {
            vstd::arithmetic::div_mod::lemma_fundamental_div_mod_converse(
                all as int,
                m as int,
                carry as int,
                bytes::be_value(sum@) as int,
            );
        }
        bytes::lemma_be_bytes_of_value(sum@);
    }
}

/// Both combinations of rows that were met in some order.
#[derive(Clone, Copy, Debug, PartialEq, Eq)]
pub struct MultisetCommitment {
    pub xor: [u8; 32],
    pub sum: [u8; 32],
}

impl View for MultisetCommitment {
    type V = (Seq<u8>, Seq<u8>);

    open spec fn view(&self) -> (Seq<u8>, Seq<u8>) {
        (self.xor@, self.sum@)
    }
}

impl MultisetCommitment {
    pub fn empty() -> (commitment: Self)
        ensures
            commitment@ == committed(Seq::empty()),
    {
        proof {
            reveal_with_fuel(Seq::fold_left, 1);
        }
        MultisetCommitment { xor: bytes::ZERO_DIGEST, sum: bytes::ZERO_DIGEST }
    }

    pub fn add_member(&mut self, member: [u8; 32])
        ensures
            final(self)@ == with_member(old(self)@, member),
    {
        xor_256(&mut self.xor, &member);
        add_be_256(&mut self.sum, member);
    }

    pub fn same(&self, other: &Self) -> (same: bool)
        ensures
            same == (*self == *other),
    {
        bytes::array_equal::<32>(&self.xor, &other.xor) && bytes::array_equal::<32>(
            &self.sum,
            &other.sum,
        )
    }
}

/// A commitment grows by one member at a time.
pub proof fn lemma_committed_grows(members: Seq<[u8; 32]>, member: [u8; 32])
    ensures
        committed(members.push(member)) == with_member(committed(members), member),
{
    reveal_with_fuel(Seq::fold_left, 2);
    let whole = members.push(member);
    assert(whole.drop_last() =~= members);
    assert(whole.last() == member);
}

/// Two members may be exchanged.
pub proof fn lemma_members_commute(commitment: (Seq<u8>, Seq<u8>), a: [u8; 32], b: [u8; 32])
    ensures
        with_member(with_member(commitment, a), b) == with_member(with_member(commitment, b), a),
{
    lemma_xored_commutes(commitment.0, a@, b@);
    lemma_summed_commutes(commitment.1, a@, b@);
}

/// A commitment does not depend on the order in which its members were met.
pub proof fn law_commitment_is_order_independent(
    first: Seq<[u8; 32]>,
    second: Seq<[u8; 32]>,
)
    requires
        first.to_multiset() == second.to_multiset(),
    ensures
        committed(first) == committed(second),
{
    let grow = |commitment: (Seq<u8>, Seq<u8>), member: [u8; 32]| with_member(commitment, member);
    assert forall|a: [u8; 32], b: [u8; 32], commitment: (Seq<u8>, Seq<u8>)|
        #[trigger] grow(grow(commitment, a), b) == grow(grow(commitment, b), a) by {
        lemma_members_commute(commitment, a, b);
    }
    vstd::seq_lib::lemma_fold_left_permutation(
        first,
        second,
        grow,
        (bytes::ZERO_DIGEST@, bytes::ZERO_DIGEST@),
    );
}

/// One member more, unless it is all zero, changes the sum. A member that was met
/// twice is therefore not a member that was met once.
pub proof fn law_commitment_counts_its_members(members: Seq<[u8; 32]>, member: [u8; 32])
    requires
        !bytes::zero_digest(member),
    ensures
        committed(members.push(member)).1 != committed(members).1,
{
    lemma_committed_grows(members, member);
    let sum = committed(members).1;
    let m = bytes::pow256(32);
    law_sum_is_addition_modulo_the_width(sum, member@);
    lemma_be_bytes_wrap(0, 32);
    lemma_sum_is_bounded(members);
    bytes::lemma_be_value_bound(sum);
    bytes::lemma_be_value_bound(member@);
    lemma_nonzero_value(member@);
    let (x, y) = (bytes::be_value(sum), bytes::be_value(member@));
    if x + y < m {
        vstd::arithmetic::div_mod::lemma_small_mod((x + y) as nat, m);
    } else {
        vstd::arithmetic::div_mod::lemma_fundamental_div_mod_converse(
            (x + y) as int,
            m as int,
            1,
            x + y - m,
        );
    }
}

proof fn lemma_sum_is_bounded(members: Seq<[u8; 32]>)
    ensures
        committed(members).1.len() == 32,
{
    reveal_with_fuel(Seq::fold_left, 1);
    if members.len() > 0 {
        let front = members.drop_last();
        assert(members =~= front.push(members.last()));
        lemma_committed_grows(front, members.last());
        law_sum_is_addition_modulo_the_width(committed(front).1, members.last()@);
    }
}

/// A string of bytes that are not all zero has a value.
proof fn lemma_nonzero_value(s: Seq<u8>)
    requires
        exists|i: int| 0 <= i < s.len() && s[i] != 0,
    ensures
        bytes::be_value(s) > 0,
    decreases s.len(),
{
    let i = choose|i: int| 0 <= i < s.len() && s[i] != 0;
    if i < s.len() - 1 {
        assert(s.drop_last()[i] != 0);
        lemma_nonzero_value(s.drop_last());
    }
}

/// A commitment to nothing is zero in both halves. One more member is added to the first
/// half bit by bit without carry, and to the second as a number, modulo two to the power
/// of its bits.
pub proof fn law_commitment_adds_each_member(members: Seq<[u8; 32]>, member: [u8; 32])
    ensures
        committed(Seq::empty()).0 == Seq::new(32, |i: int| 0u8),
        committed(Seq::empty()).1 == Seq::new(32, |i: int| 0u8),
        forall|i: int|
            0 <= i < 32 ==> #[trigger] committed(members.push(member)).0[i] == committed(
                members,
            ).0[i] ^ member@[i],
        bytes::be_value(committed(members.push(member)).1) == (bytes::be_value(
            committed(members).1,
        ) + bytes::be_value(member@)) % bytes::pow256(32),
{
    reveal_with_fuel(Seq::fold_left, 1);
    assert(bytes::ZERO_DIGEST@ =~= Seq::new(32, |i: int| 0u8));
    lemma_committed_grows(members, member);
    law_sum_is_addition_modulo_the_width(committed(members).1, member@);
}

} // verus!
