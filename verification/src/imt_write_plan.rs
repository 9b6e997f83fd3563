//! The coordinated write of one checkpoint to the three tables of an indexed Merkle tree.
//!
//! The plan derives the rows of the key index and the moves of the append cursors from
//! the leaves and from the cursors as they stood before, so that a retry derives the
//! same rows again.

use vstd::prelude::*;

use crate::bytes;
use crate::bytes::{bytes_equal, push_bytes, push_i64, push_u32, push_u64, text_bytes};
use crate::hash;
use crate::hash::sha256_digest;
use crate::identity::ScyllaPhysicalTableId;
use crate::imt_family;
use crate::imt_family::{
    encode_raw_imt_key_for_sorting, read_cursor_move, require_rollback_key, ImtCheckpointWriteDigest,
    ImtCursorPutBinding, ImtCursorSnapshot, ImtCursorTransition, ImtIndexPutBinding,
    ImtLeafPutBinding, ImtPlanError, ResolvedScyllaMutation, SealedPut, SealedPutModel, Supplement,
    SupplementModel,
};
use crate::manifest_artifact_set;
use crate::manifest_artifact_set::sorts_before;
use crate::model::CheckpointId;
use crate::registry::Registry;
use crate::typed_key::{ImtEncodedKey, TypedKey, TypedTableKey};

verus! {

/// A sorted list with one more member, at the place where it belongs.
pub open spec fn placed_by<T>(less: spec_fn(T, T) -> bool, member: T, sorted: Seq<T>) -> Seq<T>
    decreases sorted.len(),
{
    if sorted.len() == 0 || less(sorted.last(), member) {
        sorted.push(member)
    } else {
        placed_by(less, member, sorted.drop_last()).push(sorted.last())
    }
}

/// The place is behind the last member that is less.
proof fn lemma_placed_at<T>(less: spec_fn(T, T) -> bool, member: T, sorted: Seq<T>, at: int)
    requires
        0 <= at <= sorted.len(),
        at > 0 ==> less(sorted[at - 1], member),
        forall|k: int| at <= k < sorted.len() ==> !less(#[trigger] sorted[k], member),
    ensures
        placed_by(less, member, sorted) == sorted.insert(at, member),
    decreases sorted.len(),
{
    if at == sorted.len() {
        assert(sorted.insert(at, member) =~= sorted.push(member));
    } else {
        let front = sorted.drop_last();
        assert(!less(sorted[sorted.len() - 1], member));
        assert forall|k: int| at <= k < front.len() implies !less(#[trigger] front[k], member) by {
            assert(front[k] == sorted[k]);
        }
        lemma_placed_at(less, member, front, at);
        assert(sorted.insert(at, member) =~= front.insert(at, member).push(sorted.last()));
    }
}

/// Each member is less than every later one.
pub open spec fn sorted_by<T>(less: spec_fn(T, T) -> bool, members: Seq<T>) -> bool {
    forall|i: int, j: int|
        0 <= i < j < members.len() ==> less(#[trigger] members[i], #[trigger] members[j])
}

/// A strict order in which of two different members one is less.
pub open spec fn transitive_order<T>(less: spec_fn(T, T) -> bool) -> bool {
    forall|a: T, b: T, c: T| #[trigger] less(a, b) && #[trigger] less(b, c) ==> less(a, c)
}

/// A sorted list stays sorted, and holds one more member.
proof fn lemma_placed_stays_sorted<T>(less: spec_fn(T, T) -> bool, member: T, sorted: Seq<T>)
    requires
        sorted_by(less, sorted),
        transitive_order(less),
        forall|k: int| 0 <= k < sorted.len() ==> less(#[trigger] sorted[k], member) || less(
            member,
            sorted[k],
        ),
    ensures
        sorted_by(less, placed_by(less, member, sorted)),
        placed_by(less, member, sorted).to_multiset() == sorted.to_multiset().insert(member),
        forall|other: T| #[trigger]
            placed_by(less, member, sorted).contains(other) <==> sorted.contains(other) || other
                == member,
    decreases sorted.len(),
{
    broadcast use vstd::seq_lib::group_to_multiset_ensures;

    let placed = placed_by(less, member, sorted);
    if sorted.len() == 0 || less(sorted.last(), member) {
        assert forall|i: int, j: int| 0 <= i < j < placed.len() implies less(
            #[trigger] placed[i],
            #[trigger] placed[j],
        ) by {
            if j == sorted.len() && i < sorted.len() - 1 {
                assert(less(sorted[i], sorted[sorted.len() - 1]));
            }
        }
        assert forall|other: T| #[trigger] placed.contains(other) <==> sorted.contains(other)
            || other == member by {
            if sorted.contains(other) {
                let k = choose|k: int| 0 <= k < sorted.len() && sorted[k] == other;
                assert(placed[k] == other);
            }
            if other == member {
                assert(placed[sorted.len() as int] == other);
            }
        }
    } else {
        let front = sorted.drop_last();
        let last = sorted.last();
        assert(sorted[sorted.len() - 1] == last);
        assert(less(member, last));
        assert forall|i: int, j: int| 0 <= i < j < front.len() implies less(
            #[trigger] front[i],
            #[trigger] front[j],
        ) by {
            assert(less(sorted[i], sorted[j]));
        }
        assert forall|k: int| 0 <= k < front.len() implies less(#[trigger] front[k], member)
            || less(member, front[k]) by {
            assert(sorted[k] == front[k]);
        }
        lemma_placed_stays_sorted(less, member, front);
        let inner = placed_by(less, member, front);
        assert forall|i: int, j: int| 0 <= i < j < placed.len() implies less(
            #[trigger] placed[i],
            #[trigger] placed[j],
        ) by {
            if j == inner.len() {
                assert(inner.contains(placed[i]));
                if placed[i] != member {
                    let k = choose|k: int| 0 <= k < front.len() && front[k] == placed[i];
                    assert(less(sorted[k], sorted[sorted.len() - 1]));
                }
            } else {
                assert(less(inner[i], inner[j]));
            }
        }
        assert(sorted =~= front.push(last));
        assert(sorted.to_multiset() =~= front.to_multiset().insert(last));
        assert(placed.to_multiset() =~= inner.to_multiset().insert(last));
        assert(placed.to_multiset() =~= sorted.to_multiset().insert(member));
        assert forall|other: T| #[trigger] placed.contains(other) <==> sorted.contains(other)
            || other == member by {
            if placed.contains(other) {
                let k = choose|k: int| 0 <= k < placed.len() && placed[k] == other;
                if k < inner.len() {
                    assert(inner.contains(other));
                    if front.contains(other) {
                        let m = choose|m: int| 0 <= m < front.len() && front[m] == other;
                        assert(sorted[m] == other);
                    }
                }
            }
            if sorted.contains(other) {
                let k = choose|k: int| 0 <= k < sorted.len() && sorted[k] == other;
                if k < front.len() {
                    assert(front[k] == other);
                    assert(inner.contains(other));
                    let m = choose|m: int| 0 <= m < inner.len() && inner[m] == other;
                    assert(placed[m] == other);
                } else {
                    assert(placed[inner.len() as int] == other);
                }
            }
            if other == member {
                assert(inner.contains(member));
                let m = choose|m: int| 0 <= m < inner.len() && inner[m] == other;
                assert(placed[m] == other);
            }
        }
    }
}

/// Whether a tree comes before another.
pub open spec fn tree_less(a: (u64, u64), b: (u64, u64)) -> bool {
    a.0 < b.0 || (a.0 == b.0 && a.1 < b.1)
}

pub open spec fn image_tree(image: ImtCursorSnapshot) -> (u64, u64) {
    (image.tree, image.tree_sub)
}

/// Cursors in the order of their trees.
pub open spec fn image_order() -> spec_fn(ImtCursorSnapshot, ImtCursorSnapshot) -> bool {
    |a: ImtCursorSnapshot, b: ImtCursorSnapshot| tree_less(image_tree(a), image_tree(b))
}

/// Whether some cursor is that of a tree.
pub open spec fn has_tree(images: Seq<ImtCursorSnapshot>, tree: (u64, u64)) -> bool {
    exists|i: int| 0 <= i < images.len() && image_tree(#[trigger] images[i]) == tree
}

/// The first `count` cursors in the order of their trees; no tree has two.
pub open spec fn ordered_images(images: Seq<ImtCursorSnapshot>, count: nat) -> Result<
    Seq<ImtCursorSnapshot>,
    ImtPlanError,
>
    decreases count,
{
    if count == 0 {
        Ok(Seq::empty())
    } else {
        match ordered_images(images, (count - 1) as nat) {
            Err(error) => Err(error),
            Ok(sorted) => if has_tree(sorted, image_tree(images[count - 1])) {
                Err(ImtPlanError::DuplicateCursorBeforeImage)
            } else {
                Ok(placed_by(image_order(), images[count - 1], sorted))
            },
        }
    }
}

proof fn lemma_images_fail(images: Seq<ImtCursorSnapshot>, fewer: nat, count: nat)
    requires
        fewer <= count,
        ordered_images(images, fewer) is Err,
    ensures
        ordered_images(images, count) == ordered_images(images, fewer),
    decreases count,
{
    if fewer < count {
        lemma_images_fail(images, fewer, (count - 1) as nat);
    }
}

proof fn lemma_images_sorted(images: Seq<ImtCursorSnapshot>, count: nat)
    requires
        count <= images.len(),
    ensures
        ordered_images(images, count) matches Ok(sorted) ==> sorted_by(image_order(), sorted)
            && sorted.to_multiset() == images.take(count as int).to_multiset(),
    decreases count,
{
    broadcast use vstd::seq_lib::group_to_multiset_ensures;

    if count == 0 {
        assert(images.take(0) =~= Seq::<ImtCursorSnapshot>::empty());
    } else {
        let before = (count - 1) as nat;
        lemma_images_sorted(images, before);
        assert(images.take(count as int) =~= images.take(before as int).push(
            images[count - 1],
        ));
        if let Ok(sorted) = ordered_images(images, before) {
            let image = images[count - 1];
            if !has_tree(sorted, image_tree(image)) {
                lemma_placed_stays_sorted(image_order(), image, sorted);
            }
        }
    }
}

fn comes_before(a: &ImtCursorSnapshot, b: &ImtCursorSnapshot) -> (before: bool)
    ensures
        before == tree_less(image_tree(*a), image_tree(*b)),
{
    a.tree < b.tree || (a.tree == b.tree && a.tree_sub < b.tree_sub)
}

fn order_images(images: &[ImtCursorSnapshot]) -> (result: Result<
    Vec<ImtCursorSnapshot>,
    ImtPlanError,
>)
    ensures
        match result {
            Ok(sorted) => ordered_images(images@, images@.len()) == Ok::<_, ImtPlanError>(sorted@),
            Err(error) => ordered_images(images@, images@.len()) == Err::<
                Seq<ImtCursorSnapshot>,
                _,
            >(error),
        },
{
    let mut sorted: Vec<ImtCursorSnapshot> = Vec::new();
    let mut i: usize = 0;
    while i < images.len()
        invariant
            i <= images@.len(),
            ordered_images(images@, i as nat) == Ok::<_, ImtPlanError>(sorted@),
        decreases images@.len() - i,
    {
        let image = images[i];
        proof {
            let reached = (i + 1) as nat;
            if ordered_images(images@, reached) is Err {
                lemma_images_fail(images@, reached, images@.len());
            }
            lemma_images_sorted(images@, i as nat);
        }
        let mut at: usize = sorted.len();
        while at > 0 && !comes_before(&sorted[at - 1], &image)
            invariant
                at <= sorted@.len(),
                forall|k: int| at <= k < sorted@.len() ==> tree_less(
                    image_tree(image),
                    image_tree(#[trigger] sorted@[k]),
                ),
                ordered_images(images@, (i + 1) as nat) is Err ==> ordered_images(
                    images@,
                    images@.len(),
                ) == ordered_images(images@, (i + 1) as nat),
                ordered_images(images@, i as nat) == Ok::<_, ImtPlanError>(sorted@),
                i < images@.len(),
                image == images@[i as int],
            decreases at,
        {
            if sorted[at - 1].tree == image.tree && sorted[at - 1].tree_sub == image.tree_sub {
                proof {
                    assert(image_tree(sorted@[at - 1]) == image_tree(image));
                    assert(has_tree(sorted@, image_tree(image)));
                }
                return Err(ImtPlanError::DuplicateCursorBeforeImage);
            }
            at -= 1;
        }
        proof {
            assert forall|k: int| at <= k < sorted@.len() implies !image_order()(
                #[trigger] sorted@[k],
                image,
            ) by {}
            assert forall|k: int| 0 <= k < sorted@.len() implies image_tree(#[trigger] sorted@[k])
                != image_tree(image) by {
                if k < at - 1 {
                    assert(image_order()(sorted@[k], sorted@[at - 1]));
                }
            }
            lemma_placed_at(image_order(), image, sorted@, at as int);
        }
        sorted.insert(at, image);
        i += 1;
    }
    Ok(sorted)
}

/// The leaves of the first `count` puts; all of one checkpoint and one write timestamp.
pub open spec fn leaves_of(sealed: Seq<SealedPutModel>, count: nat) -> Result<
    Seq<ImtLeafPutBinding>,
    ImtPlanError,
>
    decreases count,
{
    if count == 0 {
        Ok(Seq::empty())
    } else {
        match leaves_of(sealed, (count - 1) as nat) {
            Err(error) => Err(error),
            Ok(leaves) => match imt_family::leaf_binding(sealed[count - 1]) {
                Err(error) => Err(error),
                Ok(leaf) => if leaves.len() > 0 && leaf.checkpoint != leaves[0].checkpoint {
                    Err(
                        ImtPlanError::MixedCheckpoints {
                            expected: leaves[0].checkpoint,
                            actual: leaf.checkpoint,
                        },
                    )
                } else if leaves.len() > 0 && leaf.write_timestamp_us
                    != leaves[0].write_timestamp_us {
                    Err(
                        ImtPlanError::MixedWriteTimestamps {
                            expected: leaves[0].write_timestamp_us,
                            actual: leaf.write_timestamp_us,
                        },
                    )
                } else {
                    Ok(leaves.push(leaf))
                },
            },
        }
    }
}

proof fn lemma_leaves_fail(sealed: Seq<SealedPutModel>, fewer: nat, count: nat)
    requires
        fewer <= count,
        leaves_of(sealed, fewer) is Err,
    ensures
        leaves_of(sealed, count) == leaves_of(sealed, fewer),
    decreases count,
{
    if fewer < count {
        lemma_leaves_fail(sealed, fewer, (count - 1) as nat);
    }
}

proof fn lemma_leaves_agree(sealed: Seq<SealedPutModel>, count: nat)
    ensures
        leaves_of(sealed, count) matches Ok(leaves) ==> leaves.len() == count && forall|i: int|
            0 <= i < count ==> (#[trigger] leaves[i]).checkpoint == leaves[0].checkpoint
                && leaves[i].write_timestamp_us == leaves[0].write_timestamp_us,
    decreases count,
{
    if count > 0 {
        lemma_leaves_agree(sealed, (count - 1) as nat);
    }
}

/// The views of a list of puts.
pub open spec fn put_models(sealed: Seq<SealedPut>) -> Seq<SealedPutModel> {
    sealed.map_values(|put: SealedPut| put@)
}

fn read_leaves(sealed: &[SealedPut]) -> (result: Result<Vec<ImtLeafPutBinding>, ImtPlanError>)
    ensures
        match result {
            Ok(leaves) => leaves_of(put_models(sealed@), sealed@.len()) == Ok::<_, ImtPlanError>(
                leaves@,
            ),
            Err(error) => leaves_of(put_models(sealed@), sealed@.len()) == Err::<
                Seq<ImtLeafPutBinding>,
                _,
            >(error),
        },
{
    let ghost models = put_models(sealed@);
    let mut leaves: Vec<ImtLeafPutBinding> = Vec::new();
    let mut i: usize = 0;
    while i < sealed.len()
        invariant
            i <= sealed@.len(),
            models == put_models(sealed@),
            leaves@.len() == i,
            leaves_of(models, i as nat) == Ok::<_, ImtPlanError>(leaves@),
        decreases sealed@.len() - i,
    {
        proof {
            let reached = (i + 1) as nat;
            assert(models[i as int] == sealed@[i as int]@);
            if leaves_of(models, reached) is Err {
                lemma_leaves_fail(models, reached, models.len());
            }
        }
        let leaf = ImtLeafPutBinding::try_from_sealed(&sealed[i])?;
        if i > 0 {
            if leaf.checkpoint != leaves[0].checkpoint {
                return Err(
                    ImtPlanError::MixedCheckpoints {
                        expected: leaves[0].checkpoint,
                        actual: leaf.checkpoint,
                    },
                );
            }
            if leaf.write_timestamp_us != leaves[0].write_timestamp_us {
                return Err(
                    ImtPlanError::MixedWriteTimestamps {
                        expected: leaves[0].write_timestamp_us,
                        actual: leaf.write_timestamp_us,
                    },
                );
            }
        }
        leaves.push(leaf);
        i += 1;
    }
    Ok(leaves)
}

pub open spec fn leaf_tree(leaf: ImtLeafPutBinding) -> (u64, u64) {
    (leaf.tree, leaf.tree_sub)
}

/// Whether some leaf is that of a tree.
pub open spec fn has_leaf_of(leaves: Seq<ImtLeafPutBinding>, tree: (u64, u64)) -> bool {
    exists|i: int| 0 <= i < leaves.len() && leaf_tree(#[trigger] leaves[i]) == tree
}

/// Every tree of a leaf has a cursor, and every cursor is that of a leaf's tree.
pub open spec fn images_cover(
    leaves: Seq<ImtLeafPutBinding>,
    images: Seq<ImtCursorSnapshot>,
) -> bool {
    &&& forall|i: int| 0 <= i < leaves.len() ==> has_tree(images, leaf_tree(#[trigger] leaves[i]))
    &&& forall|i: int|
        0 <= i < images.len() ==> has_leaf_of(leaves, image_tree(#[trigger] images[i]))
}

fn has_image(images: &Vec<ImtCursorSnapshot>, tree: u64, tree_sub: u64) -> (found: bool)
    ensures
        found == has_tree(images@, (tree, tree_sub)),
{
    let mut i: usize = 0;
    while i < images.len()
        invariant
            i <= images@.len(),
            forall|k: int| 0 <= k < i ==> image_tree(#[trigger] images@[k]) != (tree, tree_sub),
        decreases images@.len() - i,
    {
        if images[i].tree == tree && images[i].tree_sub == tree_sub {
            assert(image_tree(images@[i as int]) == (tree, tree_sub));
            return true;
        }
        i += 1;
    }
    false
}

fn has_leaf(leaves: &Vec<ImtLeafPutBinding>, tree: u64, tree_sub: u64) -> (found: bool)
    ensures
        found == has_leaf_of(leaves@, (tree, tree_sub)),
{
    let mut i: usize = 0;
    while i < leaves.len()
        invariant
            i <= leaves@.len(),
            forall|k: int| 0 <= k < i ==> leaf_tree(#[trigger] leaves@[k]) != (tree, tree_sub),
        decreases leaves@.len() - i,
    {
        if leaves[i].tree == tree && leaves[i].tree_sub == tree_sub {
            assert(leaf_tree(leaves@[i as int]) == (tree, tree_sub));
            return true;
        }
        i += 1;
    }
    false
}

fn covers(leaves: &Vec<ImtLeafPutBinding>, images: &Vec<ImtCursorSnapshot>) -> (covered: bool)
    ensures
        covered == images_cover(leaves@, images@),
{
    let mut i: usize = 0;
    while i < leaves.len()
        invariant
            i <= leaves@.len(),
            forall|k: int| 0 <= k < i ==> has_tree(images@, leaf_tree(#[trigger] leaves@[k])),
        decreases leaves@.len() - i,
    {
        if !has_image(images, leaves[i].tree, leaves[i].tree_sub) {
            assert(!has_tree(images@, leaf_tree(leaves@[i as int])));
            return false;
        }
        i += 1;
    }
    let mut k: usize = 0;
    while k < images.len()
        invariant
            k <= images@.len(),
            forall|m: int| 0 <= m < k ==> has_leaf_of(leaves@, image_tree(#[trigger] images@[m])),
        decreases images@.len() - k,
    {
        if !has_leaf(leaves, images[k].tree, images[k].tree_sub) {
            assert(!has_leaf_of(leaves@, image_tree(images@[k as int])));
            return false;
        }
        k += 1;
    }
    true
}

/// A leaf's place: its tree and its number.
pub open spec fn leaf_place(leaf: ImtLeafPutBinding) -> (u64, u64, u64) {
    (leaf.tree, leaf.tree_sub, leaf.leaf)
}

/// Whether some leaf stands at a place.
pub open spec fn has_place(leaves: Seq<ImtLeafPutBinding>, place: (u64, u64, u64)) -> bool {
    exists|i: int| 0 <= i < leaves.len() && leaf_place(#[trigger] leaves[i]) == place
}

fn has_leaf_at(leaves: &Vec<ImtLeafPutBinding>, leaf: &ImtLeafPutBinding) -> (found: bool)
    ensures
        found == has_place(leaves@, leaf_place(*leaf)),
{
    let mut i: usize = 0;
    while i < leaves.len()
        invariant
            i <= leaves@.len(),
            forall|k: int| 0 <= k < i ==> leaf_place(#[trigger] leaves@[k]) != leaf_place(*leaf),
        decreases leaves@.len() - i,
    {
        if leaves[i].tree == leaf.tree && leaves[i].tree_sub == leaf.tree_sub && leaves[i].leaf
            == leaf.leaf {
            assert(leaf_place(leaves@[i as int]) == leaf_place(*leaf));
            return true;
        }
        i += 1;
    }
    false
}

/// What a row of the key index is filed under.
pub open spec fn index_place(index: ImtIndexPutBinding) -> (u64, u64, Seq<u8>) {
    (index.tree, index.tree_sub, index.encoded_key.bytes@)
}

pub open spec fn index_less(a: (u64, u64, Seq<u8>), b: (u64, u64, Seq<u8>)) -> bool {
    tree_less((a.0, a.1), (b.0, b.1)) || (a.0 == b.0 && a.1 == b.1
        && manifest_artifact_set::precedes(a.2, b.2))
}

/// Index rows in the order of what they are filed under.
pub open spec fn index_order() -> spec_fn(ImtIndexPutBinding, ImtIndexPutBinding) -> bool {
    |a: ImtIndexPutBinding, b: ImtIndexPutBinding| index_less(index_place(a), index_place(b))
}

/// The index row that a leaf makes.
pub open spec fn index_of(leaf: ImtLeafPutBinding) -> ImtIndexPutBinding {
    ImtIndexPutBinding {
        tree: leaf.tree,
        tree_sub: leaf.tree_sub,
        encoded_key: ImtEncodedKey { bytes: bytes::array_of::<32>(leaf.leaf_key@.reverse()) },
        leaf_key: leaf.leaf_key,
        birth_checkpoint: leaf.checkpoint,
        leaf: leaf.leaf,
        write_timestamp_us: leaf.write_timestamp_us,
    }
}

fn index_row(leaf: &ImtLeafPutBinding) -> (index: ImtIndexPutBinding)
    ensures
        index == index_of(*leaf),
{
    let encoded = encode_raw_imt_key_for_sorting(leaf.leaf_key);
    proof {
        bytes::lemma_array_of::<32>(encoded);
    }
    ImtIndexPutBinding {
        tree: leaf.tree,
        tree_sub: leaf.tree_sub,
        encoded_key: ImtEncodedKey::new(encoded),
        leaf_key: leaf.leaf_key,
        birth_checkpoint: leaf.checkpoint,
        leaf: leaf.leaf,
        write_timestamp_us: leaf.write_timestamp_us,
    }
}

/// The key of an index row.
pub open spec fn index_key(index: ImtIndexPutBinding) -> TypedTableKey<Seq<u8>> {
    TypedTableKey::ImtKeyIndex {
        tree: index.tree,
        tree_sub: index.tree_sub,
        encoded_key: index.encoded_key,
    }
}

/// The index rows with one more. One that is there already has to be the same.
pub open spec fn with_index(
    registry: &Registry,
    indexes: Seq<ImtIndexPutBinding>,
    index: ImtIndexPutBinding,
) -> Result<Seq<ImtIndexPutBinding>, ImtPlanError> {
    match imt_family::readiness_refusal(registry, index_key(index)) {
        Some(error) => Err(error),
        None => if indexes.contains(index) {
            Ok(indexes)
        } else if exists|i: int|
            0 <= i < indexes.len() && index_place(#[trigger] indexes[i]) == index_place(index) {
            Err(ImtPlanError::ConflictingIndexBirth)
        } else {
            Ok(placed_by(index_order(), index, indexes))
        },
    }
}

/// The leaves that are written and the index rows that they make, of the first `count`
/// leaves. A leaf that comes twice is written as it came first.
pub open spec fn rows_of(registry: &Registry, leaves: Seq<ImtLeafPutBinding>, count: nat) -> Result<
    (Seq<ImtLeafPutBinding>, Seq<ImtIndexPutBinding>),
    ImtPlanError,
>
    decreases count,
{
    if count == 0 {
        Ok((Seq::empty(), Seq::empty()))
    } else {
        match rows_of(registry, leaves, (count - 1) as nat) {
            Err(error) => Err(error),
            Ok((puts, indexes)) => {
                let leaf = leaves[count - 1];
                let more = if has_place(puts, leaf_place(leaf)) {
                    puts
                } else {
                    puts.push(leaf)
                };
                if leaf.leaf == u64::MAX {
                    Err(ImtPlanError::LeafIndexOverflow)
                } else if !leaf.spec_creates_index() {
                    Ok((more, indexes))
                } else {
                    match with_index(registry, indexes, index_of(leaf)) {
                        Err(error) => Err(error),
                        Ok(indexes) => Ok((more, indexes)),
                    }
                }
            },
        }
    }
}

proof fn lemma_rows_fail(
    registry: &Registry,
    leaves: Seq<ImtLeafPutBinding>,
    fewer: nat,
    count: nat,
)
    requires
        fewer <= count,
        rows_of(registry, leaves, fewer) is Err,
    ensures
        rows_of(registry, leaves, count) == rows_of(registry, leaves, fewer),
    decreases count,
{
    if fewer < count {
        lemma_rows_fail(registry, leaves, fewer, (count - 1) as nat);
    }
}

/// Byte strings of one length are ordered by their bytes, one way or the other.
proof fn lemma_precedes_is_an_order(a: Seq<u8>, b: Seq<u8>)
    requires
        a.len() == b.len(),
    ensures
        a == b || manifest_artifact_set::precedes(a, b) || manifest_artifact_set::precedes(b, a),
        manifest_artifact_set::precedes(a, b) ==> a != b && !manifest_artifact_set::precedes(b, a),
    decreases a.len(),
{
    if a.len() > 0 {
        lemma_precedes_is_an_order(a.drop_first(), b.drop_first());
        if a[0] == b[0] && a.drop_first() == b.drop_first() {
            assert(a =~= seq![a[0]] + a.drop_first());
            assert(b =~= seq![b[0]] + b.drop_first());
        }
    } else {
        assert(a =~= b);
    }
}

proof fn lemma_precedes_is_transitive(a: Seq<u8>, b: Seq<u8>, c: Seq<u8>)
    requires
        manifest_artifact_set::precedes(a, b),
        manifest_artifact_set::precedes(b, c),
    ensures
        manifest_artifact_set::precedes(a, c),
    decreases c.len(),
{
    if a.len() > 0 && b.len() > 0 && c.len() > 0 && a[0] == b[0] && b[0] == c[0] {
        lemma_precedes_is_transitive(a.drop_first(), b.drop_first(), c.drop_first());
    }
}

proof fn lemma_index_order()
    ensures
        transitive_order(index_order()),
        forall|a: ImtIndexPutBinding, b: ImtIndexPutBinding|
            index_place(a) == index_place(b) || #[trigger] index_order()(a, b) || index_order()(
                b,
                a,
            ),
        forall|a: ImtIndexPutBinding, b: ImtIndexPutBinding|
            #[trigger] index_order()(a, b) ==> index_place(a) != index_place(b),
{
    let less = index_order();
    assert forall|a: ImtIndexPutBinding, b: ImtIndexPutBinding, c: ImtIndexPutBinding|
        #[trigger] less(a, b) && #[trigger] less(b, c) implies less(a, c) by {
        if index_place(a).0 == index_place(c).0 && index_place(a).1 == index_place(c).1 {
            lemma_precedes_is_transitive(index_place(a).2, index_place(b).2, index_place(c).2);
        }
    }
    assert forall|a: ImtIndexPutBinding, b: ImtIndexPutBinding|
        index_place(a) == index_place(b) || #[trigger] less(a, b) || less(b, a) by {
        lemma_precedes_is_an_order(index_place(a).2, index_place(b).2);
    }
    assert forall|a: ImtIndexPutBinding, b: ImtIndexPutBinding| #[trigger] less(a, b) implies
        index_place(a) != index_place(b) by {
        lemma_precedes_is_an_order(index_place(a).2, index_place(b).2);
    }
}

proof fn lemma_rows_are_sorted(registry: &Registry, leaves: Seq<ImtLeafPutBinding>, count: nat)
    ensures
        rows_of(registry, leaves, count) matches Ok((_, indexes)) ==> sorted_by(
            index_order(),
            indexes,
        ),
    decreases count,
{
    if count > 0 {
        lemma_rows_are_sorted(registry, leaves, (count - 1) as nat);
        lemma_index_order();
        if let Ok((puts, indexes)) = rows_of(registry, leaves, (count - 1) as nat) {
            let index = index_of(leaves[count - 1]);
            if !(exists|i: int|
                0 <= i < indexes.len() && index_place(#[trigger] indexes[i]) == index_place(index))
            {
                lemma_placed_stays_sorted(index_order(), index, indexes);
            }
        }
    }
}

fn index_comes_before(a: &ImtIndexPutBinding, b: &ImtIndexPutBinding) -> (before: bool)
    ensures
        before == index_less(index_place(*a), index_place(*b)),
{
    a.tree < b.tree || (a.tree == b.tree && (a.tree_sub < b.tree_sub || (a.tree_sub == b.tree_sub
        && sorts_before(&a.encoded_key.bytes, &b.encoded_key.bytes))))
}

/// Files an index row at its place.
fn file_index(indexes: &mut Vec<ImtIndexPutBinding>, index: ImtIndexPutBinding, registry: &Registry) -> (result:
    Result<(), ImtPlanError>)
    requires
        sorted_by(index_order(), old(indexes)@),
    ensures
        match with_index(registry, old(indexes)@, index) {
            Ok(more) => result is Ok && final(indexes)@ == more,
            Err(error) => result == Err::<(), ImtPlanError>(error) && final(indexes)@ == old(
                indexes,
            )@,
        },
{
    let key: TypedKey = TypedTableKey::ImtKeyIndex {
        tree: index.tree,
        tree_sub: index.tree_sub,
        encoded_key: index.encoded_key,
    };
    assert(key@ == index_key(index));
    require_rollback_key(registry, &key, ScyllaPhysicalTableId::ImtKeyIndex)?;
    let ghost before = indexes@;
    let mut at: usize = indexes.len();
    proof {
        lemma_index_order();
    }
    while at > 0 && !index_comes_before(&indexes[at - 1], &index)
        invariant
            at <= indexes@.len(),
            indexes@ == before,
            before == old(indexes)@,
            sorted_by(index_order(), before),
            imt_family::readiness_refusal(registry, index_key(index)) is None,
            forall|k: int| at <= k < before.len() ==> index_order()(index, #[trigger] before[k]),
        decreases at,
    {
        proof {
            lemma_index_order();
        }
        let existing = indexes[at - 1];
        if existing.tree == index.tree && existing.tree_sub == index.tree_sub
            && existing.encoded_key.same(&index.encoded_key) {
            assert(index_place(before[at - 1]) == index_place(index));
            if !existing.same(&index) {
                proof {
                    assert forall|k: int| 0 <= k < before.len() implies before[k] != index by {
                        if k < at - 1 {
                            assert(index_order()(before[k], before[at - 1]));
                        } else if k >= at {
                            assert(index_order()(index, before[k]));
                        }
                    }
                }
                return Err(ImtPlanError::ConflictingIndexBirth);
            }
            assert(before.contains(index));
            return Ok(());
        }
        proof {
            let other = before[at - 1];
            if index_place(other) == index_place(index) {
                bytes::lemma_array_eq::<32>(other.encoded_key.bytes, index.encoded_key.bytes);
            }
            assert(index_order()(other, index) || index_order()(index, other));
        }
        at -= 1;
    }
    proof {
        lemma_index_order();
        assert forall|k: int| 0 <= k < before.len() implies index_place(#[trigger] before[k])
            != index_place(index) by {
            if k < at {
                if k < at - 1 {
                    assert(index_order()(before[k], before[at - 1]));
                }
                assert(index_order()(before[at - 1], index));
                assert(index_order()(before[k], index));
            } else {
                assert(index_order()(index, before[k]));
            }
        }
        assert forall|k: int| at <= k < before.len() implies !index_order()(
            #[trigger] before[k],
            index,
        ) by {
            assert(index_order()(index, before[k]));
            if index_order()(before[k], index) {
                assert(index_order()(index, index));
            }
        }
        assert(!before.contains(index));
        lemma_placed_at(index_order(), index, before, at as int);
    }
    indexes.insert(at, index);
    Ok(())
}

/// The leaves that are written and the index rows that they make.
fn make_rows(leaves: &Vec<ImtLeafPutBinding>, registry: &Registry) -> (result: Result<
    (Vec<ImtLeafPutBinding>, Vec<ImtIndexPutBinding>),
    ImtPlanError,
>)
    ensures
        match result {
            Ok((puts, indexes)) => rows_of(registry, leaves@, leaves@.len()) == Ok::<
                _,
                ImtPlanError,
            >((puts@, indexes@)),
            Err(error) => rows_of(registry, leaves@, leaves@.len()) == Err::<
                (Seq<ImtLeafPutBinding>, Seq<ImtIndexPutBinding>),
                _,
            >(error),
        },
{
    let mut puts: Vec<ImtLeafPutBinding> = Vec::new();
    let mut indexes: Vec<ImtIndexPutBinding> = Vec::new();
    let mut i: usize = 0;
    while i < leaves.len()
        invariant
            i <= leaves@.len(),
            rows_of(registry, leaves@, i as nat) == Ok::<_, ImtPlanError>((puts@, indexes@)),
        decreases leaves@.len() - i,
    {
        let leaf = leaves[i];
        proof {
            let reached = (i + 1) as nat;
            lemma_rows_are_sorted(registry, leaves@, i as nat);
            if rows_of(registry, leaves@, reached) is Err {
                lemma_rows_fail(registry, leaves@, reached, leaves@.len());
            }
        }
        if !has_leaf_at(&puts, &leaf) {
            puts.push(leaf);
        }
        if leaf.leaf == u64::MAX {
            return Err(ImtPlanError::LeafIndexOverflow);
        }
        if leaf.creates_index() {
            file_index(&mut indexes, index_row(&leaf), registry)?;
        }
        i += 1;
    }
    Ok((puts, indexes))
}

/// Where the append cursor of a tree has to stand behind the first `count` leaves.
pub open spec fn next_behind(leaves: Seq<ImtLeafPutBinding>, tree: (u64, u64), count: nat) -> nat
    decreases count,
{
    if count == 0 {
        0
    } else {
        let before = next_behind(leaves, tree, (count - 1) as nat);
        let leaf = leaves[count - 1];
        if leaf_tree(leaf) == tree && leaf.leaf + 1 > before {
            (leaf.leaf + 1) as nat
        } else {
            before
        }
    }
}

proof fn lemma_next_is_behind_all(leaves: Seq<ImtLeafPutBinding>, tree: (u64, u64), count: nat)
    requires
        count <= leaves.len(),
    ensures
        forall|i: int|
            0 <= i < count && leaf_tree(#[trigger] leaves[i]) == tree ==> leaves[i].leaf
                < next_behind(leaves, tree, count),
        next_behind(leaves, tree, count) <= u64::MAX + 1,
        (forall|i: int| 0 <= i < count ==> (#[trigger] leaves[i]).leaf < u64::MAX) ==> next_behind(
            leaves,
            tree,
            count,
        ) <= u64::MAX,
    decreases count,
{
    if count > 0 {
        lemma_next_is_behind_all(leaves, tree, (count - 1) as nat);
    }
}

/// The cursor of a tree behind its leaves: it never moves back.
pub open spec fn moved_cursor(
    leaves: Seq<ImtLeafPutBinding>,
    image: ImtCursorSnapshot,
) -> ImtCursorPutBinding {
    let requested = next_behind(leaves, image_tree(image), leaves.len()) as u64;
    let next = if requested > image.next_append_index {
        requested
    } else {
        image.next_append_index
    };
    ImtCursorPutBinding {
        before: image,
        after: ImtCursorSnapshot { next_append_index: next, ..image },
        transition: ImtCursorTransition {
            checkpoint: leaves[0].checkpoint,
            before: image.next_append_index,
            after: next,
        },
        write_timestamp_us: leaves[0].write_timestamp_us,
    }
}

/// The moves of the first `count` cursors.
pub open spec fn cursors_of(
    registry: &Registry,
    leaves: Seq<ImtLeafPutBinding>,
    images: Seq<ImtCursorSnapshot>,
    count: nat,
) -> Result<Seq<ImtCursorPutBinding>, ImtPlanError>
    decreases count,
{
    if count == 0 {
        Ok(Seq::empty())
    } else {
        match cursors_of(registry, leaves, images, (count - 1) as nat) {
            Err(error) => Err(error),
            Ok(cursors) => match imt_family::readiness_refusal(
                registry,
                TypedTableKey::ImtCursor {
                    tree: images[count - 1].tree,
                    tree_sub: images[count - 1].tree_sub,
                },
            ) {
                Some(error) => Err(error),
                None => Ok(cursors.push(moved_cursor(leaves, images[count - 1]))),
            },
        }
    }
}

proof fn lemma_cursors_fail(
    registry: &Registry,
    leaves: Seq<ImtLeafPutBinding>,
    images: Seq<ImtCursorSnapshot>,
    fewer: nat,
    count: nat,
)
    requires
        fewer <= count,
        cursors_of(registry, leaves, images, fewer) is Err,
    ensures
        cursors_of(registry, leaves, images, count) == cursors_of(registry, leaves, images, fewer),
    decreases count,
{
    if fewer < count {
        lemma_cursors_fail(registry, leaves, images, fewer, (count - 1) as nat);
    }
}

proof fn lemma_cursors_move_their_images(
    registry: &Registry,
    leaves: Seq<ImtLeafPutBinding>,
    images: Seq<ImtCursorSnapshot>,
    count: nat,
)
    requires
        count <= images.len(),
    ensures
        cursors_of(registry, leaves, images, count) matches Ok(cursors) ==> cursors.len() == count
            && forall|i: int|
            0 <= i < count ==> #[trigger] cursors[i] == moved_cursor(leaves, images[i]),
    decreases count,
{
    if count > 0 {
        lemma_cursors_move_their_images(registry, leaves, images, (count - 1) as nat);
    }
}

proof fn lemma_rows_do_not_overflow(
    registry: &Registry,
    leaves: Seq<ImtLeafPutBinding>,
    count: nat,
)
    requires
        count <= leaves.len(),
    ensures
        rows_of(registry, leaves, count) is Ok ==> forall|i: int|
            0 <= i < count ==> (#[trigger] leaves[i]).leaf < u64::MAX,
    decreases count,
{
    if count > 0 {
        lemma_rows_do_not_overflow(registry, leaves, (count - 1) as nat);
    }
}

fn move_cursor(leaves: &Vec<ImtLeafPutBinding>, image: ImtCursorSnapshot) -> (cursor:
    ImtCursorPutBinding)
    requires
        leaves@.len() > 0,
        forall|i: int| 0 <= i < leaves@.len() ==> (#[trigger] leaves@[i]).leaf < u64::MAX,
    ensures
        cursor == moved_cursor(leaves@, image),
{
    let mut requested: u64 = 0;
    let mut i: usize = 0;
    while i < leaves.len()
        invariant
            i <= leaves@.len(),
            forall|k: int| 0 <= k < leaves@.len() ==> (#[trigger] leaves@[k]).leaf < u64::MAX,
            requested == next_behind(leaves@, image_tree(image), i as nat),
        decreases leaves@.len() - i,
    {
        let leaf = leaves[i];
        if leaf.tree == image.tree && leaf.tree_sub == image.tree_sub && leaf.leaf + 1 > requested {
            requested = leaf.leaf + 1;
        }
        i += 1;
    }
    let next: u64 = if requested > image.next_append_index {
        requested
    } else {
        image.next_append_index
    };
    ImtCursorPutBinding {
        before: image,
        after: ImtCursorSnapshot {
            tree: image.tree,
            tree_sub: image.tree_sub,
            next_append_index: next,
        },
        transition: ImtCursorTransition {
            checkpoint: leaves[0].checkpoint,
            before: image.next_append_index,
            after: next,
        },
        write_timestamp_us: leaves[0].write_timestamp_us,
    }
}

fn move_cursors(
    leaves: &Vec<ImtLeafPutBinding>,
    images: &Vec<ImtCursorSnapshot>,
    registry: &Registry,
) -> (result: Result<Vec<ImtCursorPutBinding>, ImtPlanError>)
    requires
        leaves@.len() > 0,
        forall|i: int| 0 <= i < leaves@.len() ==> (#[trigger] leaves@[i]).leaf < u64::MAX,
    ensures
        match result {
            Ok(cursors) => cursors_of(registry, leaves@, images@, images@.len()) == Ok::<
                _,
                ImtPlanError,
            >(cursors@),
            Err(error) => cursors_of(registry, leaves@, images@, images@.len()) == Err::<
                Seq<ImtCursorPutBinding>,
                _,
            >(error),
        },
{
    let mut cursors: Vec<ImtCursorPutBinding> = Vec::new();
    let mut i: usize = 0;
    while i < images.len()
        invariant
            i <= images@.len(),
            leaves@.len() > 0,
            forall|k: int| 0 <= k < leaves@.len() ==> (#[trigger] leaves@[k]).leaf < u64::MAX,
            cursors_of(registry, leaves@, images@, i as nat) == Ok::<_, ImtPlanError>(cursors@),
        decreases images@.len() - i,
    {
        let image = images[i];
        proof {
            let reached = (i + 1) as nat;
            if cursors_of(registry, leaves@, images@, reached) is Err {
                lemma_cursors_fail(registry, leaves@, images@, reached, images@.len());
            }
        }
        let key: TypedKey = TypedTableKey::ImtCursor {
            tree: image.tree,
            tree_sub: image.tree_sub,
        };
        require_rollback_key(registry, &key, ScyllaPhysicalTableId::ImtNextAppendIndex)?;
        cursors.push(move_cursor(leaves, image));
        i += 1;
    }
    Ok(cursors)
}

/// The canonical bytes of the puts, each behind its length.
pub open spec fn member_bytes(sealed: Seq<SealedPutModel>) -> Seq<u8>
    decreases sealed.len(),
{
    if sealed.len() == 0 {
        Seq::empty()
    } else {
        member_bytes(sealed.drop_last()) + bytes::counted(sealed.last().canonical_bytes)
    }
}

/// The moves of the cursors.
pub open spec fn cursor_bytes(cursors: Seq<ImtCursorPutBinding>) -> Seq<u8>
    decreases cursors.len(),
{
    if cursors.len() == 0 {
        Seq::empty()
    } else {
        let last = cursors.last();
        cursor_bytes(cursors.drop_last()) + (bytes::be64(last.before.tree) + bytes::be64(
            last.before.tree_sub,
        ) + bytes::be64(last.before.next_append_index) + bytes::be64(last.after.next_append_index))
    }
}

/// What identifies a write: its checkpoint and timestamp, its puts, and its cursors.
pub open spec fn write_digest_of(
    checkpoint: CheckpointId,
    write_timestamp_us: i64,
    sealed: Seq<SealedPutModel>,
    cursors: Seq<ImtCursorPutBinding>,
) -> [u8; 32] {
    hash::sha256(
        bytes::text("psy/imt-checkpoint-write/v1"@) + bytes::be64(checkpoint.value) + bytes::be_i64(
            write_timestamp_us,
        ) + member_bytes(sealed) + cursor_bytes(cursors),
    )
}

fn write_digest(
    checkpoint: CheckpointId,
    write_timestamp_us: i64,
    sealed: &[SealedPut],
    cursors: &Vec<ImtCursorPutBinding>,
) -> (digest: ImtCheckpointWriteDigest)
    ensures
        digest.0 == write_digest_of(
            checkpoint,
            write_timestamp_us,
            put_models(sealed@),
            cursors@,
        ),
{
    let ghost models = put_models(sealed@);
    let mut preimage: Vec<u8> = text_bytes("psy/imt-checkpoint-write/v1");
    push_u64(&mut preimage, checkpoint.value);
    push_i64(&mut preimage, write_timestamp_us);
    let ghost front = preimage@;
    assert(models.take(0) =~= Seq::<SealedPutModel>::empty());
    assert(preimage@ =~= front + member_bytes(models.take(0)));
    let mut i: usize = 0;
    while i < sealed.len()
        invariant
            i <= sealed@.len(),
            models == put_models(sealed@),
            preimage@ == front + member_bytes(models.take(i as int)),
        decreases sealed@.len() - i,
    {
        let ghost before = preimage@;
        push_u32(&mut preimage, #[verifier::truncate] (sealed[i].canonical_bytes.len() as u32));
        push_bytes(&mut preimage, &sealed[i].canonical_bytes);
        proof {
            let next = models.take(i + 1);
            assert(next.drop_last() =~= models.take(i as int));
            assert(next.last() == sealed@[i as int]@);
            assert(preimage@ =~= before + bytes::counted(next.last().canonical_bytes));
            assert(preimage@ =~= front + member_bytes(next));
        }
        i += 1;
    }
    assert(models.take(sealed@.len() as int) =~= models);
    let ghost members = preimage@;
    assert(cursors@.take(0) =~= Seq::<ImtCursorPutBinding>::empty());
    assert(preimage@ =~= members + cursor_bytes(cursors@.take(0)));
    let mut k: usize = 0;
    while k < cursors.len()
        invariant
            k <= cursors@.len(),
            preimage@ == members + cursor_bytes(cursors@.take(k as int)),
        decreases cursors@.len() - k,
    {
        let ghost before = preimage@;
        let cursor = cursors[k];
        push_u64(&mut preimage, cursor.before.tree);
        push_u64(&mut preimage, cursor.before.tree_sub);
        push_u64(&mut preimage, cursor.before.next_append_index);
        push_u64(&mut preimage, cursor.after.next_append_index);
        proof {
            let next = cursors@.take(k + 1);
            assert(next.drop_last() =~= cursors@.take(k as int));
            assert(next.last() == cursor);
            assert(preimage@ =~= members + cursor_bytes(next));
        }
        k += 1;
    }
    assert(cursors@.take(cursors@.len() as int) =~= cursors@);
    ImtCheckpointWriteDigest(sha256_digest(&preimage))
}

/// The write of one checkpoint to the three tables.
#[verifier::ext_equal]
#[derive(Clone, Debug, PartialEq, Eq)]
pub struct ImtCheckpointWritePlan<L, I, C> {
    pub checkpoint: CheckpointId,
    pub write_timestamp_us: i64,
    pub leaf_puts: L,
    pub index_puts: I,
    pub cursor_puts: C,
    pub digest: ImtCheckpointWriteDigest,
}

pub type WritePlan = ImtCheckpointWritePlan<
    Vec<ImtLeafPutBinding>,
    Vec<ImtIndexPutBinding>,
    Vec<ImtCursorPutBinding>,
>;

pub type WritePlanModel = ImtCheckpointWritePlan<
    Seq<ImtLeafPutBinding>,
    Seq<ImtIndexPutBinding>,
    Seq<ImtCursorPutBinding>,
>;

impl View for ImtCheckpointWritePlan<
    Vec<ImtLeafPutBinding>,
    Vec<ImtIndexPutBinding>,
    Vec<ImtCursorPutBinding>,
> {
    type V = WritePlanModel;

    open spec fn view(&self) -> WritePlanModel {
        ImtCheckpointWritePlan {
            checkpoint: self.checkpoint,
            write_timestamp_us: self.write_timestamp_us,
            leaf_puts: self.leaf_puts@,
            index_puts: self.index_puts@,
            cursor_puts: self.cursor_puts@,
            digest: self.digest,
        }
    }
}

/// The write that the leaves of a checkpoint and the cursors before it make.
pub open spec fn write_plan(
    registry: &Registry,
    sealed: Seq<SealedPutModel>,
    cursor_before: Seq<ImtCursorSnapshot>,
) -> Result<WritePlanModel, ImtPlanError> {
    if sealed.len() == 0 {
        Err(ImtPlanError::EmptyLeafBatch)
    } else {
        match leaves_of(sealed, sealed.len()) {
            Err(error) => Err(error),
            Ok(leaves) => match ordered_images(cursor_before, cursor_before.len()) {
                Err(error) => Err(error),
                Ok(images) => if !images_cover(leaves, images) {
                    Err(ImtPlanError::CursorBeforeImageCoverage)
                } else {
                    match rows_of(registry, leaves, leaves.len()) {
                        Err(error) => Err(error),
                        Ok((leaf_puts, index_puts)) => match cursors_of(
                            registry,
                            leaves,
                            images,
                            images.len(),
                        ) {
                            Err(error) => Err(error),
                            Ok(cursor_puts) => Ok(
                                ImtCheckpointWritePlan {
                                    checkpoint: leaves[0].checkpoint,
                                    write_timestamp_us: leaves[0].write_timestamp_us,
                                    leaf_puts,
                                    index_puts,
                                    cursor_puts,
                                    digest: ImtCheckpointWriteDigest(
                                        write_digest_of(
                                            leaves[0].checkpoint,
                                            leaves[0].write_timestamp_us,
                                            sealed,
                                            cursor_puts,
                                        ),
                                    ),
                                },
                            ),
                        },
                    }
                },
            },
        }
    }
}

pub open spec fn plan_result(result: Result<WritePlan, ImtPlanError>) -> Result<
    WritePlanModel,
    ImtPlanError,
> {
    match result {
        Ok(plan) => Ok(plan@),
        Err(error) => Err(error),
    }
}

/// The derived rows of a plan: the index rows, then the cursors.
pub open spec fn supplements_of(plan: WritePlanModel) -> Seq<SupplementModel> {
    plan.index_puts.map_values(|index: ImtIndexPutBinding| index.spec_supplement())
        + plan.cursor_puts.map_values(|cursor: ImtCursorPutBinding| cursor.spec_supplement())
}

/// The views of a list of derived rows.
pub open spec fn supplement_models(supplements: Seq<Supplement>) -> Seq<SupplementModel> {
    supplements.map_values(|supplement: Supplement| supplement@)
}

impl ImtCheckpointWritePlan<
    Vec<ImtLeafPutBinding>,
    Vec<ImtIndexPutBinding>,
    Vec<ImtCursorPutBinding>,
> {
    /// Plans the write of a checkpoint from its sealed leaves and the cursors before it.
    pub fn try_from_sealed_leaves(
        sealed: &[SealedPut],
        cursor_before: &[ImtCursorSnapshot],
        registry: &Registry,
    ) -> (result: Result<Self, ImtPlanError>)
        ensures
            plan_result(result) == write_plan(registry, put_models(sealed@), cursor_before@),
    {
        if sealed.len() == 0 {
            return Err(ImtPlanError::EmptyLeafBatch);
        }
        let leaves = read_leaves(sealed)?;
        proof {
            lemma_leaves_agree(put_models(sealed@), sealed@.len());
        }
        let images = order_images(cursor_before)?;
        if !covers(&leaves, &images) {
            return Err(ImtPlanError::CursorBeforeImageCoverage);
        }
        let (leaf_puts, index_puts) = make_rows(&leaves, registry)?;
        proof {
            lemma_rows_do_not_overflow(registry, leaves@, leaves@.len());
        }
        let cursor_puts = move_cursors(&leaves, &images, registry)?;
        let checkpoint = leaves[0].checkpoint;
        let write_timestamp_us: i64 = leaves[0].write_timestamp_us;
        let digest = write_digest(checkpoint, write_timestamp_us, sealed, &cursor_puts);
        Ok(
            ImtCheckpointWritePlan {
                checkpoint,
                write_timestamp_us,
                leaf_puts,
                index_puts,
                cursor_puts,
                digest,
            },
        )
    }

    pub fn checkpoint(&self) -> (checkpoint: CheckpointId)
        ensures
            checkpoint == self@.checkpoint,
    {
        self.checkpoint
    }

    pub fn write_timestamp_us(&self) -> (timestamp: i64)
        ensures
            timestamp == self@.write_timestamp_us,
    {
        self.write_timestamp_us
    }

    pub fn leaf_puts(&self) -> (puts: &[ImtLeafPutBinding])
        ensures
            puts@ == self@.leaf_puts,
    {
        self.leaf_puts.as_slice()
    }

    pub fn index_puts(&self) -> (puts: &[ImtIndexPutBinding])
        ensures
            puts@ == self@.index_puts,
    {
        self.index_puts.as_slice()
    }

    pub fn cursor_puts(&self) -> (puts: &[ImtCursorPutBinding])
        ensures
            puts@ == self@.cursor_puts,
    {
        self.cursor_puts.as_slice()
    }

    pub fn digest(&self) -> (digest: ImtCheckpointWriteDigest)
        ensures
            digest == self@.digest,
    {
        self.digest
    }

    pub fn derived_supplements(&self) -> (supplements: Vec<Supplement>)
        ensures
            supplement_models(supplements@) == supplements_of(self@),
    {
        let ghost indexes = self.index_puts@.map_values(
            |index: ImtIndexPutBinding| index.spec_supplement(),
        );
        let ghost cursors = self.cursor_puts@.map_values(
            |cursor: ImtCursorPutBinding| cursor.spec_supplement(),
        );
        let mut supplements: Vec<Supplement> = Vec::new();
        assert(supplement_models(supplements@) =~= indexes.take(0));
        let mut i: usize = 0;
        while i < self.index_puts.len()
            invariant
                i <= self.index_puts@.len(),
                indexes == self.index_puts@.map_values(
                    |index: ImtIndexPutBinding| index.spec_supplement(),
                ),
                supplement_models(supplements@) == indexes.take(i as int),
            decreases self.index_puts@.len() - i,
        {
            let ghost before = supplements@;
            let supplement = self.index_puts[i].durable_supplement();
            let ghost model = supplement@;
            supplements.push(supplement);
            i += 1;
            proof {
                assert(supplement_models(supplements@) =~= supplement_models(before).push(model));
                assert(indexes.take(i as int) =~= indexes.take(i - 1).push(model));
            }
        }
        assert(indexes.take(self.index_puts@.len() as int) =~= indexes);
        assert(supplement_models(supplements@) =~= indexes + cursors.take(0));
        let mut k: usize = 0;
        while k < self.cursor_puts.len()
            invariant
                k <= self.cursor_puts@.len(),
                cursors == self.cursor_puts@.map_values(
                    |cursor: ImtCursorPutBinding| cursor.spec_supplement(),
                ),
                supplement_models(supplements@) == indexes + cursors.take(k as int),
            decreases self.cursor_puts@.len() - k,
        {
            let ghost before = supplements@;
            let supplement = self.cursor_puts[k].durable_supplement();
            let ghost model = supplement@;
            supplements.push(supplement);
            k += 1;
            proof {
                assert(supplement_models(supplements@) =~= supplement_models(before).push(model));
                assert(indexes + cursors.take(k as int) =~= (indexes + cursors.take(k - 1)).push(
                    model,
                ));
            }
        }
        assert(cursors.take(self.cursor_puts@.len() as int) =~= cursors);
        supplements
    }
}

/// A derived row that was stored, with what the codec makes of it where it is a cursor's.
pub struct PersistedDerivedPut {
    pub sealed: SealedPut,
    pub transition: Result<ImtCursorTransition, String>,
}

/// The cursors before the write that the first `count` derived rows hold.
pub open spec fn replay_images(
    timestamp: i64,
    derived: Seq<PersistedDerivedPut>,
    count: nat,
) -> Result<Seq<ImtCursorSnapshot>, ImtPlanError>
    decreases count,
{
    if count == 0 {
        Ok(Seq::empty())
    } else {
        match replay_images(timestamp, derived, (count - 1) as nat) {
            Err(error) => Err(error),
            Ok(images) => {
                let put = derived[count - 1];
                if put.sealed@.timestamp_us != timestamp {
                    Err(
                        ImtPlanError::MixedWriteTimestamps {
                            expected: timestamp,
                            actual: put.sealed@.timestamp_us,
                        },
                    )
                } else if put.sealed@.physical_table == ScyllaPhysicalTableId::ImtKeyIndex {
                    Ok(images)
                } else if put.sealed@.physical_table != ScyllaPhysicalTableId::ImtNextAppendIndex {
                    Err(ImtPlanError::UnexpectedDerivedTable(put.sealed@.physical_table))
                } else {
                    match imt_family::cursor_move(put.sealed@, put.transition) {
                        Err(error) => Err(error),
                        Ok((tree, tree_sub, transition)) => {
                            let image = ImtCursorSnapshot {
                                tree,
                                tree_sub,
                                next_append_index: transition.before,
                            };
                            if images.contains(image) {
                                Err(ImtPlanError::DuplicateCursorBeforeImage)
                            } else {
                                Ok(images.push(image))
                            }
                        },
                    }
                }
            },
        }
    }
}

proof fn lemma_replay_fails(
    timestamp: i64,
    derived: Seq<PersistedDerivedPut>,
    fewer: nat,
    count: nat,
)
    requires
        fewer <= count,
        replay_images(timestamp, derived, fewer) is Err,
    ensures
        replay_images(timestamp, derived, count) == replay_images(timestamp, derived, fewer),
    decreases count,
{
    if fewer < count {
        lemma_replay_fails(timestamp, derived, fewer, (count - 1) as nat);
    }
}

fn holds_image(images: &Vec<ImtCursorSnapshot>, image: &ImtCursorSnapshot) -> (held: bool)
    ensures
        held == images@.contains(*image),
{
    let mut i: usize = 0;
    while i < images.len()
        invariant
            i <= images@.len(),
            forall|k: int| 0 <= k < i ==> images@[k] != *image,
        decreases images@.len() - i,
    {
        if images[i] == *image {
            return true;
        }
        i += 1;
    }
    false
}

/// Reads the cursors before a write from its derived rows.
pub fn read_replay_images(timestamp: i64, derived: &Vec<PersistedDerivedPut>) -> (result: Result<
    Vec<ImtCursorSnapshot>,
    ImtPlanError,
>)
    ensures
        match result {
            Ok(images) => replay_images(timestamp, derived@, derived@.len()) == Ok::<
                _,
                ImtPlanError,
            >(images@),
            Err(error) => replay_images(timestamp, derived@, derived@.len()) == Err::<
                Seq<ImtCursorSnapshot>,
                _,
            >(error),
        },
{
    let mut images: Vec<ImtCursorSnapshot> = Vec::new();
    let mut i: usize = 0;
    while i < derived.len()
        invariant
            i <= derived@.len(),
            replay_images(timestamp, derived@, i as nat) == Ok::<_, ImtPlanError>(images@),
        decreases derived@.len() - i,
    {
        proof {
            let reached = (i + 1) as nat;
            if replay_images(timestamp, derived@, reached) is Err {
                lemma_replay_fails(timestamp, derived@, reached, derived@.len());
            }
        }
        let put = &derived[i];
        if put.sealed.timestamp_us != timestamp {
            return Err(
                ImtPlanError::MixedWriteTimestamps {
                    expected: timestamp,
                    actual: put.sealed.timestamp_us,
                },
            );
        }
        if put.sealed.physical_table != ScyllaPhysicalTableId::ImtKeyIndex {
            if put.sealed.physical_table != ScyllaPhysicalTableId::ImtNextAppendIndex {
                return Err(ImtPlanError::UnexpectedDerivedTable(put.sealed.physical_table));
            }
            let transition = match &put.transition {
                Ok(transition) => Ok(*transition),
                Err(refused) => Err(refused.clone()),
            };
            let (tree, tree_sub, transition) = read_cursor_move(&put.sealed, transition)?;
            let image = ImtCursorSnapshot::new(tree, tree_sub, transition.before);
            if holds_image(&images, &image) {
                return Err(ImtPlanError::DuplicateCursorBeforeImage);
            }
            images.push(image);
        }
        i += 1;
    }
    Ok(images)
}

pub type MutationModel = ResolvedScyllaMutation<Seq<u8>>;

/// The views of a list of mutations.
pub open spec fn mutation_models(mutations: Seq<ResolvedScyllaMutation<Vec<u8>>>) -> Seq<
    MutationModel,
> {
    mutations.map_values(|mutation: ResolvedScyllaMutation<Vec<u8>>| mutation@)
}

/// The mutations of the derived rows that were stored.
pub open spec fn stored_mutations(derived: Seq<PersistedDerivedPut>) -> Seq<MutationModel> {
    derived.map_values(|put: PersistedDerivedPut| put.sealed@.resolved)
}

/// No two mutations are of the same row.
pub open spec fn rows_are_unique(mutations: Seq<MutationModel>) -> bool {
    forall|i: int, j: int|
        0 <= i < j < mutations.len() ==> (#[trigger] mutations[i]).locator_bytes != (
        #[trigger] mutations[j]).locator_bytes
}

/// Two lists hold the same mutations, in whatever order.
pub open spec fn same_mutations(a: Seq<MutationModel>, b: Seq<MutationModel>) -> bool {
    forall|mutation: MutationModel| #[trigger] a.contains(mutation) <==> b.contains(mutation)
}

/// The plan of a write that was stored. `expanded` is what the derived rows of the plan
/// resolve to; the stored rows have to be exactly those.
pub open spec fn replayed_plan(
    registry: &Registry,
    leaves: Seq<SealedPutModel>,
    derived: Seq<PersistedDerivedPut>,
    expanded: Result<Seq<MutationModel>, String>,
) -> Result<WritePlanModel, ImtPlanError> {
    let stored = stored_mutations(derived);
    if leaves.len() == 0 {
        Err(ImtPlanError::EmptyLeafBatch)
    } else {
        match replay_images(leaves[0].timestamp_us, derived, derived.len()) {
            Err(error) => Err(error),
            Ok(images) => match write_plan(registry, leaves, images) {
                Err(error) => Err(error),
                Ok(plan) => match expanded {
                    Err(refused) => Err(ImtPlanError::MutationBuild(refused)),
                    Ok(expected) => if !rows_are_unique(stored) || !rows_are_unique(expected) {
                        Err(ImtPlanError::DuplicateDerivedMutation)
                    } else if !same_mutations(stored, expected) {
                        Err(ImtPlanError::DerivedMutationMismatch)
                    } else {
                        Ok(plan)
                    },
                },
            },
        }
    }
}

fn is_same(a: &ResolvedScyllaMutation<Vec<u8>>, b: &ResolvedScyllaMutation<Vec<u8>>) -> (same: bool)
    ensures
        same == (a@ == b@),
{
    bytes_equal(&a.locator_bytes, &b.locator_bytes) && bytes_equal(&a.content, &b.content)
}

fn stored_rows_are_unique(derived: &Vec<PersistedDerivedPut>) -> (unique: bool)
    ensures
        unique == rows_are_unique(stored_mutations(derived@)),
{
    let ghost stored = stored_mutations(derived@);
    let mut j: usize = 0;
    while j < derived.len()
        invariant
            j <= derived@.len(),
            stored == stored_mutations(derived@),
            forall|a: int, b: int|
                0 <= a < b < j ==> (#[trigger] stored[a]).locator_bytes != (
                #[trigger] stored[b]).locator_bytes,
        decreases derived@.len() - j,
    {
        let mut i: usize = 0;
        while i < j
            invariant
                i <= j < derived@.len(),
                stored == stored_mutations(derived@),
                forall|a: int|
                    0 <= a < i ==> (#[trigger] stored[a]).locator_bytes
                        != stored[j as int].locator_bytes,
            decreases j - i,
        {
            if bytes_equal(
                &derived[i].sealed.resolved.locator_bytes,
                &derived[j].sealed.resolved.locator_bytes,
            ) {
                assert(stored[i as int].locator_bytes == stored[j as int].locator_bytes);
                return false;
            }
            i += 1;
        }
        j += 1;
    }
    true
}

fn expanded_rows_are_unique(mutations: &Vec<ResolvedScyllaMutation<Vec<u8>>>) -> (unique: bool)
    ensures
        unique == rows_are_unique(mutation_models(mutations@)),
{
    let ghost models = mutation_models(mutations@);
    let mut j: usize = 0;
    while j < mutations.len()
        invariant
            j <= mutations@.len(),
            models == mutation_models(mutations@),
            forall|a: int, b: int|
                0 <= a < b < j ==> (#[trigger] models[a]).locator_bytes != (
                #[trigger] models[b]).locator_bytes,
        decreases mutations@.len() - j,
    {
        let mut i: usize = 0;
        while i < j
            invariant
                i <= j < mutations@.len(),
                models == mutation_models(mutations@),
                forall|a: int|
                    0 <= a < i ==> (#[trigger] models[a]).locator_bytes
                        != models[j as int].locator_bytes,
            decreases j - i,
        {
            if bytes_equal(&mutations[i].locator_bytes, &mutations[j].locator_bytes) {
                assert(models[i as int].locator_bytes == models[j as int].locator_bytes);
                return false;
            }
            i += 1;
        }
        j += 1;
    }
    true
}

/// Whether a stored row is among the expanded ones.
fn is_expanded(
    mutations: &Vec<ResolvedScyllaMutation<Vec<u8>>>,
    mutation: &ResolvedScyllaMutation<Vec<u8>>,
) -> (found: bool)
    ensures
        found == mutation_models(mutations@).contains(mutation@),
{
    let ghost models = mutation_models(mutations@);
    let mut i: usize = 0;
    while i < mutations.len()
        invariant
            i <= mutations@.len(),
            models == mutation_models(mutations@),
            forall|k: int| 0 <= k < i ==> models[k] != mutation@,
        decreases mutations@.len() - i,
    {
        if is_same(&mutations[i], mutation) {
            assert(models[i as int] == mutation@);
            return true;
        }
        i += 1;
    }
    false
}

/// Whether an expanded row is among the stored ones.
fn is_stored(derived: &Vec<PersistedDerivedPut>, mutation: &ResolvedScyllaMutation<Vec<u8>>) -> (found:
    bool)
    ensures
        found == stored_mutations(derived@).contains(mutation@),
{
    let ghost stored = stored_mutations(derived@);
    let mut i: usize = 0;
    while i < derived.len()
        invariant
            i <= derived@.len(),
            stored == stored_mutations(derived@),
            forall|k: int| 0 <= k < i ==> stored[k] != mutation@,
        decreases derived@.len() - i,
    {
        if is_same(&derived[i].sealed.resolved, mutation) {
            assert(stored[i as int] == mutation@);
            return true;
        }
        i += 1;
    }
    false
}

fn hold_the_same(
    derived: &Vec<PersistedDerivedPut>,
    expected: &Vec<ResolvedScyllaMutation<Vec<u8>>>,
) -> (same: bool)
    ensures
        same == same_mutations(stored_mutations(derived@), mutation_models(expected@)),
{
    let ghost stored = stored_mutations(derived@);
    let ghost models = mutation_models(expected@);
    let mut i: usize = 0;
    while i < derived.len()
        invariant
            i <= derived@.len(),
            stored == stored_mutations(derived@),
            models == mutation_models(expected@),
            forall|k: int| 0 <= k < i ==> models.contains(#[trigger] stored[k]),
        decreases derived@.len() - i,
    {
        if !is_expanded(expected, &derived[i].sealed.resolved) {
            proof {
                let mutation = stored[i as int];
                assert(stored.contains(mutation));
                assert(!models.contains(mutation));
            }
            return false;
        }
        i += 1;
    }
    let mut k: usize = 0;
    while k < expected.len()
        invariant
            k <= expected@.len(),
            stored == stored_mutations(derived@),
            models == mutation_models(expected@),
            forall|m: int| 0 <= m < k ==> stored.contains(#[trigger] models[m]),
        decreases expected@.len() - k,
    {
        if !is_stored(derived, &expected[k]) {
            proof {
                let mutation = models[k as int];
                assert(models.contains(mutation));
                assert(!stored.contains(mutation));
            }
            return false;
        }
        k += 1;
    }
    assert forall|mutation: MutationModel| #[trigger] stored.contains(mutation)
        <==> models.contains(mutation) by {
        if stored.contains(mutation) {
            let at = choose|at: int| 0 <= at < stored.len() && stored[at] == mutation;
            assert(models.contains(stored[at]));
        }
        if models.contains(mutation) {
            let at = choose|at: int| 0 <= at < models.len() && models[at] == mutation;
            assert(stored.contains(models[at]));
        }
    }
    true
}

/// The expanded rows, by their views.
pub open spec fn expanded_view(
    expanded: Result<Vec<ResolvedScyllaMutation<Vec<u8>>>, String>,
) -> Result<Seq<MutationModel>, String> {
    match expanded {
        Ok(mutations) => Ok(mutation_models(mutations@)),
        Err(refused) => Err(refused),
    }
}

impl ImtCheckpointWritePlan<
    Vec<ImtLeafPutBinding>,
    Vec<ImtIndexPutBinding>,
    Vec<ImtCursorPutBinding>,
> {
    /// Plans a write again from what was stored of it.
    pub fn replan(
        sealed_leaves: &[SealedPut],
        derived: &Vec<PersistedDerivedPut>,
        registry: &Registry,
    ) -> (result: Result<Self, ImtPlanError>)
        ensures
            plan_result(result) == (if sealed_leaves@.len() == 0 {
                Err(ImtPlanError::EmptyLeafBatch)
            } else {
                match replay_images(
                    put_models(sealed_leaves@)[0].timestamp_us,
                    derived@,
                    derived@.len(),
                ) {
                    Err(error) => Err(error),
                    Ok(images) => write_plan(registry, put_models(sealed_leaves@), images),
                }
            }),
    {
        if sealed_leaves.len() == 0 {
            return Err(ImtPlanError::EmptyLeafBatch);
        }
        let timestamp: i64 = sealed_leaves[0].timestamp_us;
        assert(put_models(sealed_leaves@)[0] == sealed_leaves@[0]@);
        let images = read_replay_images(timestamp, derived)?;
        Self::try_from_sealed_leaves(sealed_leaves, images.as_slice(), registry)
    }

    /// Plans a write again from what was stored of it, and requires that every stored
    /// derived row is one that the plan derives, and the other way round. `expanded` is
    /// what the derived rows of the plan resolve to.
    pub fn try_from_persisted_replay(
        sealed_leaves: &[SealedPut],
        derived: &Vec<PersistedDerivedPut>,
        registry: &Registry,
        expanded: Result<Vec<ResolvedScyllaMutation<Vec<u8>>>, String>,
    ) -> (result: Result<Self, ImtPlanError>)
        ensures
            plan_result(result) == replayed_plan(
                registry,
                put_models(sealed_leaves@),
                derived@,
                expanded_view(expanded),
            ),
    {
        let plan = Self::replan(sealed_leaves, derived, registry)?;
        let expected = match expanded {
            Err(refused) => return Err(ImtPlanError::MutationBuild(refused)),
            Ok(expected) => expected,
        };
        if !stored_rows_are_unique(derived) || !expanded_rows_are_unique(&expected) {
            return Err(ImtPlanError::DuplicateDerivedMutation);
        }
        if !hold_the_same(derived, &expected) {
            return Err(ImtPlanError::DerivedMutationMismatch);
        }
        Ok(plan)
    }
}

/// An append cursor never moves back, and stands behind every leaf of its tree.
pub proof fn law_cursors_move_forward(
    registry: &Registry,
    sealed: Seq<SealedPutModel>,
    cursor_before: Seq<ImtCursorSnapshot>,
)
    ensures
        write_plan(registry, sealed, cursor_before) matches Ok(plan) ==> leaves_of(
            sealed,
            sealed.len(),
        ) matches Ok(leaves) ==> forall|i: int|
            0 <= i < plan.cursor_puts.len() ==> {
                let cursor = #[trigger] plan.cursor_puts[i];
                &&& cursor.before.next_append_index <= cursor.after.next_append_index
                &&& image_tree(cursor.before) == image_tree(cursor.after)
                &&& cursor_before.contains(cursor.before)
                &&& forall|k: int|
                    0 <= k < leaves.len() && leaf_tree(#[trigger] leaves[k]) == image_tree(
                        cursor.before,
                    ) ==> leaves[k].leaf < cursor.after.next_append_index
            },
{
    if let Ok(plan) = write_plan(registry, sealed, cursor_before) {
        let leaves = leaves_of(sealed, sealed.len())->Ok_0;
        let images = ordered_images(cursor_before, cursor_before.len())->Ok_0;
        lemma_cursors_move_their_images(registry, leaves, images, images.len());
        lemma_rows_do_not_overflow(registry, leaves, leaves.len());
        lemma_images_sorted(cursor_before, cursor_before.len());
        assert(cursor_before.take(cursor_before.len() as int) =~= cursor_before);
        assert forall|i: int| 0 <= i < plan.cursor_puts.len() implies {
            let cursor = #[trigger] plan.cursor_puts[i];
            &&& cursor.before.next_append_index <= cursor.after.next_append_index
            &&& image_tree(cursor.before) == image_tree(cursor.after)
            &&& cursor_before.contains(cursor.before)
            &&& forall|k: int|
                0 <= k < leaves.len() && leaf_tree(#[trigger] leaves[k]) == image_tree(
                    cursor.before,
                ) ==> leaves[k].leaf < cursor.after.next_append_index
        } by {
            broadcast use vstd::seq_lib::group_to_multiset_ensures;

            let tree = image_tree(images[i]);
            lemma_next_is_behind_all(leaves, tree, leaves.len());
            assert(images.contains(images[i]));
            assert(images.to_multiset().count(images[i]) > 0);
        }
    }
}

/// A plan writes every leaf of its checkpoint, each place once.
pub proof fn law_leaves_are_written_once(
    registry: &Registry,
    leaves: Seq<ImtLeafPutBinding>,
    count: nat,
)
    requires
        count <= leaves.len(),
    ensures
        rows_of(registry, leaves, count) matches Ok((puts, _)) ==> {
            &&& forall|i: int, j: int|
                0 <= i < j < puts.len() ==> leaf_place(#[trigger] puts[i]) != leaf_place(
                    #[trigger] puts[j],
                )
            &&& forall|i: int|
                0 <= i < count ==> has_place(puts, leaf_place(#[trigger] leaves[i]))
        },
    decreases count,
{
    if count > 0 {
        let before = (count - 1) as nat;
        law_leaves_are_written_once(registry, leaves, before);
        if let (Ok((puts, _)), Ok((more, _))) = (
            rows_of(registry, leaves, before),
            rows_of(registry, leaves, count),
        ) {
            let leaf = leaves[count - 1];
            assert forall|i: int| 0 <= i < count implies has_place(
                more,
                leaf_place(#[trigger] leaves[i]),
            ) by {
                if i < before {
                    let k = choose|k: int|
                        0 <= k < puts.len() && leaf_place(#[trigger] puts[k]) == leaf_place(
                            leaves[i],
                        );
                    assert(more[k] == puts[k]);
                } else if !has_place(puts, leaf_place(leaf)) {
                    assert(more[puts.len() as int] == leaf);
                }
            }
            assert forall|i: int, j: int| 0 <= i < j < more.len() implies leaf_place(
                #[trigger] more[i],
            ) != leaf_place(#[trigger] more[j]) by {
                if j == puts.len() {
                    assert(leaf_place(puts[i]) != leaf_place(leaf));
                }
            }
        }
    }
}

/// The index rows of a plan are sorted by what they are filed under, so that none is
/// there twice.
pub proof fn law_index_rows_are_sorted(
    registry: &Registry,
    sealed: Seq<SealedPutModel>,
    cursor_before: Seq<ImtCursorSnapshot>,
)
    ensures
        write_plan(registry, sealed, cursor_before) matches Ok(plan) ==> sorted_by(
            index_order(),
            plan.index_puts,
        ),
{
    if let Ok(plan) = write_plan(registry, sealed, cursor_before) {
        let leaves = leaves_of(sealed, sealed.len())->Ok_0;
        lemma_rows_are_sorted(registry, leaves, leaves.len());
    }
}

/// The order in which the cursors were read does not matter: the cursors of a plan are
/// those that were read, sorted by their trees.
pub proof fn law_cursors_are_sorted(
    registry: &Registry,
    sealed: Seq<SealedPutModel>,
    cursor_before: Seq<ImtCursorSnapshot>,
)
    ensures
        write_plan(registry, sealed, cursor_before) matches Ok(plan) ==> {
            let images = plan.cursor_puts.map_values(|cursor: ImtCursorPutBinding| cursor.before);
            sorted_by(image_order(), images) && images.to_multiset() == cursor_before.to_multiset()
        },
{
    if let Ok(plan) = write_plan(registry, sealed, cursor_before) {
        let leaves = leaves_of(sealed, sealed.len())->Ok_0;
        let images = ordered_images(cursor_before, cursor_before.len())->Ok_0;
        lemma_cursors_move_their_images(registry, leaves, images, images.len());
        lemma_images_sorted(cursor_before, cursor_before.len());
        assert(cursor_before.take(cursor_before.len() as int) =~= cursor_before);
        assert(plan.cursor_puts.map_values(|cursor: ImtCursorPutBinding| cursor.before) =~= images);
    }
}

/// A replay is accepted only if the stored derived rows are exactly those that the
/// leaves derive.
pub proof fn law_replay_stores_what_it_derives(
    registry: &Registry,
    leaves: Seq<SealedPutModel>,
    derived: Seq<PersistedDerivedPut>,
    expanded: Result<Seq<MutationModel>, String>,
)
    ensures
        replayed_plan(registry, leaves, derived, expanded) is Ok ==> (expanded matches Ok(expected)
            && same_mutations(stored_mutations(derived), expected)),
{
}

proof fn lemma_leaves_are_bound(sealed: Seq<SealedPutModel>, count: nat)
    requires
        count <= sealed.len(),
    ensures
        leaves_of(sealed, count) matches Ok(leaves) ==> leaves.len() == count && forall|i: int|
            0 <= i < count ==> imt_family::leaf_binding(sealed[i]) == Ok::<_, ImtPlanError>(
                #[trigger] leaves[i],
            ),
    decreases count,
{
    if count > 0 {
        lemma_leaves_are_bound(sealed, (count - 1) as nat);
    }
}

/// A sealed leaf whose key is new, or which is the leaf with zero key and zero value that
/// every tree begins with.
#[verifier::opaque]
pub open spec fn begins_a_key(sealed: SealedPutModel) -> bool {
    let row = imt_family::carried_row(sealed);
    row[160] != 0 || forall|k: int| 56 <= k < 120 ==> #[trigger] row[k] == 0
}

/// An index row that points back to a sealed leaf: it has the leaf's place, key,
/// checkpoint and timestamp, and is filed under that key from its last byte to its first.
#[verifier::opaque]
pub open spec fn indexes_leaf(index: ImtIndexPutBinding, sealed: SealedPutModel) -> bool {
    &&& sealed.key == (TypedTableKey::<Seq<u8>>::ImtLeaf {
        tree: index.tree,
        tree_sub: index.tree_sub,
        leaf: index.leaf,
        checkpoint: index.birth_checkpoint,
    })
    &&& index.leaf_key@ == imt_family::carried_row(sealed).subrange(56, 88)
    &&& index.write_timestamp_us == sealed.timestamp_us
    &&& forall|k: int| 0 <= k < 32 ==> #[trigger] index.encoded_key.bytes@[k] == index.leaf_key@[31
        - k]
}

proof fn lemma_index_row_indexes(sealed: SealedPutModel, leaf: ImtLeafPutBinding)
    requires
        imt_family::leaf_binding(sealed) == Ok::<_, ImtPlanError>(leaf),
    ensures
        indexes_leaf(index_of(leaf), sealed),
        leaf.spec_creates_index() == begins_a_key(sealed),
{
    reveal(begins_a_key);
    reveal(indexes_leaf);
    imt_family::law_leaf_is_read_from_its_row(sealed);
    let row = imt_family::carried_row(sealed);
    bytes::lemma_array_exists(leaf.leaf_key@.reverse());
    if bytes::zero_digest(leaf.leaf_key) && bytes::zero_digest(leaf.leaf_value) {
        assert forall|k: int| 56 <= k < 120 implies #[trigger] row[k] == 0 by {
            if k < 88 {
                assert(leaf.leaf_key@[k - 56] == row[k]);
            } else {
                assert(leaf.leaf_value@[k - 88] == row[k]);
            }
        }
    }
    if forall|k: int| 56 <= k < 120 ==> #[trigger] row[k] == 0 {
        assert forall|k: int| 0 <= k < 32 implies leaf.leaf_key@[k] == 0 && leaf.leaf_value@[k]
            == 0 by {
            assert(leaf.leaf_key@[k] == row[56 + k]);
            assert(leaf.leaf_value@[k] == row[88 + k]);
        }
        assert(bytes::zero_digest(leaf.leaf_key));
        assert(bytes::zero_digest(leaf.leaf_value));
    }
}

/// An index row points back to one of the first `count` leaves, which begins a key.
pub open spec fn row_has_leaf(
    index: ImtIndexPutBinding,
    sealed: Seq<SealedPutModel>,
    count: nat,
) -> bool {
    exists|k: int| #![trigger sealed[k]]
        0 <= k < count && begins_a_key(sealed[k]) && indexes_leaf(index, sealed[k])
}

/// Every index row points back to one of the first `count` leaves that begins a key.
pub open spec fn rows_have_leaves(
    indexes: Seq<ImtIndexPutBinding>,
    sealed: Seq<SealedPutModel>,
    count: nat,
) -> bool {
    forall|i: int| 0 <= i < indexes.len() ==> row_has_leaf(#[trigger] indexes[i], sealed, count)
}

/// Each of the first `count` leaves that begins a key has its index row.
pub open spec fn keys_have_rows(
    indexes: Seq<ImtIndexPutBinding>,
    sealed: Seq<SealedPutModel>,
    count: nat,
) -> bool {
    forall|k: int| #![trigger sealed[k]]
        0 <= k < count && begins_a_key(sealed[k]) ==> exists|i: int| #![trigger indexes[i]]
            0 <= i < indexes.len() && indexes_leaf(indexes[i], sealed[k])
}

/// What is put is put as one of the first `count` leaves.
pub open spec fn puts_are_leaves(
    puts: Seq<ImtLeafPutBinding>,
    leaves: Seq<ImtLeafPutBinding>,
    count: nat,
) -> bool {
    forall|i: int| #![trigger puts[i]]
        0 <= i < puts.len() ==> exists|k: int| #![trigger leaves[k]]
            0 <= k < count && puts[i] == leaves[k]
}

/// What is filed of an index row: it and the rows before it, and nothing else.
proof fn lemma_filed_rows(registry: &Registry, leaves: Seq<ImtLeafPutBinding>, count: nat)
    requires
        0 < count <= leaves.len(),
    ensures
        rows_of(registry, leaves, count) matches Ok((_, filed)) ==> {
            let index = index_of(leaves[count - 1]);
            &&& rows_of(registry, leaves, (count - 1) as nat) is Ok
            &&& forall|row: ImtIndexPutBinding| #[trigger]
                filed.contains(row) <==> rows_of(registry, leaves, (count - 1) as nat)->Ok_0.1.contains(
                    row,
                ) || (leaves[count - 1].spec_creates_index() && row == index)
        },
{
    lemma_rows_are_sorted(registry, leaves, (count - 1) as nat);
    lemma_index_order();
    if let Ok((_, filed)) = rows_of(registry, leaves, count) {
        let indexes = rows_of(registry, leaves, (count - 1) as nat)->Ok_0.1;
        let index = index_of(leaves[count - 1]);
        if leaves[count - 1].spec_creates_index() && !indexes.contains(index) {
            lemma_placed_stays_sorted(index_order(), index, indexes);
        }
    }
}

proof fn lemma_rows_have_leaves(
    registry: &Registry,
    sealed: Seq<SealedPutModel>,
    leaves: Seq<ImtLeafPutBinding>,
    count: nat,
    row: ImtIndexPutBinding,
)
    requires
        count <= leaves.len(),
        leaves.len() == sealed.len(),
        forall|i: int|
            0 <= i < leaves.len() ==> imt_family::leaf_binding(sealed[i]) == Ok::<_, ImtPlanError>(
                #[trigger] leaves[i],
            ),
        rows_of(registry, leaves, count) is Ok,
        rows_of(registry, leaves, count)->Ok_0.1.contains(row),
    ensures
        row_has_leaf(row, sealed, count),
    decreases count,
{
    if count > 0 {
        let before = (count - 1) as nat;
        let leaf = leaves[before as int];
        lemma_filed_rows(registry, leaves, count);
        if rows_of(registry, leaves, before)->Ok_0.1.contains(row) {
            lemma_rows_have_leaves(registry, sealed, leaves, before, row);
            let k = choose|k: int| #![trigger sealed[k]]
                0 <= k < before && begins_a_key(sealed[k]) && indexes_leaf(row, sealed[k]);
            assert(0 <= k < count && begins_a_key(sealed[k]) && indexes_leaf(row, sealed[k]));
        } else {
            let k = before as int;
            lemma_index_row_indexes(sealed[k], leaf);
            assert(0 <= k < count && begins_a_key(sealed[k]) && indexes_leaf(row, sealed[k]));
        }
    }
}

proof fn lemma_filed_rows_stay(
    registry: &Registry,
    leaves: Seq<ImtLeafPutBinding>,
    fewer: nat,
    count: nat,
    row: ImtIndexPutBinding,
)
    requires
        fewer <= count <= leaves.len(),
        rows_of(registry, leaves, count) is Ok,
        rows_of(registry, leaves, fewer) is Ok,
        rows_of(registry, leaves, fewer)->Ok_0.1.contains(row),
    ensures
        rows_of(registry, leaves, count)->Ok_0.1.contains(row),
    decreases count,
{
    if fewer < count {
        lemma_filed_rows(registry, leaves, count);
        lemma_filed_rows_stay(registry, leaves, fewer, (count - 1) as nat, row);
    }
}

proof fn lemma_key_has_row(
    registry: &Registry,
    sealed: Seq<SealedPutModel>,
    leaves: Seq<ImtLeafPutBinding>,
    k: int,
)
    requires
        0 <= k < leaves.len(),
        leaves.len() == sealed.len(),
        imt_family::leaf_binding(sealed[k]) == Ok::<_, ImtPlanError>(leaves[k]),
        begins_a_key(sealed[k]),
        rows_of(registry, leaves, leaves.len()) is Ok,
    ensures
        exists|i: int|
            0 <= i < rows_of(registry, leaves, leaves.len())->Ok_0.1.len() && indexes_leaf(
                #[trigger] rows_of(registry, leaves, leaves.len())->Ok_0.1[i],
                sealed[k],
            ),
{
    let count = (k + 1) as nat;
    let indexes = rows_of(registry, leaves, leaves.len())->Ok_0.1;
    if rows_of(registry, leaves, count) is Err {
        lemma_rows_fail(registry, leaves, count, leaves.len());
    }
    lemma_index_row_indexes(sealed[k], leaves[k]);
    lemma_filed_rows(registry, leaves, count);
    let row = index_of(leaves[k]);
    assert(rows_of(registry, leaves, count)->Ok_0.1.contains(row));
    lemma_filed_rows_stay(registry, leaves, count, leaves.len(), row);
    let i = choose|i: int| 0 <= i < indexes.len() && indexes[i] == row;
    assert(indexes_leaf(indexes[i], sealed[k]));
}

proof fn lemma_puts_are_leaves(registry: &Registry, leaves: Seq<ImtLeafPutBinding>, count: nat)
    requires
        count <= leaves.len(),
    ensures
        rows_of(registry, leaves, count) matches Ok((puts, _)) ==> puts_are_leaves(
            puts,
            leaves,
            count,
        ),
    decreases count,
{
    if count > 0 {
        let before = (count - 1) as nat;
        lemma_puts_are_leaves(registry, leaves, before);
        if let (Ok((puts, _)), Ok((more, _))) = (
            rows_of(registry, leaves, before),
            rows_of(registry, leaves, count),
        ) {
            assert forall|i: int| #![trigger more[i]] 0 <= i < more.len() implies exists|k: int|
                #![trigger leaves[k]]
                0 <= k < count && more[i] == leaves[k] by {
                if i < puts.len() {
                    assert(more[i] == puts[i]);
                    let k = choose|k: int| #![trigger leaves[k]]
                        0 <= k < before && puts[i] == leaves[k];
                    assert(more[i] == leaves[k]);
                } else {
                    assert(more[i] == leaves[before as int]);
                }
            }
        }
    }
}

/// The index rows of an accepted plan are those of its new keys, no more and no less:
/// every index row points back to a sealed leaf that begins a key, and every such leaf
/// has its index row. Each row is filed under its own leaf key from the last byte to the
/// first, so that the rows of one tree stand in the numeric order of their keys.
pub proof fn law_index_rows_are_those_of_the_new_keys(
    registry: &Registry,
    sealed: Seq<SealedPutModel>,
    cursor_before: Seq<ImtCursorSnapshot>,
)
    ensures
        write_plan(registry, sealed, cursor_before) matches Ok(plan) ==> {
            let indexes = plan.index_puts;
            &&& forall|i: int, k: int|
                #![trigger indexes[i], indexes[i].encoded_key.bytes@[k]]
                0 <= i < indexes.len() && 0 <= k < 32 ==> indexes[i].encoded_key.bytes@[k]
                    == indexes[i].leaf_key@[31 - k]
            &&& rows_have_leaves(indexes, sealed, sealed.len())
            &&& keys_have_rows(indexes, sealed, sealed.len())
            &&& forall|i: int, j: int|
                0 <= i < j < indexes.len() && (#[trigger] indexes[i]).tree == (
                #[trigger] indexes[j]).tree && indexes[i].tree_sub == indexes[j].tree_sub
                    ==> imt_family::limbs_value(indexes[i].leaf_key@) < imt_family::limbs_value(
                    indexes[j].leaf_key@,
                )
        },
{
    if let Ok(plan) = write_plan(registry, sealed, cursor_before) {
        let leaves = leaves_of(sealed, sealed.len())->Ok_0;
        let indexes = plan.index_puts;
        lemma_leaves_are_bound(sealed, sealed.len());
        lemma_rows_are_sorted(registry, leaves, leaves.len());
        assert forall|i: int| 0 <= i < indexes.len() implies row_has_leaf(
            #[trigger] indexes[i],
            sealed,
            sealed.len(),
        ) && indexes[i].encoded_key.bytes@ == indexes[i].leaf_key@.reverse() by {
            assert(indexes.contains(indexes[i]));
            lemma_rows_have_leaves(registry, sealed, leaves, leaves.len(), indexes[i]);
            let k = choose|k: int| #![trigger sealed[k]]
                0 <= k < sealed.len() && begins_a_key(sealed[k]) && indexes_leaf(
                    indexes[i],
                    sealed[k],
                );
            assert(indexes_leaf(indexes[i], sealed[k]));
            reveal(indexes_leaf);
            assert(indexes[i].encoded_key.bytes@ =~= indexes[i].leaf_key@.reverse());
        }
        assert forall|k: int| #![trigger sealed[k]]
            0 <= k < sealed.len() && begins_a_key(sealed[k]) implies exists|i: int|
            #![trigger indexes[i]]
            0 <= i < indexes.len() && indexes_leaf(indexes[i], sealed[k]) by {
            assert(imt_family::leaf_binding(sealed[k]) == Ok::<_, ImtPlanError>(leaves[k]));
            lemma_key_has_row(registry, sealed, leaves, k);
        }
        assert forall|i: int, j: int|
            0 <= i < j < indexes.len() && (#[trigger] indexes[i]).tree == (
            #[trigger] indexes[j]).tree && indexes[i].tree_sub
                == indexes[j].tree_sub implies imt_family::limbs_value(indexes[i].leaf_key@)
            < imt_family::limbs_value(indexes[j].leaf_key@) by {
            assert(index_order()(indexes[i], indexes[j]));
            imt_family::law_sorting_follows_the_limbs(indexes[i].leaf_key, indexes[j].leaf_key);
        }
    }
}

/// An accepted plan has the checkpoint and the timestamp of every leaf that it was made
/// of, each a row of the leaf table under its own key.
pub proof fn law_plan_has_the_checkpoint_of_its_leaves(
    registry: &Registry,
    sealed: Seq<SealedPutModel>,
    cursor_before: Seq<ImtCursorSnapshot>,
    k: int,
)
    requires
        0 <= k < sealed.len(),
    ensures
        write_plan(registry, sealed, cursor_before) matches Ok(plan) ==> {
            &&& sealed[k].physical_table is ImtLeaf
            &&& sealed[k].key is ImtLeaf
            &&& sealed[k].key->ImtLeaf_checkpoint == plan.checkpoint
            &&& sealed[k].timestamp_us == plan.write_timestamp_us
        },
{
    if let Ok(plan) = write_plan(registry, sealed, cursor_before) {
        let leaves = leaves_of(sealed, sealed.len())->Ok_0;
        lemma_leaves_are_bound(sealed, sealed.len());
        lemma_leaves_agree(sealed, sealed.len());
        imt_family::law_leaf_is_read_from_its_row(sealed[k]);
        assert(imt_family::leaf_binding(sealed[k]) == Ok::<_, ImtPlanError>(leaves[k]));
        assert(leaves[k].checkpoint == leaves[0].checkpoint);
    }
}

/// An accepted plan writes every sealed leaf at its own place.
pub proof fn law_every_sealed_leaf_is_written(
    registry: &Registry,
    sealed: Seq<SealedPutModel>,
    cursor_before: Seq<ImtCursorSnapshot>,
    k: int,
)
    requires
        0 <= k < sealed.len(),
    ensures
        write_plan(registry, sealed, cursor_before) matches Ok(plan) ==> exists|i: int|
            0 <= i < plan.leaf_puts.len() && sealed[k].key is ImtLeaf && (
            #[trigger] plan.leaf_puts[i]).tree == sealed[k].key->ImtLeaf_tree
                && plan.leaf_puts[i].tree_sub == sealed[k].key->ImtLeaf_tree_sub
                && plan.leaf_puts[i].leaf == sealed[k].key->ImtLeaf_leaf,
{
    if let Ok(plan) = write_plan(registry, sealed, cursor_before) {
        let leaves = leaves_of(sealed, sealed.len())->Ok_0;
        lemma_leaves_are_bound(sealed, sealed.len());
        law_leaves_are_written_once(registry, leaves, leaves.len());
        imt_family::law_leaf_is_read_from_its_row(sealed[k]);
        assert(imt_family::leaf_binding(sealed[k]) == Ok::<_, ImtPlanError>(leaves[k]));
        let i = choose|i: int|
            0 <= i < plan.leaf_puts.len() && leaf_place(#[trigger] plan.leaf_puts[i]) == leaf_place(
                leaves[k],
            );
        assert(leaf_place(plan.leaf_puts[i]) == leaf_place(leaves[k]));
    }
}

/// What an accepted plan writes as a leaf is one of its sealed leaves, as that leaf's own
/// row has it.
pub proof fn law_nothing_else_is_written(
    registry: &Registry,
    sealed: Seq<SealedPutModel>,
    cursor_before: Seq<ImtCursorSnapshot>,
    i: int,
)
    ensures
        write_plan(registry, sealed, cursor_before) matches Ok(plan) ==> 0 <= i
            < plan.leaf_puts.len() ==> exists|k: int|
            0 <= k < sealed.len() && imt_family::leaf_binding(#[trigger] sealed[k]) == Ok::<
                _,
                ImtPlanError,
            >(plan.leaf_puts[i]),
{
    if let Ok(plan) = write_plan(registry, sealed, cursor_before) {
        if 0 <= i < plan.leaf_puts.len() {
            let leaves = leaves_of(sealed, sealed.len())->Ok_0;
            let puts = plan.leaf_puts;
            lemma_leaves_are_bound(sealed, sealed.len());
            lemma_puts_are_leaves(registry, leaves, leaves.len());
            assert(puts_are_leaves(puts, leaves, leaves.len()));
            let k = choose|k: int| #![trigger leaves[k]]
                0 <= k < leaves.len() && puts[i] == leaves[k];
            assert(imt_family::leaf_binding(sealed[k]) == Ok::<_, ImtPlanError>(leaves[k]));
        }
    }
}

proof fn lemma_next_is_reached(leaves: Seq<ImtLeafPutBinding>, tree: (u64, u64), count: nat)
    requires
        count <= leaves.len(),
    ensures
        next_behind(leaves, tree, count) == 0 || exists|i: int| #![trigger leaves[i]]
            0 <= i < count && leaf_tree(leaves[i]) == tree && leaves[i].leaf + 1 == next_behind(
                leaves,
                tree,
                count,
            ),
    decreases count,
{
    if count > 0 {
        let before = (count - 1) as nat;
        lemma_next_is_reached(leaves, tree, before);
        let leaf = leaves[before as int];
        if leaf_tree(leaf) == tree && leaf.leaf + 1 > next_behind(leaves, tree, before) {
            assert(leaf_tree(leaves[before as int]) == tree);
        } else if next_behind(leaves, tree, before) != 0 {
            let i = choose|i: int| #![trigger leaves[i]]
                0 <= i < before && leaf_tree(leaves[i]) == tree && leaves[i].leaf + 1
                    == next_behind(leaves, tree, before);
            assert(leaf_tree(leaves[i]) == tree);
        }
    }
}

/// Each cursor of an accepted plan moves to right behind the last leaf of its tree, or
/// stays where it is if it stands there already: it never moves further than its leaves
/// do. What it records of the move are the checkpoint, the place before and the place
/// behind, and the timestamp of the plan.
pub proof fn law_cursors_move_right_behind_their_leaves(
    registry: &Registry,
    sealed: Seq<SealedPutModel>,
    cursor_before: Seq<ImtCursorSnapshot>,
)
    ensures
        write_plan(registry, sealed, cursor_before) matches Ok(plan) ==> {
            let cursors = plan.cursor_puts;
            &&& cursors.len() == cursor_before.len()
            &&& forall|i: int| #![trigger cursors[i]]
                0 <= i < cursors.len() ==> {
                    let cursor = cursors[i];
                    &&& cursor_before.contains(cursor.before)
                    &&& cursor.after.tree == cursor.before.tree
                    &&& cursor.after.tree_sub == cursor.before.tree_sub
                    &&& cursor.after.next_append_index >= cursor.before.next_append_index
                    &&& forall|k: int| #![trigger sealed[k]]
                        0 <= k < sealed.len() && sealed[k].key->ImtLeaf_tree == cursor.before.tree
                            && sealed[k].key->ImtLeaf_tree_sub == cursor.before.tree_sub
                            ==> sealed[k].key->ImtLeaf_leaf < cursor.after.next_append_index
                    &&& cursor.after.next_append_index == cursor.before.next_append_index || exists|
                        k: int,
                    | #![trigger sealed[k]]
                        0 <= k < sealed.len() && sealed[k].key->ImtLeaf_tree == cursor.before.tree
                            && sealed[k].key->ImtLeaf_tree_sub == cursor.before.tree_sub
                            && sealed[k].key->ImtLeaf_leaf + 1 == cursor.after.next_append_index
                    &&& cursor.transition.checkpoint == plan.checkpoint
                    &&& cursor.transition.before == cursor.before.next_append_index
                    &&& cursor.transition.after == cursor.after.next_append_index
                    &&& cursor.write_timestamp_us == plan.write_timestamp_us
                }
        },
{
    if let Ok(plan) = write_plan(registry, sealed, cursor_before) {
        let leaves = leaves_of(sealed, sealed.len())->Ok_0;
        let images = ordered_images(cursor_before, cursor_before.len())->Ok_0;
        let cursors = plan.cursor_puts;
        lemma_leaves_are_bound(sealed, sealed.len());
        lemma_leaves_agree(sealed, sealed.len());
        lemma_cursors_move_their_images(registry, leaves, images, images.len());
        lemma_rows_do_not_overflow(registry, leaves, leaves.len());
        lemma_images_sorted(cursor_before, cursor_before.len());
        law_cursors_move_forward(registry, sealed, cursor_before);
        assert(cursor_before.take(cursor_before.len() as int) =~= cursor_before);
        vstd::seq_lib::to_multiset_len(images);
        vstd::seq_lib::to_multiset_len(cursor_before);
        assert forall|k: int| 0 <= k < sealed.len() implies (#[trigger] sealed[k]).key is ImtLeaf
            && sealed[k].key->ImtLeaf_tree == leaves[k].tree && sealed[k].key->ImtLeaf_tree_sub
            == leaves[k].tree_sub && sealed[k].key->ImtLeaf_leaf == leaves[k].leaf by {
            imt_family::law_leaf_is_read_from_its_row(sealed[k]);
            assert(imt_family::leaf_binding(sealed[k]) == Ok::<_, ImtPlanError>(leaves[k]));
        }
        assert forall|i: int| #![trigger cursors[i]] 0 <= i < cursors.len() implies {
            let cursor = cursors[i];
            &&& forall|k: int| #![trigger sealed[k]]
                0 <= k < sealed.len() && sealed[k].key->ImtLeaf_tree == cursor.before.tree
                    && sealed[k].key->ImtLeaf_tree_sub == cursor.before.tree_sub
                    ==> sealed[k].key->ImtLeaf_leaf < cursor.after.next_append_index
            &&& cursor.after.next_append_index == cursor.before.next_append_index || exists|k: int|
                #![trigger sealed[k]]
                0 <= k < sealed.len() && sealed[k].key->ImtLeaf_tree == cursor.before.tree
                    && sealed[k].key->ImtLeaf_tree_sub == cursor.before.tree_sub
                    && sealed[k].key->ImtLeaf_leaf + 1 == cursor.after.next_append_index
        } by {
            let cursor = cursors[i];
            let tree = image_tree(images[i]);
            assert(cursor == moved_cursor(leaves, images[i]));
            lemma_next_is_behind_all(leaves, tree, leaves.len());
            lemma_next_is_reached(leaves, tree, leaves.len());
            assert forall|k: int| #![trigger sealed[k]]
                0 <= k < sealed.len() && sealed[k].key->ImtLeaf_tree == cursor.before.tree
                    && sealed[k].key->ImtLeaf_tree_sub
                    == cursor.before.tree_sub implies sealed[k].key->ImtLeaf_leaf
                < cursor.after.next_append_index by {
                assert(leaf_tree(leaves[k]) == tree);
            }
            if cursor.after.next_append_index != cursor.before.next_append_index {
                let k = choose|k: int| #![trigger leaves[k]]
                    0 <= k < leaves.len() && leaf_tree(leaves[k]) == tree && leaves[k].leaf + 1
                        == next_behind(leaves, tree, leaves.len());
                assert(sealed[k].key->ImtLeaf_leaf + 1 == cursor.after.next_append_index);
            }
        }
    }
}

/// The digest of an accepted plan covers its checkpoint, its timestamp, the canonical
/// bytes of every sealed leaf in order, and of every cursor its tree, the place before and
/// the place behind.
pub proof fn law_write_digest_covers_the_write(
    registry: &Registry,
    sealed: Seq<SealedPutModel>,
    cursor_before: Seq<ImtCursorSnapshot>,
    put: SealedPutModel,
    cursors: Seq<ImtCursorPutBinding>,
    cursor: ImtCursorPutBinding,
)
    ensures
        write_plan(registry, sealed, cursor_before) matches Ok(plan) ==> plan.digest.0
            == hash::sha256(
            bytes::text("psy/imt-checkpoint-write/v1"@) + bytes::be64(plan.checkpoint.value)
                + bytes::be_i64(plan.write_timestamp_us) + member_bytes(sealed) + cursor_bytes(
                plan.cursor_puts,
            ),
        ),
        member_bytes(Seq::empty()) == Seq::<u8>::empty(),
        member_bytes(sealed.push(put)) == member_bytes(sealed) + bytes::counted(
            put.canonical_bytes,
        ),
        cursor_bytes(Seq::empty()) == Seq::<u8>::empty(),
        cursor_bytes(cursors.push(cursor)) == cursor_bytes(cursors) + (bytes::be64(
            cursor.before.tree,
        ) + bytes::be64(cursor.before.tree_sub) + bytes::be64(cursor.before.next_append_index)
            + bytes::be64(cursor.after.next_append_index)),
{
    assert(sealed.push(put).drop_last() =~= sealed);
    assert(cursors.push(cursor).drop_last() =~= cursors);
}

/// The derived rows of a plan are its index rows, then its cursors, in their order.
pub proof fn law_derived_rows_are_those_of_the_plan(plan: WritePlanModel, i: int)
    ensures
        supplements_of(plan).len() == plan.index_puts.len() + plan.cursor_puts.len(),
        0 <= i < plan.index_puts.len() ==> supplements_of(plan)[i]
            == plan.index_puts[i].spec_supplement(),
        0 <= i < plan.cursor_puts.len() ==> supplements_of(plan)[plan.index_puts.len() + i]
            == plan.cursor_puts[i].spec_supplement(),
{
}

/// The cursors that a stored write is planned from are, in order, those that its cursor
/// rows moved from; its other rows are index rows, and all have the timestamp of its
/// leaves.
pub proof fn law_replay_starts_from_the_stored_cursors(
    timestamp: i64,
    derived: Seq<PersistedDerivedPut>,
    count: nat,
)
    requires
        count <= derived.len(),
    ensures
        replay_images(timestamp, derived, count) matches Ok(images) ==> {
            &&& forall|i: int|
                0 <= i < count ==> (#[trigger] derived[i]).sealed@.timestamp_us == timestamp && (
                derived[i].sealed@.physical_table is ImtKeyIndex
                    || derived[i].sealed@.physical_table is ImtNextAppendIndex)
            &&& forall|i: int|
                0 <= i < count && (#[trigger] derived[i]).sealed@.physical_table
                    is ImtNextAppendIndex ==> derived[i].transition is Ok
                    && derived[i].sealed@.key is ImtCursor && images.contains(
                    ImtCursorSnapshot {
                        tree: derived[i].sealed@.key->ImtCursor_tree,
                        tree_sub: derived[i].sealed@.key->ImtCursor_tree_sub,
                        next_append_index: derived[i].transition->Ok_0.before,
                    },
                )
            &&& images.no_duplicates()
        },
    decreases count,
{
    if count > 0 {
        let before = (count - 1) as nat;
        law_replay_starts_from_the_stored_cursors(timestamp, derived, before);
        if let (Ok(images), Ok(more)) = (
            replay_images(timestamp, derived, before),
            replay_images(timestamp, derived, count),
        ) {
            assert forall|image: ImtCursorSnapshot| #[trigger] images.contains(
                image,
            ) implies more.contains(image) by {
                let k = choose|k: int| 0 <= k < images.len() && images[k] == image;
                assert(more[k] == image);
            }
            if more.len() > images.len() {
                assert(more[images.len() as int] == more.last());
            }
        }
    }
}

/// A replay is accepted exactly if its leaves and the cursors it was stored with plan a
/// write, the derived rows resolve, no stored or derived row is there twice, and the two
/// are the same rows. It is then that plan.
pub proof fn law_replay_is_the_plan_of_its_leaves(
    registry: &Registry,
    leaves: Seq<SealedPutModel>,
    derived: Seq<PersistedDerivedPut>,
    expanded: Result<Seq<MutationModel>, String>,
)
    ensures
        ({
            let replayed = replayed_plan(registry, leaves, derived, expanded);
            let images = replay_images(leaves[0].timestamp_us, derived, derived.len());
            &&& replayed is Ok <==> {
                &&& leaves.len() > 0
                &&& images is Ok
                &&& write_plan(registry, leaves, images->Ok_0) is Ok
                &&& expanded is Ok
                &&& forall|i: int, j: int|
                    0 <= i < j < derived.len() ==> (
                    #[trigger] derived[i]).sealed@.resolved.locator_bytes != (
                    #[trigger] derived[j]).sealed@.resolved.locator_bytes
                &&& rows_are_unique(expanded->Ok_0)
                &&& forall|mutation: MutationModel| #[trigger]
                    stored_mutations(derived).contains(mutation) <==> expanded->Ok_0.contains(
                        mutation,
                    )
            }
            &&& replayed is Ok ==> replayed == write_plan(registry, leaves, images->Ok_0)
            &&& leaves.len() == 0 ==> replayed is Err && replayed->Err_0 is EmptyLeafBatch
        }),
{
    let stored = stored_mutations(derived);
    if rows_are_unique(stored) {
        assert forall|i: int, j: int| 0 <= i < j < derived.len() implies (
        #[trigger] derived[i]).sealed@.resolved.locator_bytes != (
        #[trigger] derived[j]).sealed@.resolved.locator_bytes by {
            assert(stored[i].locator_bytes != stored[j].locator_bytes);
        }
    }
    if forall|i: int, j: int|
        0 <= i < j < derived.len() ==> (#[trigger] derived[i]).sealed@.resolved.locator_bytes != (
        #[trigger] derived[j]).sealed@.resolved.locator_bytes {
        assert forall|i: int, j: int| 0 <= i < j < stored.len() implies (
        #[trigger] stored[i]).locator_bytes != (#[trigger] stored[j]).locator_bytes by {
            assert(derived[i].sealed@.resolved.locator_bytes
                != derived[j].sealed@.resolved.locator_bytes);
        }
    }
}

/// A leaf that comes more than once is written as it came first.
pub proof fn law_repeated_leaf_is_written_as_it_came_first(
    registry: &Registry,
    leaves: Seq<ImtLeafPutBinding>,
    count: nat,
    k: int,
)
    requires
        0 <= k < count <= leaves.len(),
        forall|m: int| 0 <= m < k ==> leaf_place(#[trigger] leaves[m]) != leaf_place(leaves[k]),
    ensures
        rows_of(registry, leaves, count) matches Ok((puts, _)) ==> puts.contains(leaves[k]),
    decreases count,
{
    let before = (count - 1) as nat;
    if let Ok((more, _)) = rows_of(registry, leaves, count) {
        let puts = rows_of(registry, leaves, before)->Ok_0.0;
        if k < before {
            law_repeated_leaf_is_written_as_it_came_first(registry, leaves, before, k);
            let i = choose|i: int| 0 <= i < puts.len() && puts[i] == leaves[k];
            assert(more[i] == leaves[k]);
        } else {
            lemma_puts_are_leaves(registry, leaves, before);
            if has_place(puts, leaf_place(leaves[k])) {
                let i = choose|i: int|
                    0 <= i < puts.len() && leaf_place(#[trigger] puts[i]) == leaf_place(leaves[k]);
                assert(puts_are_leaves(puts, leaves, before));
                let m = choose|m: int| #![trigger leaves[m]] 0 <= m < before && puts[i] == leaves[m];
                assert(leaf_place(leaves[m]) == leaf_place(leaves[k]));
            }
            assert(more[puts.len() as int] == leaves[k]);
        }
    }
}

/// Every tree of a sealed leaf has a cursor before the write, and every cursor is that of
/// a sealed leaf's tree; no tree has two.
pub proof fn law_cursors_are_those_of_the_leaves(
    registry: &Registry,
    sealed: Seq<SealedPutModel>,
    cursor_before: Seq<ImtCursorSnapshot>,
    k: int,
)
    requires
        0 <= k < sealed.len(),
    ensures
        write_plan(registry, sealed, cursor_before) matches Ok(plan) ==> {
            let cursors = plan.cursor_puts;
            &&& sealed[k].key is ImtLeaf
            &&& exists|i: int|
                0 <= i < cursors.len() && (#[trigger] cursors[i]).before.tree
                    == sealed[k].key->ImtLeaf_tree && cursors[i].before.tree_sub
                    == sealed[k].key->ImtLeaf_tree_sub
            &&& forall|i: int, j: int|
                0 <= i < j < cursors.len() ==> (#[trigger] cursors[i]).before.tree != (
                #[trigger] cursors[j]).before.tree || cursors[i].before.tree_sub
                    != cursors[j].before.tree_sub
        },
{
    if let Ok(plan) = write_plan(registry, sealed, cursor_before) {
        let leaves = leaves_of(sealed, sealed.len())->Ok_0;
        let images = ordered_images(cursor_before, cursor_before.len())->Ok_0;
        let cursors = plan.cursor_puts;
        lemma_leaves_are_bound(sealed, sealed.len());
        lemma_cursors_move_their_images(registry, leaves, images, images.len());
        lemma_images_sorted(cursor_before, cursor_before.len());
        imt_family::law_leaf_is_read_from_its_row(sealed[k]);
        assert(imt_family::leaf_binding(sealed[k]) == Ok::<_, ImtPlanError>(leaves[k]));
        assert(has_tree(images, leaf_tree(leaves[k])));
        let i = choose|i: int|
            0 <= i < images.len() && image_tree(#[trigger] images[i]) == leaf_tree(leaves[k]);
        assert(cursors[i] == moved_cursor(leaves, images[i]));
        assert forall|i: int, j: int| 0 <= i < j < cursors.len() implies (
        #[trigger] cursors[i]).before.tree != (#[trigger] cursors[j]).before.tree
            || cursors[i].before.tree_sub != cursors[j].before.tree_sub by {
            assert(cursors[i] == moved_cursor(leaves, images[i]));
            assert(cursors[j] == moved_cursor(leaves, images[j]));
            assert(image_order()(images[i], images[j]));
        }
    }
}

} // verus!
