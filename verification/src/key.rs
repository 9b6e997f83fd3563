//! Locators: stable byte strings that name one row of one table.
//!
//! A locator is decoded only if the key that it names is located by exactly the same
//! bytes, so whoever starts from a recorded locator resolves it as the recorder did.

use vstd::prelude::*;

use crate::bytes;
use crate::bytes::{
    array_from, bytes_equal, copy_bytes, push_byte, push_bytes, push_u16, push_u32, push_u64,
    Cursor,
};
use crate::identity;
use crate::identity::{ScyllaKeyDomain, ScyllaPhysicalTableId};
use crate::model::{CheckpointId, UniquePendingId};
use crate::registry::{
    PsyLogicalTableId, Registry, RegistryReadiness, RegistryReadinessError, ScyllaSchemaFamily,
};
use crate::typed_key;
use crate::typed_key::{
    small_from_bits, small_to_bits, CheckpointedObjectKey, ImtEncodedKey, LatestInfoSlot, MerkleNode,
    ProcCheckpointUniqueId, TypedKey, TypedKeyModel, TypedTableKey, U64CounterSlot,
    U64SingletonSlot, LATEST_CHECKPOINT_SLOT, UNIQUE_PENDING_SLOT,
};

verus! {

pub const TABLE_SCHEMA_VERSION: u16 = 1;

/// `PSRK`.
pub const LOCATOR_MAGIC: [u8; 4] = [0x50, 0x53, 0x52, 0x4b];

/// `CQLPK`.
pub const CQL_FINGERPRINT_MAGIC: [u8; 5] = [0x43, 0x51, 0x4c, 0x50, 0x4b];

/// The primary key of a row as the database sees it.
#[verifier::ext_equal]
#[derive(Clone, Debug, PartialEq, Eq)]
pub struct CqlPrimaryKeyFingerprint<B> {
    pub bytes: B,
}

impl CqlPrimaryKeyFingerprint<Vec<u8>> {
    pub fn as_bytes(&self) -> (bytes: &[u8])
        ensures
            bytes@ == self.bytes@,
    {
        self.bytes.as_slice()
    }
}

/// A key with everything that it stands for.
#[verifier::ext_equal]
#[derive(Clone, Debug, PartialEq, Eq)]
pub struct ResolvedScyllaKey<B> {
    pub logical_table: PsyLogicalTableId,
    pub physical_table: ScyllaPhysicalTableId,
    pub key_domain: ScyllaKeyDomain,
    pub schema_family: ScyllaSchemaFamily,
    pub schema_version: u16,
    pub typed_key: TypedTableKey<B>,
    pub locator_bytes: B,
    pub cql_fingerprint: CqlPrimaryKeyFingerprint<B>,
}

pub type ResolvedKey = ResolvedScyllaKey<Vec<u8>>;

pub type ResolvedKeyModel = ResolvedScyllaKey<Seq<u8>>;

impl View for ResolvedScyllaKey<Vec<u8>> {
    type V = ResolvedScyllaKey<Seq<u8>>;

    open spec fn view(&self) -> ResolvedScyllaKey<Seq<u8>> {
        ResolvedScyllaKey {
            logical_table: self.logical_table,
            physical_table: self.physical_table,
            key_domain: self.key_domain,
            schema_family: self.schema_family,
            schema_version: self.schema_version,
            typed_key: self.typed_key@,
            locator_bytes: self.locator_bytes@,
            cql_fingerprint: CqlPrimaryKeyFingerprint { bytes: self.cql_fingerprint.bytes@ },
        }
    }
}

impl ResolvedScyllaKey<Vec<u8>> {
    pub fn logical_table(&self) -> (table: PsyLogicalTableId)
        ensures
            table == self@.logical_table,
    {
        self.logical_table
    }

    pub fn physical_table(&self) -> (table: ScyllaPhysicalTableId)
        ensures
            table == self@.physical_table,
    {
        self.physical_table
    }

    pub fn key_domain(&self) -> (key_domain: ScyllaKeyDomain)
        ensures
            key_domain == self@.key_domain,
    {
        self.key_domain
    }

    pub fn schema_family(&self) -> (family: ScyllaSchemaFamily)
        ensures
            family == self@.schema_family,
    {
        self.schema_family
    }

    pub fn schema_version(&self) -> (version: u16)
        ensures
            version == self@.schema_version,
    {
        self.schema_version
    }

    pub fn typed_key(&self) -> (key: &TypedKey)
        ensures
            key@ == self@.typed_key,
    {
        &self.typed_key
    }

    pub fn locator_bytes(&self) -> (bytes: &[u8])
        ensures
            bytes@ == self@.locator_bytes,
    {
        self.locator_bytes.as_slice()
    }

    pub fn cql_fingerprint(&self) -> (fingerprint: &CqlPrimaryKeyFingerprint<Vec<u8>>)
        ensures
            fingerprint.bytes@ == self@.cql_fingerprint.bytes,
    {
        &self.cql_fingerprint
    }
}

/// One coordinate of a key.
#[verifier::ext_equal]
#[derive(Clone, Debug, PartialEq, Eq)]
pub enum Field<B> {
    U8(u8),
    I16(i16),
    U64(u64),
    Bytes(B),
}

pub type FieldModel = Field<Seq<u8>>;

impl View for Field<Vec<u8>> {
    type V = Field<Seq<u8>>;

    open spec fn view(&self) -> Field<Seq<u8>> {
        match *self {
            Field::U8(value) => Field::U8(value),
            Field::I16(value) => Field::I16(value),
            Field::U64(value) => Field::U64(value),
            Field::Bytes(value) => Field::Bytes(value@),
        }
    }
}

/// The views of a list of fields.
pub open spec fn field_models(fields: Seq<Field<Vec<u8>>>) -> Seq<FieldModel> {
    fields.map_values(|field: Field<Vec<u8>>| field@)
}

/// The wire type of a field, and its bytes.
pub open spec fn payload_of(field: FieldModel) -> (u8, Seq<u8>) {
    match field {
        Field::U8(value) => (1, seq![value]),
        Field::I16(value) => (2, bytes::be16(typed_key::i16_bits(value))),
        Field::U64(value) => (3, bytes::be64(value)),
        Field::Bytes(value) => (4, value),
    }
}

pub fn field_payload(field: &Field<Vec<u8>>) -> (payload: (u8, Vec<u8>))
    ensures
        (payload.0, payload.1@) == payload_of(field@),
{
    let mut bytes: Vec<u8> = Vec::new();
    let wire_type: u8 = match field {
        Field::U8(value) => {
            push_byte(&mut bytes, *value);
            1
        },
        Field::I16(value) => {
            push_u16(&mut bytes, small_to_bits(*value));
            2
        },
        Field::U64(value) => {
            push_u64(&mut bytes, *value);
            3
        },
        Field::Bytes(value) => {
            push_bytes(&mut bytes, value);
            4
        },
    };
    assert(bytes@ =~= payload_of(field@).1);
    (wire_type, bytes)
}

/// A field in a locator: its number, its wire type, the length of its bytes in four
/// bytes, and its bytes.
pub open spec fn locator_field(number: u8, field: FieldModel) -> Seq<u8> {
    seq![number, payload_of(field).0] + bytes::counted(payload_of(field).1)
}

/// The fields of a locator, numbered from one.
pub open spec fn locator_fields(fields: Seq<FieldModel>) -> Seq<u8>
    decreases fields.len(),
{
    if fields.len() == 0 {
        Seq::empty()
    } else {
        locator_fields(fields.drop_last()) + locator_field(fields.len() as u8, fields.last())
    }
}

/// What stands before the fields of a locator.
pub open spec fn locator_head(
    codec_version: u16,
    table: ScyllaPhysicalTableId,
    key_domain: ScyllaKeyDomain,
    family: ScyllaSchemaFamily,
    count: u8,
) -> Seq<u8> {
    LOCATOR_MAGIC@ + bytes::be16(codec_version) + bytes::be16(table.spec_stable_id())
        + bytes::be16(TABLE_SCHEMA_VERSION) + bytes::be16(key_domain.spec_stable_id()) + seq![
        family.spec_codec_tag(),
        count,
    ]
}

pub open spec fn locator_of(
    codec_version: u16,
    table: ScyllaPhysicalTableId,
    key_domain: ScyllaKeyDomain,
    family: ScyllaSchemaFamily,
    fields: Seq<FieldModel>,
) -> Seq<u8> {
    locator_head(codec_version, table, key_domain, family, fields.len() as u8) + locator_fields(
        fields,
    )
}

/// Appends a length in its low four bytes, then the bytes.
fn push_payload(out: &mut Vec<u8>, payload: &[u8])
    ensures
        final(out)@ == old(out)@ + bytes::counted(payload@),
{
    push_u32(out, #[verifier::truncate] (payload.len() as u32));
    push_bytes(out, payload);
    assert(out@ =~= old(out)@ + bytes::counted(payload@));
}

pub fn encode_locator(
    codec_version: u16,
    table: ScyllaPhysicalTableId,
    key_domain: ScyllaKeyDomain,
    family: ScyllaSchemaFamily,
    fields: &Vec<Field<Vec<u8>>>,
) -> (locator: Vec<u8>)
    requires
        fields@.len() <= 255,
    ensures
        locator@ == locator_of(codec_version, table, key_domain, family, field_models(fields@)),
{
    let ghost models = field_models(fields@);
    let mut encoded: Vec<u8> = copy_bytes(&LOCATOR_MAGIC);
    push_u16(&mut encoded, codec_version);
    push_u16(&mut encoded, table.stable_id());
    push_u16(&mut encoded, TABLE_SCHEMA_VERSION);
    push_u16(&mut encoded, key_domain.stable_id());
    push_byte(&mut encoded, family.codec_tag());
    push_byte(&mut encoded, fields.len() as u8);
    let ghost head = locator_head(codec_version, table, key_domain, family, fields@.len() as u8);
    assert(encoded@ =~= head);
    assert(models.take(0) =~= Seq::<FieldModel>::empty());
    assert(encoded@ =~= head + locator_fields(models.take(0)));
    let mut i: usize = 0;
    while i < fields.len()
        invariant
            i <= fields@.len() <= 255,
            models == field_models(fields@),
            encoded@ == head + locator_fields(models.take(i as int)),
        decreases fields@.len() - i,
    {
        let ghost before = encoded@;
        let (wire_type, payload) = field_payload(&fields[i]);
        push_byte(&mut encoded, (i + 1) as u8);
        push_byte(&mut encoded, wire_type);
        push_payload(&mut encoded, &payload);
        proof {
            let next = models.take(i + 1);
            assert(next.drop_last() =~= models.take(i as int));
            assert(next.last() == fields@[i as int]@);
            assert(encoded@ =~= before + locator_field((i + 1) as u8, fields@[i as int]@));
            assert(encoded@ =~= head + locator_fields(next));
        }
        i += 1;
    }
    assert(models.take(fields@.len() as int) =~= models);
    encoded
}

/// The fields of a fingerprint, not numbered.
pub open spec fn fingerprint_fields(fields: Seq<FieldModel>) -> Seq<u8>
    decreases fields.len(),
{
    if fields.len() == 0 {
        Seq::empty()
    } else {
        fingerprint_fields(fields.drop_last()) + (seq![payload_of(fields.last()).0]
            + bytes::counted(payload_of(fields.last()).1))
    }
}

pub open spec fn fingerprint_of(
    table: ScyllaPhysicalTableId,
    family: ScyllaSchemaFamily,
    fields: Seq<FieldModel>,
) -> Seq<u8> {
    CQL_FINGERPRINT_MAGIC@ + bytes::be16(table.spec_stable_id()) + seq![
        family.spec_codec_tag(),
        fields.len() as u8,
    ] + fingerprint_fields(fields)
}

pub fn encode_cql_fingerprint(
    table: ScyllaPhysicalTableId,
    family: ScyllaSchemaFamily,
    fields: &Vec<Field<Vec<u8>>>,
) -> (fingerprint: CqlPrimaryKeyFingerprint<Vec<u8>>)
    requires
        fields@.len() <= 255,
    ensures
        fingerprint.bytes@ == fingerprint_of(table, family, field_models(fields@)),
{
    let ghost models = field_models(fields@);
    let mut encoded: Vec<u8> = copy_bytes(&CQL_FINGERPRINT_MAGIC);
    push_u16(&mut encoded, table.stable_id());
    push_byte(&mut encoded, family.codec_tag());
    push_byte(&mut encoded, fields.len() as u8);
    let ghost head = CQL_FINGERPRINT_MAGIC@ + bytes::be16(table.spec_stable_id()) + seq![
        family.spec_codec_tag(),
        fields@.len() as u8,
    ];
    assert(encoded@ =~= head);
    assert(models.take(0) =~= Seq::<FieldModel>::empty());
    assert(encoded@ =~= head + fingerprint_fields(models.take(0)));
    let mut i: usize = 0;
    while i < fields.len()
        invariant
            i <= fields@.len() <= 255,
            models == field_models(fields@),
            encoded@ == head + fingerprint_fields(models.take(i as int)),
        decreases fields@.len() - i,
    {
        let ghost before = encoded@;
        let (wire_type, payload) = field_payload(&fields[i]);
        push_byte(&mut encoded, wire_type);
        push_payload(&mut encoded, &payload);
        proof {
            let next = models.take(i + 1);
            assert(next.drop_last() =~= models.take(i as int));
            assert(next.last() == fields@[i as int]@);
            assert(encoded@ =~= head + fingerprint_fields(next));
        }
        i += 1;
    }
    assert(models.take(fields@.len() as int) =~= models);
    CqlPrimaryKeyFingerprint { bytes: encoded }
}

fn one_field(a: Field<Vec<u8>>) -> (fields: Vec<Field<Vec<u8>>>)
    ensures
        field_models(fields@) == seq![a@],
{
    let mut fields: Vec<Field<Vec<u8>>> = Vec::new();
    fields.push(a);
    assert(field_models(fields@) =~= seq![a@]);
    fields
}

fn two_fields(a: Field<Vec<u8>>, b: Field<Vec<u8>>) -> (fields: Vec<Field<Vec<u8>>>)
    ensures
        field_models(fields@) == seq![a@, b@],
{
    let mut fields = one_field(a);
    let ghost before = fields@;
    fields.push(b);
    assert(field_models(fields@) =~= field_models(before).push(b@));
    assert(field_models(fields@) =~= seq![a@, b@]);
    fields
}

fn three_fields(a: Field<Vec<u8>>, b: Field<Vec<u8>>, c: Field<Vec<u8>>) -> (fields: Vec<
    Field<Vec<u8>>,
>)
    ensures
        field_models(fields@) == seq![a@, b@, c@],
{
    let mut fields = two_fields(a, b);
    let ghost before = fields@;
    fields.push(c);
    assert(field_models(fields@) =~= field_models(before).push(c@));
    assert(field_models(fields@) =~= seq![a@, b@, c@]);
    fields
}

fn four_fields(
    a: Field<Vec<u8>>,
    b: Field<Vec<u8>>,
    c: Field<Vec<u8>>,
    d: Field<Vec<u8>>,
) -> (fields: Vec<Field<Vec<u8>>>)
    ensures
        field_models(fields@) == seq![a@, b@, c@, d@],
{
    let mut fields = three_fields(a, b, c);
    let ghost before = fields@;
    fields.push(d);
    assert(field_models(fields@) =~= field_models(before).push(d@));
    assert(field_models(fields@) =~= seq![a@, b@, c@, d@]);
    fields
}

fn five_fields(
    a: Field<Vec<u8>>,
    b: Field<Vec<u8>>,
    c: Field<Vec<u8>>,
    d: Field<Vec<u8>>,
    e: Field<Vec<u8>>,
) -> (fields: Vec<Field<Vec<u8>>>)
    ensures
        field_models(fields@) == seq![a@, b@, c@, d@, e@],
{
    let mut fields = four_fields(a, b, c, d);
    let ghost before = fields@;
    fields.push(e);
    assert(field_models(fields@) =~= field_models(before).push(e@));
    assert(field_models(fields@) =~= seq![a@, b@, c@, d@, e@]);
    fields
}

/// Where a key belongs: its table, its domain, and its coordinates.
pub open spec fn placed(key: TypedKeyModel) -> (
    ScyllaPhysicalTableId,
    ScyllaKeyDomain,
    Seq<FieldModel>,
) {
    match key {
        TypedTableKey::CheckpointLeaf(value) => (
            ScyllaPhysicalTableId::CheckpointLeaf,
            ScyllaKeyDomain::CheckpointLeaf,
            seq![Field::U64(value.value)],
        ),
        TypedTableKey::CheckpointRootByHash(value) => (
            ScyllaPhysicalTableId::CheckpointRootToCheckpointIdK1,
            ScyllaKeyDomain::CheckpointRootByHash,
            seq![Field::Bytes(value)],
        ),
        TypedTableKey::CheckpointRootByCheckpoint(value) => (
            ScyllaPhysicalTableId::CheckpointRootToCheckpointIdK2,
            ScyllaKeyDomain::CheckpointRootByCheckpoint,
            seq![Field::U64(value.value)],
        ),
        TypedTableKey::CheckpointLeafByHash(value) => (
            ScyllaPhysicalTableId::CheckpointLeafToCheckpointIdK1,
            ScyllaKeyDomain::CheckpointLeafByHash,
            seq![Field::Bytes(value)],
        ),
        TypedTableKey::CheckpointLeafByCheckpoint(value) => (
            ScyllaPhysicalTableId::CheckpointLeafToCheckpointIdK2,
            ScyllaKeyDomain::CheckpointLeafByCheckpoint,
            seq![Field::U64(value.value)],
        ),
        TypedTableKey::L2BlockState(value) => (
            ScyllaPhysicalTableId::L2BlockState,
            ScyllaKeyDomain::L2BlockState,
            seq![Field::U64(value.value)],
        ),
        TypedTableKey::UnusedCheckpointRealmRoot(value) => (
            ScyllaPhysicalTableId::CheckpointIdToRealmRoot,
            ScyllaKeyDomain::UnusedCheckpointRealmRoot,
            seq![Field::U64(value.value)],
        ),
        TypedTableKey::LatestInfo(slot) => (
            ScyllaPhysicalTableId::LatestInfo,
            if slot == LatestInfoSlot::RealmAuthorityObservation {
                ScyllaKeyDomain::RealmAuthorityObservation
            } else {
                ScyllaKeyDomain::LatestInfo
            },
            seq![Field::U64(slot.spec_number())],
        ),
        TypedTableKey::CheckpointedObject(object) => match object {
            CheckpointedObjectKey::GlobalUserProofAtCheckpoint(version) => (
                ScyllaPhysicalTableId::CheckpointedObject,
                ScyllaKeyDomain::CheckpointedGlobalUserProof,
                seq![Field::U64(1), Field::U64(version.value)],
            ),
            CheckpointedObjectKey::RewardsProofAtCheckpoint(version) => (
                ScyllaPhysicalTableId::CheckpointedObject,
                ScyllaKeyDomain::CheckpointedRewardsProofAtCheckpoint,
                seq![Field::U64(2), Field::U64(version.value)],
            ),
            CheckpointedObjectKey::RewardsProofAtPending(version) => (
                ScyllaPhysicalTableId::CheckpointedObject,
                ScyllaKeyDomain::CheckpointedRewardsProofAtPending,
                seq![Field::U64(2), Field::U64(version.value)],
            ),
            CheckpointedObjectKey::ContractStateProofAtCheckpoint(version) => (
                ScyllaPhysicalTableId::CheckpointedObject,
                ScyllaKeyDomain::CheckpointedContractStateProof,
                seq![Field::U64(3), Field::U64(version.value)],
            ),
        },
        TypedTableKey::CheckpointStateRoots(value) => (
            ScyllaPhysicalTableId::CheckpointStateRoots,
            ScyllaKeyDomain::CheckpointStateRoots,
            seq![Field::U64(value.value)],
        ),
        TypedTableKey::UserLeaf { user, checkpoint } => (
            ScyllaPhysicalTableId::UserLeaf,
            ScyllaKeyDomain::UserLeaf,
            seq![Field::U64(user), Field::U64(checkpoint.value)],
        ),
        TypedTableKey::UserPublicKey { user, checkpoint } => (
            ScyllaPhysicalTableId::UserPublicKey,
            ScyllaKeyDomain::UserPublicKey,
            seq![Field::U64(user), Field::U64(checkpoint.value)],
        ),
        TypedTableKey::U64Singleton(_) => (
            ScyllaPhysicalTableId::U64Singleton,
            ScyllaKeyDomain::U64Singleton,
            seq![Field::U64(LATEST_CHECKPOINT_SLOT)],
        ),
        TypedTableKey::U64Counter(_) => (
            ScyllaPhysicalTableId::U64CounterSingleton,
            ScyllaKeyDomain::U64Counter,
            seq![Field::U64(UNIQUE_PENDING_SLOT)],
        ),
        TypedTableKey::ContractStateTreeHeight { contract, checkpoint } => (
            ScyllaPhysicalTableId::ContractStateTreeHeight,
            ScyllaKeyDomain::ContractStateTreeHeight,
            seq![Field::U64(contract), Field::U64(checkpoint.value)],
        ),
        TypedTableKey::CheckpointToPending(value) => (
            ScyllaPhysicalTableId::CheckpointIdToPendingId,
            ScyllaKeyDomain::CheckpointToPending,
            seq![Field::U64(value.value)],
        ),
        TypedTableKey::PendingToCheckpoint(value) => (
            ScyllaPhysicalTableId::PendingIdToCheckpointId,
            ScyllaKeyDomain::PendingToCheckpoint,
            seq![Field::U64(value.value)],
        ),
        TypedTableKey::PendingToProc(value) => (
            ScyllaPhysicalTableId::PendingIdToPendingProcIdU64ToU128,
            ScyllaKeyDomain::PendingToProc,
            seq![Field::U64(value.value)],
        ),
        TypedTableKey::ProcToPending(value) => (
            ScyllaPhysicalTableId::PendingIdToPendingProcIdU128ToU64,
            ScyllaKeyDomain::ProcToPending,
            seq![Field::Bytes(value.bytes@)],
        ),
        TypedTableKey::RealmRewardNode { realm, pending } => (
            ScyllaPhysicalTableId::RealmRewardsTreeNodeKey,
            ScyllaKeyDomain::RealmRewardNode,
            seq![Field::U64(realm), Field::U64(pending.value)],
        ),
        TypedTableKey::PublicKeyToUser { public_key_hash, user } => (
            ScyllaPhysicalTableId::PublicKeyHashToUserIds,
            ScyllaKeyDomain::PublicKeyToUser,
            seq![Field::Bytes(public_key_hash), Field::U64(user)],
        ),
        TypedTableKey::GlobalUserMerkle { node, checkpoint } => (
            ScyllaPhysicalTableId::GlobalUserTree,
            ScyllaKeyDomain::GlobalUserMerkle,
            seq![Field::U8(node.level), Field::U64(node.index), Field::U64(checkpoint.value)],
        ),
        TypedTableKey::UserContractMerkle { user, node, checkpoint } => (
            ScyllaPhysicalTableId::UserContractTree,
            ScyllaKeyDomain::UserContractMerkle,
            seq![
                Field::U64(user),
                Field::U8(node.level),
                Field::U64(node.index),
                Field::U64(checkpoint.value),
            ],
        ),
        TypedTableKey::ContractStateMerkle { user, contract, node, checkpoint } => (
            ScyllaPhysicalTableId::ContractStateTree,
            ScyllaKeyDomain::ContractStateMerkle,
            seq![
                Field::U64(user),
                Field::U64(contract),
                Field::U8(node.level),
                Field::U64(node.index),
                Field::U64(checkpoint.value),
            ],
        ),
        TypedTableKey::GlobalCheckpointMerkle { node, checkpoint } => (
            ScyllaPhysicalTableId::GlobalCheckpointTree,
            ScyllaKeyDomain::GlobalCheckpointMerkle,
            seq![Field::U8(node.level), Field::U64(node.index), Field::U64(checkpoint.value)],
        ),
        TypedTableKey::RewardTagMerkle { pending, node } => (
            ScyllaPhysicalTableId::GutaRewardTagTree,
            ScyllaKeyDomain::RewardTagMerkle,
            seq![Field::U64(pending.value), Field::U8(node.level), Field::U64(node.index)],
        ),
        TypedTableKey::UserRegistrationMerkle { node, checkpoint } => (
            ScyllaPhysicalTableId::UserRegistrationTree,
            ScyllaKeyDomain::UserRegistrationMerkle,
            seq![Field::U8(node.level), Field::U64(node.index), Field::U64(checkpoint.value)],
        ),
        TypedTableKey::GlobalContractMerkle { node, checkpoint } => (
            ScyllaPhysicalTableId::GlobalContractTree,
            ScyllaKeyDomain::GlobalContractMerkle,
            seq![Field::U8(node.level), Field::U64(node.index), Field::U64(checkpoint.value)],
        ),
        TypedTableKey::ContractFunctionMerkle { contract, node, checkpoint } => (
            ScyllaPhysicalTableId::ContractFunctionTree,
            ScyllaKeyDomain::ContractFunctionMerkle,
            seq![
                Field::U64(contract),
                Field::U8(node.level),
                Field::U64(node.index),
                Field::U64(checkpoint.value),
            ],
        ),
        TypedTableKey::ContractLeaf { contract, checkpoint } => (
            ScyllaPhysicalTableId::ContractLeaf,
            ScyllaKeyDomain::ContractLeaf,
            seq![Field::U64(contract), Field::U64(checkpoint.value)],
        ),
        TypedTableKey::ContractCodeDefinition { contract, checkpoint } => (
            ScyllaPhysicalTableId::ContractCodeDefinition,
            ScyllaKeyDomain::ContractCodeDefinition,
            seq![Field::U64(contract), Field::U64(checkpoint.value)],
        ),
        TypedTableKey::CheckpointZkProof(value) => (
            ScyllaPhysicalTableId::CheckpointZkProofAndTransition,
            ScyllaKeyDomain::CheckpointZkProof,
            seq![Field::U64(value.value)],
        ),
        TypedTableKey::ImtLeaf { tree, tree_sub, leaf, checkpoint } => (
            ScyllaPhysicalTableId::ImtLeaf,
            ScyllaKeyDomain::ImtLeaf,
            seq![Field::U64(tree), Field::U64(tree_sub), Field::U64(leaf), Field::U64(checkpoint.value)],
        ),
        TypedTableKey::ImtKeyIndex { tree, tree_sub, encoded_key } => (
            ScyllaPhysicalTableId::ImtKeyIndex,
            ScyllaKeyDomain::ImtKeyIndex,
            seq![
                Field::U64(tree),
                Field::U64(tree_sub),
                Field::I16(typed_key::key_bucket(encoded_key.bytes@)),
                Field::Bytes(encoded_key.bytes@),
            ],
        ),
        TypedTableKey::ImtCursor { tree, tree_sub } => (
            ScyllaPhysicalTableId::ImtNextAppendIndex,
            ScyllaKeyDomain::ImtCursor,
            seq![Field::U64(tree), Field::U64(tree_sub)],
        ),
    }
}

fn place(key: &TypedKey) -> (place: (ScyllaPhysicalTableId, ScyllaKeyDomain, Vec<Field<Vec<u8>>>))
    ensures
        (place.0, place.1, field_models(place.2@)) == placed(key@),
        place.2@.len() <= 5,
{
    let place = match key {
        TypedTableKey::CheckpointLeaf(value) => (
            ScyllaPhysicalTableId::CheckpointLeaf,
            ScyllaKeyDomain::CheckpointLeaf,
            one_field(Field::U64(value.value)),
        ),
        TypedTableKey::CheckpointRootByHash(value) => (
            ScyllaPhysicalTableId::CheckpointRootToCheckpointIdK1,
            ScyllaKeyDomain::CheckpointRootByHash,
            one_field(Field::Bytes(copy_bytes(value))),
        ),
        TypedTableKey::CheckpointRootByCheckpoint(value) => (
            ScyllaPhysicalTableId::CheckpointRootToCheckpointIdK2,
            ScyllaKeyDomain::CheckpointRootByCheckpoint,
            one_field(Field::U64(value.value)),
        ),
        TypedTableKey::CheckpointLeafByHash(value) => (
            ScyllaPhysicalTableId::CheckpointLeafToCheckpointIdK1,
            ScyllaKeyDomain::CheckpointLeafByHash,
            one_field(Field::Bytes(copy_bytes(value))),
        ),
        TypedTableKey::CheckpointLeafByCheckpoint(value) => (
            ScyllaPhysicalTableId::CheckpointLeafToCheckpointIdK2,
            ScyllaKeyDomain::CheckpointLeafByCheckpoint,
            one_field(Field::U64(value.value)),
        ),
        TypedTableKey::L2BlockState(value) => (
            ScyllaPhysicalTableId::L2BlockState,
            ScyllaKeyDomain::L2BlockState,
            one_field(Field::U64(value.value)),
        ),
        TypedTableKey::UnusedCheckpointRealmRoot(value) => (
            ScyllaPhysicalTableId::CheckpointIdToRealmRoot,
            ScyllaKeyDomain::UnusedCheckpointRealmRoot,
            one_field(Field::U64(value.value)),
        ),
        TypedTableKey::LatestInfo(slot) => (
            ScyllaPhysicalTableId::LatestInfo,
            match slot {
                LatestInfoSlot::RealmAuthorityObservation => {
                    ScyllaKeyDomain::RealmAuthorityObservation
                },
                _ => ScyllaKeyDomain::LatestInfo,
            },
            one_field(Field::U64(slot.number())),
        ),
        TypedTableKey::CheckpointedObject(object) => match object {
            CheckpointedObjectKey::GlobalUserProofAtCheckpoint(version) => (
                ScyllaPhysicalTableId::CheckpointedObject,
                ScyllaKeyDomain::CheckpointedGlobalUserProof,
                two_fields(Field::U64(1), Field::U64(version.value)),
            ),
            CheckpointedObjectKey::RewardsProofAtCheckpoint(version) => (
                ScyllaPhysicalTableId::CheckpointedObject,
                ScyllaKeyDomain::CheckpointedRewardsProofAtCheckpoint,
                two_fields(Field::U64(2), Field::U64(version.value)),
            ),
            CheckpointedObjectKey::RewardsProofAtPending(version) => (
                ScyllaPhysicalTableId::CheckpointedObject,
                ScyllaKeyDomain::CheckpointedRewardsProofAtPending,
                two_fields(Field::U64(2), Field::U64(version.value)),
            ),
            CheckpointedObjectKey::ContractStateProofAtCheckpoint(version) => (
                ScyllaPhysicalTableId::CheckpointedObject,
                ScyllaKeyDomain::CheckpointedContractStateProof,
                two_fields(Field::U64(3), Field::U64(version.value)),
            ),
        },
        TypedTableKey::CheckpointStateRoots(value) => (
            ScyllaPhysicalTableId::CheckpointStateRoots,
            ScyllaKeyDomain::CheckpointStateRoots,
            one_field(Field::U64(value.value)),
        ),
        TypedTableKey::UserLeaf { user, checkpoint } => (
            ScyllaPhysicalTableId::UserLeaf,
            ScyllaKeyDomain::UserLeaf,
            two_fields(Field::U64(*user), Field::U64(checkpoint.value)),
        ),
        TypedTableKey::UserPublicKey { user, checkpoint } => (
            ScyllaPhysicalTableId::UserPublicKey,
            ScyllaKeyDomain::UserPublicKey,
            two_fields(Field::U64(*user), Field::U64(checkpoint.value)),
        ),
        TypedTableKey::U64Singleton(_) => (
            ScyllaPhysicalTableId::U64Singleton,
            ScyllaKeyDomain::U64Singleton,
            one_field(Field::U64(LATEST_CHECKPOINT_SLOT)),
        ),
        TypedTableKey::U64Counter(_) => (
            ScyllaPhysicalTableId::U64CounterSingleton,
            ScyllaKeyDomain::U64Counter,
            one_field(Field::U64(UNIQUE_PENDING_SLOT)),
        ),
        TypedTableKey::ContractStateTreeHeight { contract, checkpoint } => (
            ScyllaPhysicalTableId::ContractStateTreeHeight,
            ScyllaKeyDomain::ContractStateTreeHeight,
            two_fields(Field::U64(*contract), Field::U64(checkpoint.value)),
        ),
        TypedTableKey::CheckpointToPending(value) => (
            ScyllaPhysicalTableId::CheckpointIdToPendingId,
            ScyllaKeyDomain::CheckpointToPending,
            one_field(Field::U64(value.value)),
        ),
        TypedTableKey::PendingToCheckpoint(value) => (
            ScyllaPhysicalTableId::PendingIdToCheckpointId,
            ScyllaKeyDomain::PendingToCheckpoint,
            one_field(Field::U64(value.value)),
        ),
        TypedTableKey::PendingToProc(value) => (
            ScyllaPhysicalTableId::PendingIdToPendingProcIdU64ToU128,
            ScyllaKeyDomain::PendingToProc,
            one_field(Field::U64(value.value)),
        ),
        TypedTableKey::ProcToPending(value) => (
            ScyllaPhysicalTableId::PendingIdToPendingProcIdU128ToU64,
            ScyllaKeyDomain::ProcToPending,
            one_field(Field::Bytes(copy_bytes(&value.bytes))),
        ),
        TypedTableKey::RealmRewardNode { realm, pending } => (
            ScyllaPhysicalTableId::RealmRewardsTreeNodeKey,
            ScyllaKeyDomain::RealmRewardNode,
            two_fields(Field::U64(*realm), Field::U64(pending.value)),
        ),
        TypedTableKey::PublicKeyToUser { public_key_hash, user } => (
            ScyllaPhysicalTableId::PublicKeyHashToUserIds,
            ScyllaKeyDomain::PublicKeyToUser,
            two_fields(Field::Bytes(copy_bytes(public_key_hash)), Field::U64(*user)),
        ),
        TypedTableKey::GlobalUserMerkle { node, checkpoint } => (
            ScyllaPhysicalTableId::GlobalUserTree,
            ScyllaKeyDomain::GlobalUserMerkle,
            three_fields(Field::U8(node.level), Field::U64(node.index), Field::U64(checkpoint.value)),
        ),
        TypedTableKey::UserContractMerkle { user, node, checkpoint } => (
            ScyllaPhysicalTableId::UserContractTree,
            ScyllaKeyDomain::UserContractMerkle,
            four_fields(
                Field::U64(*user),
                Field::U8(node.level),
                Field::U64(node.index),
                Field::U64(checkpoint.value),
            ),
        ),
        TypedTableKey::ContractStateMerkle { user, contract, node, checkpoint } => (
            ScyllaPhysicalTableId::ContractStateTree,
            ScyllaKeyDomain::ContractStateMerkle,
            five_fields(
                Field::U64(*user),
                Field::U64(*contract),
                Field::U8(node.level),
                Field::U64(node.index),
                Field::U64(checkpoint.value),
            ),
        ),
        TypedTableKey::GlobalCheckpointMerkle { node, checkpoint } => (
            ScyllaPhysicalTableId::GlobalCheckpointTree,
            ScyllaKeyDomain::GlobalCheckpointMerkle,
            three_fields(Field::U8(node.level), Field::U64(node.index), Field::U64(checkpoint.value)),
        ),
        TypedTableKey::RewardTagMerkle { pending, node } => (
            ScyllaPhysicalTableId::GutaRewardTagTree,
            ScyllaKeyDomain::RewardTagMerkle,
            three_fields(Field::U64(pending.value), Field::U8(node.level), Field::U64(node.index)),
        ),
        TypedTableKey::UserRegistrationMerkle { node, checkpoint } => (
            ScyllaPhysicalTableId::UserRegistrationTree,
            ScyllaKeyDomain::UserRegistrationMerkle,
            three_fields(Field::U8(node.level), Field::U64(node.index), Field::U64(checkpoint.value)),
        ),
        TypedTableKey::GlobalContractMerkle { node, checkpoint } => (
            ScyllaPhysicalTableId::GlobalContractTree,
            ScyllaKeyDomain::GlobalContractMerkle,
            three_fields(Field::U8(node.level), Field::U64(node.index), Field::U64(checkpoint.value)),
        ),
        TypedTableKey::ContractFunctionMerkle { contract, node, checkpoint } => (
            ScyllaPhysicalTableId::ContractFunctionTree,
            ScyllaKeyDomain::ContractFunctionMerkle,
            four_fields(
                Field::U64(*contract),
                Field::U8(node.level),
                Field::U64(node.index),
                Field::U64(checkpoint.value),
            ),
        ),
        TypedTableKey::ContractLeaf { contract, checkpoint } => (
            ScyllaPhysicalTableId::ContractLeaf,
            ScyllaKeyDomain::ContractLeaf,
            two_fields(Field::U64(*contract), Field::U64(checkpoint.value)),
        ),
        TypedTableKey::ContractCodeDefinition { contract, checkpoint } => (
            ScyllaPhysicalTableId::ContractCodeDefinition,
            ScyllaKeyDomain::ContractCodeDefinition,
            two_fields(Field::U64(*contract), Field::U64(checkpoint.value)),
        ),
        TypedTableKey::CheckpointZkProof(value) => (
            ScyllaPhysicalTableId::CheckpointZkProofAndTransition,
            ScyllaKeyDomain::CheckpointZkProof,
            one_field(Field::U64(value.value)),
        ),
        TypedTableKey::ImtLeaf { tree, tree_sub, leaf, checkpoint } => (
            ScyllaPhysicalTableId::ImtLeaf,
            ScyllaKeyDomain::ImtLeaf,
            four_fields(
                Field::U64(*tree),
                Field::U64(*tree_sub),
                Field::U64(*leaf),
                Field::U64(checkpoint.value),
            ),
        ),
        TypedTableKey::ImtKeyIndex { tree, tree_sub, encoded_key } => (
            ScyllaPhysicalTableId::ImtKeyIndex,
            ScyllaKeyDomain::ImtKeyIndex,
            four_fields(
                Field::U64(*tree),
                Field::U64(*tree_sub),
                Field::I16(encoded_key.cql_bucket()),
                Field::Bytes(copy_bytes(&encoded_key.bytes)),
            ),
        ),
        TypedTableKey::ImtCursor { tree, tree_sub } => (
            ScyllaPhysicalTableId::ImtNextAppendIndex,
            ScyllaKeyDomain::ImtCursor,
            two_fields(Field::U64(*tree), Field::U64(*tree_sub)),
        ),
    };
    assert(field_models(place.2@).len() == place.2@.len());
    place
}

/// A key, described over the tables of a registry.
pub open spec fn described(registry: &Registry, key: TypedKeyModel) -> Option<ResolvedKeyModel> {
    let (table, key_domain, fields) = placed(key);
    match registry.table(table) {
        None => None,
        Some(descriptor) => Some(
            ResolvedScyllaKey {
                logical_table: descriptor.logical_owner,
                physical_table: table,
                key_domain,
                schema_family: descriptor.schema_family,
                schema_version: TABLE_SCHEMA_VERSION,
                typed_key: key,
                locator_bytes: locator_of(
                    registry.spec_key_codec_version(),
                    table,
                    key_domain,
                    descriptor.schema_family,
                    fields,
                ),
                cql_fingerprint: CqlPrimaryKeyFingerprint {
                    bytes: fingerprint_of(table, descriptor.schema_family, fields),
                },
            },
        ),
    }
}

pub open spec fn optional_key(key: Option<ResolvedKey>) -> Option<ResolvedKeyModel> {
    match key {
        Some(key) => Some(key@),
        None => None,
    }
}

/// Describes an existing key, also of a blocked or retired domain. It does not say that
/// the key can be rolled back. `None` where the registry does not hold the key's table.
pub fn describe_existing_key(key: &TypedKey, registry: &Registry) -> (resolved: Option<ResolvedKey>)
    ensures
        optional_key(resolved) == described(registry, key@),
{
    let (table, key_domain, fields) = place(key);
    let descriptor = match registry.physical_descriptor(table) {
        None => return None,
        Some(descriptor) => descriptor,
    };
    let locator_bytes = encode_locator(
        registry.key_codec_version(),
        table,
        key_domain,
        descriptor.schema_family,
        &fields,
    );
    let cql_fingerprint = encode_cql_fingerprint(table, descriptor.schema_family, &fields);
    Some(
        ResolvedScyllaKey {
            logical_table: descriptor.logical_owner,
            physical_table: table,
            key_domain,
            schema_family: descriptor.schema_family,
            schema_version: TABLE_SCHEMA_VERSION,
            typed_key: key.copy(),
            locator_bytes,
            cql_fingerprint,
        },
    )
}

/// A key that can be rolled back.
pub open spec fn rollback_key(registry: &Registry, key: TypedKeyModel) -> Result<
    ResolvedKeyModel,
    RegistryReadinessError,
> {
    match (described(registry, key), registry.domain(placed(key).1)) {
        (Some(resolved), Some(descriptor)) => if descriptor.readiness != RegistryReadiness::Ready {
            Err(
                RegistryReadinessError::NotReady {
                    key_domain: descriptor.id,
                    readiness: descriptor.readiness,
                },
            )
        } else {
            Ok(resolved)
        },
        _ => Err(RegistryReadinessError::NotRegistered(placed(key).1)),
    }
}

pub open spec fn rollback_result(result: Result<ResolvedKey, RegistryReadinessError>) -> Result<
    ResolvedKeyModel,
    RegistryReadinessError,
> {
    match result {
        Ok(key) => Ok(key@),
        Err(error) => Err(error),
    }
}

/// Resolves a key whose domain is ready to be rolled back.
pub fn resolve_key_for_rollback(key: &TypedKey, registry: &Registry) -> (result: Result<
    ResolvedKey,
    RegistryReadinessError,
>)
    ensures
        rollback_result(result) == rollback_key(registry, key@),
{
    let (_, key_domain, _) = place(key);
    let resolved = match describe_existing_key(key, registry) {
        None => return Err(RegistryReadinessError::NotRegistered(key_domain)),
        Some(resolved) => resolved,
    };
    match registry.key_domain_descriptor(key_domain) {
        None => Err(RegistryReadinessError::NotRegistered(key_domain)),
        Some(descriptor) => {
            descriptor.require_rollback_ready()?;
            Ok(resolved)
        },
    }
}

/// What a failed reading says.
pub open spec fn said<T>(result: Result<T, &'static str>) -> Result<T, Seq<char>> {
    match result {
        Ok(value) => Ok(value),
        Err(message) => Err(message@),
    }
}

pub open spec fn checkpoint_of(value: u64) -> Result<CheckpointId, Seq<char>> {
    if value > i64::MAX {
        Err("checkpoint out of range"@)
    } else {
        Ok(CheckpointId { value })
    }
}

fn checkpoint(value: u64) -> (result: Result<CheckpointId, &'static str>)
    ensures
        said(result) == checkpoint_of(value),
{
    match CheckpointId::try_new(value) {
        Some(checkpoint) => Ok(checkpoint),
        None => Err("checkpoint out of range"),
    }
}

pub open spec fn pending_of(value: u64) -> Result<UniquePendingId, Seq<char>> {
    if value == 0 || value > i64::MAX {
        Err("pending id out of range"@)
    } else {
        Ok(UniquePendingId { value })
    }
}

fn pending(value: u64) -> (result: Result<UniquePendingId, &'static str>)
    ensures
        said(result) == pending_of(value),
{
    match UniquePendingId::try_new(value) {
        Some(pending) => Ok(pending),
        None => Err("pending id out of range"),
    }
}

pub open spec fn u8_field(fields: Seq<FieldModel>, index: int) -> Result<u8, Seq<char>> {
    if index < fields.len() && fields[index] is U8 {
        Ok(fields[index]->U8_0)
    } else {
        Err("locator field is not u8"@)
    }
}

fn expect_u8(fields: &Vec<Field<Vec<u8>>>, index: usize) -> (result: Result<u8, &'static str>)
    ensures
        said(result) == u8_field(field_models(fields@), index as int),
{
    if index < fields.len() {
        match &fields[index] {
            Field::U8(value) => return Ok(*value),
            _ => {},
        }
    }
    Err("locator field is not u8")
}

pub open spec fn i16_field(fields: Seq<FieldModel>, index: int) -> Result<i16, Seq<char>> {
    if index < fields.len() && fields[index] is I16 {
        Ok(fields[index]->I16_0)
    } else {
        Err("locator field is not i16"@)
    }
}

fn expect_i16(fields: &Vec<Field<Vec<u8>>>, index: usize) -> (result: Result<i16, &'static str>)
    ensures
        said(result) == i16_field(field_models(fields@), index as int),
{
    if index < fields.len() {
        match &fields[index] {
            Field::I16(value) => return Ok(*value),
            _ => {},
        }
    }
    Err("locator field is not i16")
}

pub open spec fn u64_field(fields: Seq<FieldModel>, index: int) -> Result<u64, Seq<char>> {
    if index < fields.len() && fields[index] is U64 {
        Ok(fields[index]->U64_0)
    } else {
        Err("locator field is not u64"@)
    }
}

fn expect_u64(fields: &Vec<Field<Vec<u8>>>, index: usize) -> (result: Result<u64, &'static str>)
    ensures
        said(result) == u64_field(field_models(fields@), index as int),
{
    if index < fields.len() {
        match &fields[index] {
            Field::U64(value) => return Ok(*value),
            _ => {},
        }
    }
    Err("locator field is not u64")
}

pub open spec fn bytes_field(fields: Seq<FieldModel>, index: int) -> Result<Seq<u8>, Seq<char>> {
    if index < fields.len() && fields[index] is Bytes {
        Ok(fields[index]->Bytes_0)
    } else {
        Err("locator field is not bytes"@)
    }
}

fn expect_bytes<'a>(fields: &'a Vec<Field<Vec<u8>>>, index: usize) -> (result: Result<
    &'a [u8],
    &'static str,
>)
    ensures
        match result {
            Ok(value) => bytes_field(field_models(fields@), index as int) == Ok::<_, Seq<char>>(
                value@,
            ),
            Err(message) => bytes_field(field_models(fields@), index as int) == Err::<Seq<u8>, _>(
                message@,
            ),
        },
{
    if index < fields.len() {
        match &fields[index] {
            Field::Bytes(value) => return Ok(value.as_slice()),
            _ => {},
        }
    }
    Err("locator field is not bytes")
}

pub open spec fn field_count(fields: Seq<FieldModel>, count: int) -> Result<(), Seq<char>> {
    if fields.len() == count {
        Ok(())
    } else {
        Err("wrong locator field count"@)
    }
}

fn expect_field_count(fields: &Vec<Field<Vec<u8>>>, count: usize) -> (result: Result<
    (),
    &'static str,
>)
    ensures
        said(result) == field_count(field_models(fields@), count as int),
{
    if fields.len() == count {
        Ok(())
    } else {
        Err("wrong locator field count")
    }
}

/// Then the next reading.
pub open spec fn next<T, U>(result: Result<T, Seq<char>>, step: spec_fn(T) -> Result<U, Seq<char>>) -> Result<
    U,
    Seq<char>,
> {
    match result {
        Ok(value) => step(value),
        Err(message) => Err(message),
    }
}

pub open spec fn checkpoint_field(fields: Seq<FieldModel>, index: int) -> Result<
    CheckpointId,
    Seq<char>,
> {
    next(u64_field(fields, index), |value: u64| checkpoint_of(value))
}

fn expect_checkpoint(fields: &Vec<Field<Vec<u8>>>, index: usize) -> (result: Result<
    CheckpointId,
    &'static str,
>)
    ensures
        said(result) == checkpoint_field(field_models(fields@), index as int),
{
    checkpoint(expect_u64(fields, index)?)
}

pub open spec fn pending_field(fields: Seq<FieldModel>, index: int) -> Result<
    UniquePendingId,
    Seq<char>,
> {
    next(u64_field(fields, index), |value: u64| pending_of(value))
}

fn expect_pending(fields: &Vec<Field<Vec<u8>>>, index: usize) -> (result: Result<
    UniquePendingId,
    &'static str,
>)
    ensures
        said(result) == pending_field(field_models(fields@), index as int),
{
    pending(expect_u64(fields, index)?)
}

pub open spec fn node_field(fields: Seq<FieldModel>, level: int) -> Result<MerkleNode, Seq<char>> {
    next(
        u8_field(fields, level),
        |level_value: u8|
            next(
                u64_field(fields, level + 1),
                |index: u64|
                    Ok::<MerkleNode, Seq<char>>(MerkleNode { level: level_value, index }),
            ),
    )
}

fn merkle_node(fields: &Vec<Field<Vec<u8>>>, level: usize) -> (result: Result<
    MerkleNode,
    &'static str,
>)
    requires
        level < 8,
    ensures
        said(result) == node_field(field_models(fields@), level as int),
{
    let level_value: u8 = expect_u8(fields, level)?;
    let index: u64 = expect_u64(fields, level + 1)?;
    Ok(MerkleNode { level: level_value, index })
}

/// A key of one checkpoint.
pub open spec fn checkpoint_alone(fields: Seq<FieldModel>) -> Result<CheckpointId, Seq<char>> {
    next(field_count(fields, 1), |counted: ()| checkpoint_field(fields, 0))
}

fn expect_checkpoint_alone(fields: &Vec<Field<Vec<u8>>>) -> (result: Result<
    CheckpointId,
    &'static str,
>)
    ensures
        said(result) == checkpoint_alone(field_models(fields@)),
{
    expect_field_count(fields, 1)?;
    expect_checkpoint(fields, 0)
}

/// A key of one pending identity.
pub open spec fn pending_alone(fields: Seq<FieldModel>) -> Result<UniquePendingId, Seq<char>> {
    next(field_count(fields, 1), |counted: ()| pending_field(fields, 0))
}

fn expect_pending_alone(fields: &Vec<Field<Vec<u8>>>) -> (result: Result<
    UniquePendingId,
    &'static str,
>)
    ensures
        said(result) == pending_alone(field_models(fields@)),
{
    expect_field_count(fields, 1)?;
    expect_pending(fields, 0)
}

/// A key of one number, of which there are only a few.
pub open spec fn number_alone(fields: Seq<FieldModel>) -> Result<u64, Seq<char>> {
    next(field_count(fields, 1), |counted: ()| u64_field(fields, 0))
}

fn expect_number_alone(fields: &Vec<Field<Vec<u8>>>) -> (result: Result<u64, &'static str>)
    ensures
        said(result) == number_alone(field_models(fields@)),
{
    expect_field_count(fields, 1)?;
    expect_u64(fields, 0)
}

/// A key of one byte string.
pub open spec fn bytes_alone(fields: Seq<FieldModel>) -> Result<Seq<u8>, Seq<char>> {
    next(field_count(fields, 1), |counted: ()| bytes_field(fields, 0))
}

fn expect_bytes_alone<'a>(fields: &'a Vec<Field<Vec<u8>>>) -> (result: Result<
    &'a [u8],
    &'static str,
>)
    ensures
        match result {
            Ok(value) => bytes_alone(field_models(fields@)) == Ok::<_, Seq<char>>(value@),
            Err(message) => bytes_alone(field_models(fields@)) == Err::<Seq<u8>, _>(message@),
        },
{
    expect_field_count(fields, 1)?;
    expect_bytes(fields, 0)
}

/// A key of an object and a checkpoint.
pub open spec fn object_at_checkpoint(fields: Seq<FieldModel>) -> Result<
    (u64, CheckpointId),
    Seq<char>,
> {
    next(
        field_count(fields, 2),
        |counted: ()|
            next(
                u64_field(fields, 0),
                |object: u64|
                    next(
                        checkpoint_field(fields, 1),
                        |checkpoint: CheckpointId|
                            Ok::<(u64, CheckpointId), Seq<char>>((object, checkpoint)),
                    ),
            ),
    )
}

fn expect_object_at_checkpoint(fields: &Vec<Field<Vec<u8>>>) -> (result: Result<
    (u64, CheckpointId),
    &'static str,
>)
    ensures
        said(result) == object_at_checkpoint(field_models(fields@)),
{
    expect_field_count(fields, 2)?;
    let object: u64 = expect_u64(fields, 0)?;
    let checkpoint = expect_checkpoint(fields, 1)?;
    Ok((object, checkpoint))
}

/// The last coordinates of a key of a Merkle node at a checkpoint.
pub open spec fn node_at_checkpoint(fields: Seq<FieldModel>, at: int) -> Result<
    (MerkleNode, CheckpointId),
    Seq<char>,
> {
    next(
        node_field(fields, at),
        |node: MerkleNode|
            next(
                checkpoint_field(fields, at + 2),
                |checkpoint: CheckpointId|
                    Ok::<(MerkleNode, CheckpointId), Seq<char>>((node, checkpoint)),
            ),
    )
}

fn expect_node_at_checkpoint(fields: &Vec<Field<Vec<u8>>>, at: usize) -> (result: Result<
    (MerkleNode, CheckpointId),
    &'static str,
>)
    requires
        at < 8,
    ensures
        said(result) == node_at_checkpoint(field_models(fields@), at as int),
{
    let node = merkle_node(fields, at)?;
    let checkpoint = expect_checkpoint(fields, at + 2)?;
    Ok((node, checkpoint))
}

/// A key that is a Merkle node at a checkpoint, and nothing else.
pub open spec fn node_alone(fields: Seq<FieldModel>) -> Result<
    (MerkleNode, CheckpointId),
    Seq<char>,
> {
    next(field_count(fields, 3), |counted: ()| node_at_checkpoint(fields, 0))
}

fn expect_node_alone(fields: &Vec<Field<Vec<u8>>>) -> (result: Result<
    (MerkleNode, CheckpointId),
    &'static str,
>)
    ensures
        said(result) == node_alone(field_models(fields@)),
{
    expect_field_count(fields, 3)?;
    expect_node_at_checkpoint(fields, 0)
}

/// A key of a Merkle node of one object.
pub open spec fn object_node(fields: Seq<FieldModel>) -> Result<
    (u64, MerkleNode, CheckpointId),
    Seq<char>,
> {
    next(
        field_count(fields, 4),
        |counted: ()|
            next(
                u64_field(fields, 0),
                |object: u64|
                    next(
                        node_at_checkpoint(fields, 1),
                        |node: (MerkleNode, CheckpointId)|
                            Ok::<(u64, MerkleNode, CheckpointId), Seq<char>>(
                                (object, node.0, node.1),
                            ),
                    ),
            ),
    )
}

fn expect_object_node(fields: &Vec<Field<Vec<u8>>>) -> (result: Result<
    (u64, MerkleNode, CheckpointId),
    &'static str,
>)
    ensures
        said(result) == object_node(field_models(fields@)),
{
    expect_field_count(fields, 4)?;
    let object: u64 = expect_u64(fields, 0)?;
    let (node, checkpoint) = expect_node_at_checkpoint(fields, 1)?;
    Ok((object, node, checkpoint))
}

/// A key of a proof of an object: only the object's own number fits its domain.
pub open spec fn object_proof(key_domain: ScyllaKeyDomain, fields: Seq<FieldModel>) -> Result<
    CheckpointedObjectKey,
    Seq<char>,
> {
    next(
        field_count(fields, 2),
        |counted: ()|
            next(
                u64_field(fields, 0),
                |object: u64|
                    next(
                        u64_field(fields, 1),
                        |version: u64| object_key(key_domain, object, version),
                    ),
            ),
    )
}

pub open spec fn object_key(key_domain: ScyllaKeyDomain, object: u64, version: u64) -> Result<
    CheckpointedObjectKey,
    Seq<char>,
> {
    match key_domain {
        ScyllaKeyDomain::CheckpointedGlobalUserProof if object == 1 => next(
            checkpoint_of(version),
            |checkpoint: CheckpointId|
                Ok(CheckpointedObjectKey::GlobalUserProofAtCheckpoint(checkpoint)),
        ),
        ScyllaKeyDomain::CheckpointedRewardsProofAtCheckpoint if object == 2 => next(
            checkpoint_of(version),
            |checkpoint: CheckpointId|
                Ok(CheckpointedObjectKey::RewardsProofAtCheckpoint(checkpoint)),
        ),
        ScyllaKeyDomain::CheckpointedRewardsProofAtPending if object == 2 => next(
            pending_of(version),
            |pending: UniquePendingId| Ok(CheckpointedObjectKey::RewardsProofAtPending(pending)),
        ),
        ScyllaKeyDomain::CheckpointedContractStateProof if object == 3 => next(
            checkpoint_of(version),
            |checkpoint: CheckpointId|
                Ok(CheckpointedObjectKey::ContractStateProofAtCheckpoint(checkpoint)),
        ),
        _ => Err("invalid checkpointed-object id/domain pair"@),
    }
}

fn expect_object_proof(key_domain: ScyllaKeyDomain, fields: &Vec<Field<Vec<u8>>>) -> (result: Result<
    CheckpointedObjectKey,
    &'static str,
>)
    ensures
        said(result) == object_proof(key_domain, field_models(fields@)),
{
    expect_field_count(fields, 2)?;
    let object: u64 = expect_u64(fields, 0)?;
    let version: u64 = expect_u64(fields, 1)?;
    match key_domain {
        ScyllaKeyDomain::CheckpointedGlobalUserProof if object == 1 => Ok(
            CheckpointedObjectKey::GlobalUserProofAtCheckpoint(checkpoint(version)?),
        ),
        ScyllaKeyDomain::CheckpointedRewardsProofAtCheckpoint if object == 2 => Ok(
            CheckpointedObjectKey::RewardsProofAtCheckpoint(checkpoint(version)?),
        ),
        ScyllaKeyDomain::CheckpointedRewardsProofAtPending if object == 2 => Ok(
            CheckpointedObjectKey::RewardsProofAtPending(pending(version)?),
        ),
        ScyllaKeyDomain::CheckpointedContractStateProof if object == 3 => Ok(
            CheckpointedObjectKey::ContractStateProofAtCheckpoint(checkpoint(version)?),
        ),
        _ => Err("invalid checkpointed-object id/domain pair"),
    }
}

pub open spec fn latest_info_slot(key_domain: ScyllaKeyDomain, number: u64) -> Result<
    LatestInfoSlot,
    Seq<char>,
> {
    if key_domain == ScyllaKeyDomain::LatestInfo && number == 1 {
        Ok(LatestInfoSlot::LatestL2BlockState)
    } else if key_domain == ScyllaKeyDomain::LatestInfo && number == 2 {
        Ok(LatestInfoSlot::LatestCheckpointTreeRoot)
    } else if key_domain == ScyllaKeyDomain::RealmAuthorityObservation && number == 3 {
        Ok(LatestInfoSlot::RealmAuthorityObservation)
    } else {
        Err("invalid latest-info slot/domain pair"@)
    }
}

fn expect_latest_info_slot(key_domain: ScyllaKeyDomain, number: u64) -> (result: Result<
    LatestInfoSlot,
    &'static str,
>)
    ensures
        said(result) == latest_info_slot(key_domain, number),
{
    if key_domain == ScyllaKeyDomain::LatestInfo && number == 1 {
        Ok(LatestInfoSlot::LatestL2BlockState)
    } else if key_domain == ScyllaKeyDomain::LatestInfo && number == 2 {
        Ok(LatestInfoSlot::LatestCheckpointTreeRoot)
    } else if key_domain == ScyllaKeyDomain::RealmAuthorityObservation && number == 3 {
        Ok(LatestInfoSlot::RealmAuthorityObservation)
    } else {
        Err("invalid latest-info slot/domain pair")
    }
}

/// A key of the index of an indexed Merkle tree. Its partition has to be that of its
/// encoded key.
pub open spec fn imt_key_index(fields: Seq<FieldModel>) -> Result<TypedKeyModel, Seq<char>> {
    if fields.len() != 4 {
        Err("wrong locator field count"@)
    } else {
        match bytes_field(fields, 3) {
            Err(message) => Err(message),
            Ok(key) => if key.len() != 32 {
                Err("IMT encoded key is not 32 bytes"@)
            } else {
                match i16_field(fields, 2) {
                    Err(message) => Err(message),
                    Ok(bucket) => if typed_key::key_bucket(key) != bucket {
                        Err("IMT key bucket does not match encoded key"@)
                    } else {
                        match (u64_field(fields, 0), u64_field(fields, 1)) {
                            (Err(message), _) => Err(message),
                            (Ok(_), Err(message)) => Err(message),
                            (Ok(tree), Ok(tree_sub)) => Ok(
                                TypedTableKey::ImtKeyIndex {
                                    tree,
                                    tree_sub,
                                    encoded_key: ImtEncodedKey { bytes: bytes::array_of::<32>(key) },
                                },
                            ),
                        }
                    },
                }
            },
        }
    }
}

/// The key that a domain makes of its coordinates.
pub open spec fn key_of_fields(key_domain: ScyllaKeyDomain, fields: Seq<FieldModel>) -> Result<
    TypedKeyModel,
    Seq<char>,
> {
    match key_domain {
        ScyllaKeyDomain::CheckpointLeaf => next(
            checkpoint_alone(fields),
            |checkpoint: CheckpointId| Ok(TypedTableKey::CheckpointLeaf(checkpoint)),
        ),
        ScyllaKeyDomain::CheckpointRootByCheckpoint => next(
            checkpoint_alone(fields),
            |checkpoint: CheckpointId| Ok(TypedTableKey::CheckpointRootByCheckpoint(checkpoint)),
        ),
        ScyllaKeyDomain::CheckpointLeafByCheckpoint => next(
            checkpoint_alone(fields),
            |checkpoint: CheckpointId| Ok(TypedTableKey::CheckpointLeafByCheckpoint(checkpoint)),
        ),
        ScyllaKeyDomain::L2BlockState => next(
            checkpoint_alone(fields),
            |checkpoint: CheckpointId| Ok(TypedTableKey::L2BlockState(checkpoint)),
        ),
        ScyllaKeyDomain::UnusedCheckpointRealmRoot => next(
            checkpoint_alone(fields),
            |checkpoint: CheckpointId| Ok(TypedTableKey::UnusedCheckpointRealmRoot(checkpoint)),
        ),
        ScyllaKeyDomain::CheckpointStateRoots => next(
            checkpoint_alone(fields),
            |checkpoint: CheckpointId| Ok(TypedTableKey::CheckpointStateRoots(checkpoint)),
        ),
        ScyllaKeyDomain::CheckpointToPending => next(
            checkpoint_alone(fields),
            |checkpoint: CheckpointId| Ok(TypedTableKey::CheckpointToPending(checkpoint)),
        ),
        ScyllaKeyDomain::CheckpointZkProof => next(
            checkpoint_alone(fields),
            |checkpoint: CheckpointId| Ok(TypedTableKey::CheckpointZkProof(checkpoint)),
        ),
        ScyllaKeyDomain::PendingToCheckpoint => next(
            pending_alone(fields),
            |pending: UniquePendingId| Ok(TypedTableKey::PendingToCheckpoint(pending)),
        ),
        ScyllaKeyDomain::PendingToProc => next(
            pending_alone(fields),
            |pending: UniquePendingId| Ok(TypedTableKey::PendingToProc(pending)),
        ),
        ScyllaKeyDomain::CheckpointRootByHash => next(
            bytes_alone(fields),
            |hash: Seq<u8>| Ok(TypedTableKey::CheckpointRootByHash(hash)),
        ),
        ScyllaKeyDomain::CheckpointLeafByHash => next(
            bytes_alone(fields),
            |hash: Seq<u8>| Ok(TypedTableKey::CheckpointLeafByHash(hash)),
        ),
        ScyllaKeyDomain::UserLeaf => next(
            object_at_checkpoint(fields),
            |found: (u64, CheckpointId)|
                Ok(TypedTableKey::UserLeaf { user: found.0, checkpoint: found.1 }),
        ),
        ScyllaKeyDomain::UserPublicKey => next(
            object_at_checkpoint(fields),
            |found: (u64, CheckpointId)|
                Ok(TypedTableKey::UserPublicKey { user: found.0, checkpoint: found.1 }),
        ),
        ScyllaKeyDomain::ContractStateTreeHeight => next(
            object_at_checkpoint(fields),
            |found: (u64, CheckpointId)|
                Ok(
                    TypedTableKey::ContractStateTreeHeight {
                        contract: found.0,
                        checkpoint: found.1,
                    },
                ),
        ),
        ScyllaKeyDomain::ContractLeaf => next(
            object_at_checkpoint(fields),
            |found: (u64, CheckpointId)|
                Ok(TypedTableKey::ContractLeaf { contract: found.0, checkpoint: found.1 }),
        ),
        ScyllaKeyDomain::ContractCodeDefinition => next(
            object_at_checkpoint(fields),
            |found: (u64, CheckpointId)|
                Ok(
                    TypedTableKey::ContractCodeDefinition {
                        contract: found.0,
                        checkpoint: found.1,
                    },
                ),
        ),
        ScyllaKeyDomain::GlobalUserMerkle => next(
            node_alone(fields),
            |found: (MerkleNode, CheckpointId)|
                Ok(TypedTableKey::GlobalUserMerkle { node: found.0, checkpoint: found.1 }),
        ),
        ScyllaKeyDomain::GlobalCheckpointMerkle => next(
            node_alone(fields),
            |found: (MerkleNode, CheckpointId)|
                Ok(TypedTableKey::GlobalCheckpointMerkle { node: found.0, checkpoint: found.1 }),
        ),
        ScyllaKeyDomain::UserRegistrationMerkle => next(
            node_alone(fields),
            |found: (MerkleNode, CheckpointId)|
                Ok(TypedTableKey::UserRegistrationMerkle { node: found.0, checkpoint: found.1 }),
        ),
        ScyllaKeyDomain::GlobalContractMerkle => next(
            node_alone(fields),
            |found: (MerkleNode, CheckpointId)|
                Ok(TypedTableKey::GlobalContractMerkle { node: found.0, checkpoint: found.1 }),
        ),
        ScyllaKeyDomain::UserContractMerkle => next(
            object_node(fields),
            |found: (u64, MerkleNode, CheckpointId)|
                Ok(
                    TypedTableKey::UserContractMerkle {
                        user: found.0,
                        node: found.1,
                        checkpoint: found.2,
                    },
                ),
        ),
        ScyllaKeyDomain::ContractFunctionMerkle => next(
            object_node(fields),
            |found: (u64, MerkleNode, CheckpointId)|
                Ok(
                    TypedTableKey::ContractFunctionMerkle {
                        contract: found.0,
                        node: found.1,
                        checkpoint: found.2,
                    },
                ),
        ),
        ScyllaKeyDomain::LatestInfo => next(
            number_alone(fields),
            |number: u64|
                next(
                    latest_info_slot(key_domain, number),
                    |slot: LatestInfoSlot| Ok(TypedTableKey::LatestInfo(slot)),
                ),
        ),
        ScyllaKeyDomain::RealmAuthorityObservation => next(
            number_alone(fields),
            |number: u64|
                next(
                    latest_info_slot(key_domain, number),
                    |slot: LatestInfoSlot| Ok(TypedTableKey::LatestInfo(slot)),
                ),
        ),
        ScyllaKeyDomain::CheckpointedGlobalUserProof => next(
            object_proof(key_domain, fields),
            |object: CheckpointedObjectKey| Ok(TypedTableKey::CheckpointedObject(object)),
        ),
        ScyllaKeyDomain::CheckpointedRewardsProofAtCheckpoint => next(
            object_proof(key_domain, fields),
            |object: CheckpointedObjectKey| Ok(TypedTableKey::CheckpointedObject(object)),
        ),
        ScyllaKeyDomain::CheckpointedRewardsProofAtPending => next(
            object_proof(key_domain, fields),
            |object: CheckpointedObjectKey| Ok(TypedTableKey::CheckpointedObject(object)),
        ),
        ScyllaKeyDomain::CheckpointedContractStateProof => next(
            object_proof(key_domain, fields),
            |object: CheckpointedObjectKey| Ok(TypedTableKey::CheckpointedObject(object)),
        ),
        ScyllaKeyDomain::U64Singleton => next(number_alone(fields), |number: u64| if number != LATEST_CHECKPOINT_SLOT { Err("invalid u64 singleton slot"@) } else { Ok(TypedTableKey::U64Singleton(U64SingletonSlot::LatestCheckpoint)) }),
        ScyllaKeyDomain::U64Counter => next(number_alone(fields), |number: u64| if number != UNIQUE_PENDING_SLOT { Err("invalid u64 counter slot"@) } else { Ok(TypedTableKey::U64Counter(U64CounterSlot::UniquePending)) }),
        ScyllaKeyDomain::ProcToPending => next(bytes_alone(fields), |id: Seq<u8>| if id.len() != 16 { Err("proc id is not 16 bytes"@) } else { Ok(TypedTableKey::ProcToPending(ProcCheckpointUniqueId { bytes: bytes::array_of::<16>(id) })) }),
        ScyllaKeyDomain::RealmRewardNode => next(
            field_count(fields, 2),
            |counted: ()|
                next(
                    u64_field(fields, 0),
                    |realm: u64|
                        next(
                            pending_field(fields, 1),
                            |pending: UniquePendingId|
                                Ok(TypedTableKey::RealmRewardNode { realm, pending }),
                        ),
                ),
        ),
        ScyllaKeyDomain::PublicKeyToUser => next(
            field_count(fields, 2),
            |counted: ()|
                next(
                    bytes_field(fields, 0),
                    |public_key_hash: Seq<u8>|
                        next(
                            u64_field(fields, 1),
                            |user: u64|
                                Ok(TypedTableKey::PublicKeyToUser { public_key_hash, user }),
                        ),
                ),
        ),
        ScyllaKeyDomain::ContractStateMerkle => next(
            field_count(fields, 5),
            |counted: ()|
                next(
                    u64_field(fields, 0),
                    |user: u64|
                        next(
                            u64_field(fields, 1),
                            |contract: u64|
                                next(
                                    node_at_checkpoint(fields, 2),
                                    |found: (MerkleNode, CheckpointId)|
                                        Ok(
                                            TypedTableKey::ContractStateMerkle {
                                                user,
                                                contract,
                                                node: found.0,
                                                checkpoint: found.1,
                                            },
                                        ),
                                ),
                        ),
                ),
        ),
        ScyllaKeyDomain::RewardTagMerkle => next(
            field_count(fields, 3),
            |counted: ()|
                next(
                    pending_field(fields, 0),
                    |pending: UniquePendingId|
                        next(
                            node_field(fields, 1),
                            |node: MerkleNode| Ok(
                                TypedTableKey::RewardTagMerkle { pending, node },
                            ),
                        ),
                ),
        ),
        ScyllaKeyDomain::ImtLeaf => next(
            field_count(fields, 4),
            |counted: ()|
                next(
                    u64_field(fields, 0),
                    |tree: u64|
                        next(
                            u64_field(fields, 1),
                            |tree_sub: u64|
                                next(
                                    u64_field(fields, 2),
                                    |leaf: u64|
                                        next(
                                            checkpoint_field(fields, 3),
                                            |checkpoint: CheckpointId|
                                                Ok(
                                                    TypedTableKey::ImtLeaf {
                                                        tree,
                                                        tree_sub,
                                                        leaf,
                                                        checkpoint,
                                                    },
                                                ),
                                        ),
                                ),
                        ),
                ),
        ),
        ScyllaKeyDomain::ImtKeyIndex => imt_key_index(fields),
        ScyllaKeyDomain::ImtCursor => next(
            field_count(fields, 2),
            |counted: ()|
                next(
                    u64_field(fields, 0),
                    |tree: u64|
                        next(
                            u64_field(fields, 1),
                            |tree_sub: u64| Ok(TypedTableKey::ImtCursor { tree, tree_sub }),
                        ),
                ),
        ),
    }
}

pub open spec fn typed_result(result: Result<TypedKey, &'static str>) -> Result<
    TypedKeyModel,
    Seq<char>,
> {
    match result {
        Ok(key) => Ok(key@),
        Err(message) => Err(message@),
    }
}

fn typed_key_from_fields(key_domain: ScyllaKeyDomain, fields: &Vec<Field<Vec<u8>>>) -> (result:
    Result<TypedKey, &'static str>)
    ensures
        typed_result(result) == key_of_fields(key_domain, field_models(fields@)),
{
    match key_domain {
        ScyllaKeyDomain::CheckpointLeaf => {
            Ok(TypedTableKey::CheckpointLeaf(expect_checkpoint_alone(fields)?))
        },
        ScyllaKeyDomain::CheckpointRootByCheckpoint => {
            Ok(TypedTableKey::CheckpointRootByCheckpoint(expect_checkpoint_alone(fields)?))
        },
        ScyllaKeyDomain::CheckpointLeafByCheckpoint => {
            Ok(TypedTableKey::CheckpointLeafByCheckpoint(expect_checkpoint_alone(fields)?))
        },
        ScyllaKeyDomain::L2BlockState => Ok(TypedTableKey::L2BlockState(expect_checkpoint_alone(fields)?)),
        ScyllaKeyDomain::UnusedCheckpointRealmRoot => {
            Ok(TypedTableKey::UnusedCheckpointRealmRoot(expect_checkpoint_alone(fields)?))
        },
        ScyllaKeyDomain::CheckpointStateRoots => {
            Ok(TypedTableKey::CheckpointStateRoots(expect_checkpoint_alone(fields)?))
        },
        ScyllaKeyDomain::CheckpointToPending => {
            Ok(TypedTableKey::CheckpointToPending(expect_checkpoint_alone(fields)?))
        },
        ScyllaKeyDomain::CheckpointZkProof => {
            Ok(TypedTableKey::CheckpointZkProof(expect_checkpoint_alone(fields)?))
        },
        ScyllaKeyDomain::PendingToCheckpoint => {
            Ok(TypedTableKey::PendingToCheckpoint(expect_pending_alone(fields)?))
        },
        ScyllaKeyDomain::PendingToProc => Ok(TypedTableKey::PendingToProc(expect_pending_alone(fields)?)),
        ScyllaKeyDomain::CheckpointRootByHash => {
            Ok(TypedTableKey::CheckpointRootByHash(copy_bytes(expect_bytes_alone(fields)?)))
        },
        ScyllaKeyDomain::CheckpointLeafByHash => {
            Ok(TypedTableKey::CheckpointLeafByHash(copy_bytes(expect_bytes_alone(fields)?)))
        },
        ScyllaKeyDomain::UserLeaf => {
            let (user, checkpoint) = expect_object_at_checkpoint(fields)?;
            Ok(TypedTableKey::UserLeaf { user, checkpoint })
        },
        ScyllaKeyDomain::UserPublicKey => {
            let (user, checkpoint) = expect_object_at_checkpoint(fields)?;
            Ok(TypedTableKey::UserPublicKey { user, checkpoint })
        },
        ScyllaKeyDomain::ContractStateTreeHeight => {
            let (contract, checkpoint) = expect_object_at_checkpoint(fields)?;
            Ok(TypedTableKey::ContractStateTreeHeight { contract, checkpoint })
        },
        ScyllaKeyDomain::ContractLeaf => {
            let (contract, checkpoint) = expect_object_at_checkpoint(fields)?;
            Ok(TypedTableKey::ContractLeaf { contract, checkpoint })
        },
        ScyllaKeyDomain::ContractCodeDefinition => {
            let (contract, checkpoint) = expect_object_at_checkpoint(fields)?;
            Ok(TypedTableKey::ContractCodeDefinition { contract, checkpoint })
        },
        ScyllaKeyDomain::GlobalUserMerkle => {
            let (node, checkpoint) = expect_node_alone(fields)?;
            Ok(TypedTableKey::GlobalUserMerkle { node, checkpoint })
        },
        ScyllaKeyDomain::GlobalCheckpointMerkle => {
            let (node, checkpoint) = expect_node_alone(fields)?;
            Ok(TypedTableKey::GlobalCheckpointMerkle { node, checkpoint })
        },
        ScyllaKeyDomain::UserRegistrationMerkle => {
            let (node, checkpoint) = expect_node_alone(fields)?;
            Ok(TypedTableKey::UserRegistrationMerkle { node, checkpoint })
        },
        ScyllaKeyDomain::GlobalContractMerkle => {
            let (node, checkpoint) = expect_node_alone(fields)?;
            Ok(TypedTableKey::GlobalContractMerkle { node, checkpoint })
        },
        ScyllaKeyDomain::UserContractMerkle => {
            let (user, node, checkpoint) = expect_object_node(fields)?;
            Ok(TypedTableKey::UserContractMerkle { user, node, checkpoint })
        },
        ScyllaKeyDomain::ContractFunctionMerkle => {
            let (contract, node, checkpoint) = expect_object_node(fields)?;
            Ok(TypedTableKey::ContractFunctionMerkle { contract, node, checkpoint })
        },
        ScyllaKeyDomain::LatestInfo => Ok(
            TypedTableKey::LatestInfo(
                expect_latest_info_slot(key_domain, expect_number_alone(fields)?)?,
            ),
        ),
        ScyllaKeyDomain::RealmAuthorityObservation => Ok(
            TypedTableKey::LatestInfo(
                expect_latest_info_slot(key_domain, expect_number_alone(fields)?)?,
            ),
        ),
        ScyllaKeyDomain::CheckpointedGlobalUserProof => {
            Ok(TypedTableKey::CheckpointedObject(expect_object_proof(key_domain, fields)?))
        },
        ScyllaKeyDomain::CheckpointedRewardsProofAtCheckpoint => {
            Ok(TypedTableKey::CheckpointedObject(expect_object_proof(key_domain, fields)?))
        },
        ScyllaKeyDomain::CheckpointedRewardsProofAtPending => {
            Ok(TypedTableKey::CheckpointedObject(expect_object_proof(key_domain, fields)?))
        },
        ScyllaKeyDomain::CheckpointedContractStateProof => {
            Ok(TypedTableKey::CheckpointedObject(expect_object_proof(key_domain, fields)?))
        },
        ScyllaKeyDomain::U64Singleton => {
            if expect_number_alone(fields)? != LATEST_CHECKPOINT_SLOT {
                return Err("invalid u64 singleton slot");
            }
            Ok(TypedTableKey::U64Singleton(U64SingletonSlot::LatestCheckpoint))
        },
        ScyllaKeyDomain::U64Counter => {
            if expect_number_alone(fields)? != UNIQUE_PENDING_SLOT {
                return Err("invalid u64 counter slot");
            }
            Ok(TypedTableKey::U64Counter(U64CounterSlot::UniquePending))
        },
        ScyllaKeyDomain::ProcToPending => {
            let id = expect_bytes_alone(fields)?;
            if id.len() != 16 {
                return Err("proc id is not 16 bytes");
            }
            Ok(TypedTableKey::ProcToPending(ProcCheckpointUniqueId { bytes: array_from::<16>(id) }))
        },
        ScyllaKeyDomain::RealmRewardNode => {
            expect_field_count(fields, 2)?;
            let realm: u64 = expect_u64(fields, 0)?;
            let pending = expect_pending(fields, 1)?;
            Ok(TypedTableKey::RealmRewardNode { realm, pending })
        },
        ScyllaKeyDomain::PublicKeyToUser => {
            expect_field_count(fields, 2)?;
            let public_key_hash = copy_bytes(expect_bytes(fields, 0)?);
            let user: u64 = expect_u64(fields, 1)?;
            Ok(TypedTableKey::PublicKeyToUser { public_key_hash, user })
        },
        ScyllaKeyDomain::ContractStateMerkle => {
            expect_field_count(fields, 5)?;
            let user: u64 = expect_u64(fields, 0)?;
            let contract: u64 = expect_u64(fields, 1)?;
            let (node, checkpoint) = expect_node_at_checkpoint(fields, 2)?;
            Ok(TypedTableKey::ContractStateMerkle { user, contract, node, checkpoint })
        },
        ScyllaKeyDomain::RewardTagMerkle => {
            expect_field_count(fields, 3)?;
            let pending = expect_pending(fields, 0)?;
            let node = merkle_node(fields, 1)?;
            Ok(TypedTableKey::RewardTagMerkle { pending, node })
        },
        ScyllaKeyDomain::ImtLeaf => {
            expect_field_count(fields, 4)?;
            let tree: u64 = expect_u64(fields, 0)?;
            let tree_sub: u64 = expect_u64(fields, 1)?;
            let leaf: u64 = expect_u64(fields, 2)?;
            let checkpoint = expect_checkpoint(fields, 3)?;
            Ok(TypedTableKey::ImtLeaf { tree, tree_sub, leaf, checkpoint })
        },
        ScyllaKeyDomain::ImtKeyIndex => {
            expect_field_count(fields, 4)?;
            let bytes = expect_bytes(fields, 3)?;
            if bytes.len() != 32 {
                return Err("IMT encoded key is not 32 bytes");
            }
            let encoded_key = ImtEncodedKey::new(array_from::<32>(bytes));
            if encoded_key.cql_bucket() != expect_i16(fields, 2)? {
                return Err("IMT key bucket does not match encoded key");
            }
            let tree: u64 = expect_u64(fields, 0)?;
            let tree_sub: u64 = expect_u64(fields, 1)?;
            Ok(TypedTableKey::ImtKeyIndex { tree, tree_sub, encoded_key })
        },
        ScyllaKeyDomain::ImtCursor => {
            expect_field_count(fields, 2)?;
            let tree: u64 = expect_u64(fields, 0)?;
            let tree_sub: u64 = expect_u64(fields, 1)?;
            Ok(TypedTableKey::ImtCursor { tree, tree_sub })
        },
    }
}

/// The field at `at` that has to have the number `number`, and where it ends.
pub open spec fn field_at(locator: Seq<u8>, at: int, number: int) -> Result<
    (FieldModel, int),
    Seq<char>,
> {
    if at + 1 > locator.len() {
        Err("truncated locator"@)
    } else if bytes::u8_at(locator, at) != number {
        Err("non-canonical locator field index"@)
    } else if at + 2 > locator.len() {
        Err("truncated locator"@)
    } else {
        match bytes::counted_at(locator, at + 2) {
            None => Err("truncated locator"@),
            Some((payload, end)) => match field_of(bytes::u8_at(locator, at + 1), payload) {
                None => Err("invalid locator field wire type or length"@),
                Some(field) => Ok((field, end)),
            },
        }
    }
}

/// The field of a wire type with the given bytes.
pub open spec fn field_of(wire_type: u8, payload: Seq<u8>) -> Option<FieldModel> {
    if wire_type == 1 && payload.len() == 1 {
        Some(Field::U8(payload[0]))
    } else if wire_type == 2 && payload.len() == 2 {
        Some(Field::I16(typed_key::bits_i16(bytes::u16_at(payload, 0))))
    } else if wire_type == 3 && payload.len() == 8 {
        Some(Field::U64(bytes::u64_at(payload, 0)))
    } else if wire_type == 4 {
        Some(Field::Bytes(payload))
    } else {
        None
    }
}

fn decode_field(wire_type: u8, payload: &[u8]) -> (field: Option<Field<Vec<u8>>>)
    ensures
        match field {
            Some(field) => field_of(wire_type, payload@) == Some(field@),
            None => field_of(wire_type, payload@) is None,
        },
{
    if wire_type == 1 && payload.len() == 1 {
        return Some(Field::U8(payload[0]));
    }
    if wire_type == 2 && payload.len() == 2 {
        let mut cursor = Cursor::new(payload);
        return match cursor.u16() {
            Some(bits) => Some(Field::I16(small_from_bits(bits))),
            None => None,
        };
    }
    if wire_type == 3 && payload.len() == 8 {
        let mut cursor = Cursor::new(payload);
        return match cursor.u64() {
            Some(value) => Some(Field::U64(value)),
            None => None,
        };
    }
    if wire_type == 4 {
        return Some(Field::Bytes(copy_bytes(payload)));
    }
    None
}

/// The first `count` fields from `at` on, and where they end.
pub open spec fn fields_at(locator: Seq<u8>, at: int, count: nat) -> Result<
    (Seq<FieldModel>, int),
    Seq<char>,
>
    decreases count,
{
    if count == 0 {
        Ok((Seq::empty(), at))
    } else {
        match fields_at(locator, at, (count - 1) as nat) {
            Err(message) => Err(message),
            Ok((fields, end)) => match field_at(locator, end, count as int) {
                Err(message) => Err(message),
                Ok((field, end)) => Ok((fields.push(field), end)),
            },
        }
    }
}

/// A failure among the first fields is a failure of all of them.
proof fn lemma_fields_fail(locator: Seq<u8>, at: int, fewer: nat, count: nat)
    requires
        fewer <= count,
        fields_at(locator, at, fewer) is Err,
    ensures
        fields_at(locator, at, count) == fields_at(locator, at, fewer),
    decreases count,
{
    if fewer < count {
        lemma_fields_fail(locator, at, fewer, (count - 1) as nat);
    }
}

/// A physical table by its number.
pub open spec fn table_of_id(id: u16) -> Result<ScyllaPhysicalTableId, Seq<char>> {
    if exists|table: ScyllaPhysicalTableId| #[trigger] table.spec_stable_id() == id {
        Ok(choose|table: ScyllaPhysicalTableId| #[trigger] table.spec_stable_id() == id)
    } else {
        Err("unknown physical table id"@)
    }
}

fn physical_from_stable_id(value: u16) -> (result: Result<ScyllaPhysicalTableId, &'static str>)
    ensures
        said(result) == table_of_id(value),
{
    match ScyllaPhysicalTableId::from_stable_id(value) {
        Some(table) => {
            proof {
                let chosen = table_of_id(value)->Ok_0;
                identity::law_table_ids_are_distinct(table, chosen);
            }
            Ok(table)
        },
        None => Err("unknown physical table id"),
    }
}

/// A key domain by its number.
pub open spec fn domain_of_id(id: u16) -> Result<ScyllaKeyDomain, Seq<char>> {
    if exists|key_domain: ScyllaKeyDomain| #[trigger] key_domain.spec_stable_id() == id {
        Ok(choose|key_domain: ScyllaKeyDomain| #[trigger] key_domain.spec_stable_id() == id)
    } else {
        Err("unknown key domain id"@)
    }
}

fn domain_from_stable_id(value: u16) -> (result: Result<ScyllaKeyDomain, &'static str>)
    ensures
        said(result) == domain_of_id(value),
{
    match ScyllaKeyDomain::from_stable_id(value) {
        Some(key_domain) => {
            proof {
                let chosen = domain_of_id(value)->Ok_0;
                identity::law_domain_ids_are_distinct(key_domain, chosen);
            }
            Ok(key_domain)
        },
        None => Err("unknown key domain id"),
    }
}

/// What the coordinates of a locator leave to be checked: the key that they name has to
/// be located by the same bytes.
pub open spec fn resolved_locator(
    registry: &Registry,
    locator: Seq<u8>,
    table: ScyllaPhysicalTableId,
    key_domain: ScyllaKeyDomain,
    family_tag: u8,
    fields: Seq<FieldModel>,
) -> Result<ResolvedKeyModel, Seq<char>> {
    match registry.table(table) {
        None => Err("physical table is not registered"@),
        Some(descriptor) => if descriptor.schema_family.spec_codec_tag() != family_tag {
            Err("locator schema family mismatch"@)
        } else {
            match key_of_fields(key_domain, fields) {
                Err(message) => Err(message),
                Ok(key) => match described(registry, key) {
                    Some(resolved) if resolved.physical_table == table && resolved.key_domain
                        == key_domain && resolved.locator_bytes == locator => Ok(resolved),
                    _ => Err("locator does not canonically resolve to encoded identity"@),
                },
            }
        },
    }
}

/// The key that a locator names.
pub open spec fn decoded_locator(registry: &Registry, locator: Seq<u8>) -> Result<
    ResolvedKeyModel,
    Seq<char>,
> {
    if locator.len() < 4 {
        Err("truncated locator"@)
    } else if locator.subrange(0, 4) != LOCATOR_MAGIC@ {
        Err("bad locator magic"@)
    } else if locator.len() < 6 {
        Err("truncated locator"@)
    } else if bytes::u16_at(locator, 4) != registry.spec_key_codec_version() {
        Err("unknown storage key codec version"@)
    } else if locator.len() < 8 {
        Err("truncated locator"@)
    } else {
        match table_of_id(bytes::u16_at(locator, 6)) {
            Err(message) => Err(message),
            Ok(table) => if locator.len() < 10 {
                Err("truncated locator"@)
            } else if bytes::u16_at(locator, 8) != TABLE_SCHEMA_VERSION {
                Err("unknown table schema version"@)
            } else if locator.len() < 12 {
                Err("truncated locator"@)
            } else {
                match domain_of_id(bytes::u16_at(locator, 10)) {
                    Err(message) => Err(message),
                    Ok(key_domain) => if locator.len() < 14 {
                        Err("truncated locator"@)
                    } else {
                        match fields_at(locator, 14, bytes::u8_at(locator, 13) as nat) {
                            Err(message) => Err(message),
                            Ok((fields, end)) => if end != locator.len() {
                                Err("trailing locator bytes"@)
                            } else {
                                resolved_locator(
                                    registry,
                                    locator,
                                    table,
                                    key_domain,
                                    bytes::u8_at(locator, 12),
                                    fields,
                                )
                            },
                        }
                    },
                }
            },
        }
    }
}

pub open spec fn locator_result(result: Result<ResolvedKey, &'static str>) -> Result<
    ResolvedKeyModel,
    Seq<char>,
> {
    match result {
        Ok(key) => Ok(key@),
        Err(message) => Err(message@),
    }
}

fn present<T>(read: Option<T>) -> (result: Result<T, &'static str>)
    ensures
        said(result) == match read {
            Some(value) => Ok::<T, Seq<char>>(value),
            None => Err("truncated locator"@),
        },
{
    match read {
        Some(value) => Ok(value),
        None => Err("truncated locator"),
    }
}

/// Decodes the fields of a locator.
fn decode_fields(cursor: &mut Cursor<'_>, count: u8) -> (result: Result<
    Vec<Field<Vec<u8>>>,
    &'static str,
>)
    requires
        old(cursor).wf(),
    ensures
        match result {
            Ok(fields) => fields_at(
                old(cursor).bytes@,
                old(cursor).offset as int,
                count as nat,
            ) == Ok::<_, Seq<char>>((field_models(fields@), final(cursor).offset as int)),
            Err(message) => fields_at(old(cursor).bytes@, old(cursor).offset as int, count as nat)
                == Err::<(Seq<FieldModel>, int), _>(message@),
        },
        final(cursor).wf(),
        final(cursor).bytes@ == old(cursor).bytes@,
{
    let ghost locator = cursor.bytes@;
    let ghost start = cursor.offset as int;
    let mut fields: Vec<Field<Vec<u8>>> = Vec::new();
    assert(field_models(fields@) =~= Seq::<FieldModel>::empty());
    let mut i: u8 = 0;
    while i < count
        invariant
            i <= count,
            cursor.wf(),
            cursor.bytes@ == locator,
            fields_at(locator, start, i as nat) == Ok::<_, Seq<char>>(
                (field_models(fields@), cursor.offset as int),
            ),
            locator == old(cursor).bytes@,
            start == old(cursor).offset,
        decreases count - i,
    {
        let ghost at = cursor.offset as int;
        let ghost before = fields@;
        proof {
            let reached = (i + 1) as nat;
            if field_at(locator, at, i + 1) is Err {
                assert(fields_at(locator, start, reached) is Err);
                lemma_fields_fail(locator, start, reached, count as nat);
            }
        }
        let number: u8 = present(cursor.u8())?;
        if number != i + 1 {
            return Err("non-canonical locator field index");
        }
        let wire_type: u8 = present(cursor.u8())?;
        let payload = present(cursor.counted())?;
        let field = match decode_field(wire_type, payload) {
            Some(field) => field,
            None => return Err("invalid locator field wire type or length"),
        };
        let ghost model = field@;
        fields.push(field);
        i += 1;
        assert(field_models(fields@) =~= field_models(before).push(model));
    }
    Ok(fields)
}

/// Strictly decodes a locator. It is accepted only if the key that it names is located
/// by exactly the same bytes.
pub fn decode_locator_canonical(bytes: &[u8], registry: &Registry) -> (result: Result<
    ResolvedKey,
    &'static str,
>)
    ensures
        locator_result(result) == decoded_locator(registry, bytes@),
{
    let mut cursor = Cursor::new(bytes);
    let magic = present(cursor.take(4))?;
    if !bytes_equal(magic, &LOCATOR_MAGIC) {
        return Err("bad locator magic");
    }
    if present(cursor.u16())? != registry.key_codec_version() {
        return Err("unknown storage key codec version");
    }
    let physical = physical_from_stable_id(present(cursor.u16())?)?;
    if present(cursor.u16())? != TABLE_SCHEMA_VERSION {
        return Err("unknown table schema version");
    }
    let key_domain = domain_from_stable_id(present(cursor.u16())?)?;
    let family_tag: u8 = present(cursor.u8())?;
    let count: u8 = present(cursor.u8())?;
    let fields = decode_fields(&mut cursor, count)?;
    if !cursor.is_empty() {
        return Err("trailing locator bytes");
    }
    let family = match registry.schema_family(physical) {
        None => return Err("physical table is not registered"),
        Some(family) => family,
    };
    if family.codec_tag() != family_tag {
        return Err("locator schema family mismatch");
    }
    let key = typed_key_from_fields(key_domain, &fields)?;
    let resolved = match describe_existing_key(&key, registry) {
        None => return Err("locator does not canonically resolve to encoded identity"),
        Some(resolved) => resolved,
    };
    if resolved.physical_table != physical || resolved.key_domain != key_domain || !bytes_equal(
        &resolved.locator_bytes,
        bytes,
    ) {
        return Err("locator does not canonically resolve to encoded identity");
    }
    Ok(resolved)
}

/// A field reads back from its payload.
proof fn lemma_field_reads_back(field: FieldModel)
    ensures
        field_of(payload_of(field).0, payload_of(field).1) == Some(field),
{
    bytes::lemma_be_lens();
    let payload = payload_of(field).1;
    match field {
        Field::U8(_) => {},
        Field::I16(value) => {
            assert(payload.subrange(0, 2) =~= payload);
            bytes::lemma_write_then_read(payload, 0);
        },
        Field::U64(value) => {
            assert(payload.subrange(0, 8) =~= payload);
            bytes::lemma_write_then_read(payload, 0);
        },
        Field::Bytes(_) => {},
    }
}

/// No field has more bytes than its length can say.
pub open spec fn fields_fit(fields: Seq<FieldModel>) -> bool {
    forall|i: int| 0 <= i < fields.len() ==> (#[trigger] fields[i] matches Field::Bytes(value)
        ==> value.len() <= u32::MAX)
}

/// The fields of a locator read back, whatever stands before and behind them.
proof fn lemma_fields_read_back(front: Seq<u8>, fields: Seq<FieldModel>, behind: Seq<u8>)
    requires
        fields.len() <= 255,
        fields_fit(fields),
    ensures
        fields_at(
            front + locator_fields(fields) + behind,
            front.len() as int,
            fields.len(),
        ) == Ok::<_, Seq<char>>((fields, front.len() as int + locator_fields(fields).len())),
    decreases fields.len(),
{
    let locator = front + locator_fields(fields) + behind;
    if fields.len() == 0 {
        assert(fields =~= Seq::<FieldModel>::empty());
    } else {
        bytes::lemma_be_lens();
        let rest = fields.drop_last();
        let last = fields.last();
        let number = fields.len() as u8;
        let written = locator_field(number, last);
        assert forall|i: int| 0 <= i < rest.len() implies (#[trigger] rest[i] matches Field::Bytes(
            value,
        ) ==> value.len() <= u32::MAX) by {
            assert(rest[i] == fields[i]);
        }
        lemma_fields_read_back(front, rest, written + behind);
        assert(locator =~= front + locator_fields(rest) + (written + behind));
        let at = front.len() as int + locator_fields(rest).len();
        let payload = payload_of(last).1;
        assert(fields[fields.len() - 1] == last);
        assert(payload.len() <= u32::MAX);
        assert(locator[at] == written[0]);
        assert(locator[at + 1] == written[1]);
        assert(locator.subrange(at + 2, at + 6 + payload.len()) =~= bytes::counted(payload));
        bytes::lemma_counted(locator, at + 2, payload);
        lemma_field_reads_back(last);
        assert(fields =~= rest.push(last));
        assert(field_at(locator, at, fields.len() as int) == Ok::<_, Seq<char>>(
            (last, at + 6 + payload.len()),
        ));
    }
}

/// A key is the key of its own coordinates.
#[verifier::rlimit(60)]
#[verifier::spinoff_prover]
proof fn lemma_key_of_its_fields(key: TypedKeyModel)
    requires
        typed_key::key_in_range(key),
    ensures
        key_of_fields(placed(key).1, placed(key).2) == Ok::<_, Seq<char>>(key),
        placed(key).2.len() <= 5,
        fields_fit(placed(key).2),
{
    match key {
        TypedTableKey::ProcToPending(id) => {
            bytes::lemma_array_of::<16>(id.bytes);
        },
        TypedTableKey::ImtKeyIndex { encoded_key, .. } => {
            bytes::lemma_array_of::<32>(encoded_key.bytes);
        },
        _ => {},
    }
}

/// Every key is decoded from its own locator.
#[verifier::spinoff_prover]
#[verifier::rlimit(40)]
pub proof fn law_locator_round_trips(registry: &Registry, key: TypedKeyModel)
    requires
        typed_key::key_in_range(key),
    ensures
        described(registry, key) matches Some(resolved) ==> decoded_locator(
            registry,
            resolved.locator_bytes,
        ) == Ok::<_, Seq<char>>(resolved),
{
    if let Some(resolved) = described(registry, key) {
        let (table, key_domain, fields) = placed(key);
        let locator = resolved.locator_bytes;
        let count = fields.len() as u8;
        let head = locator_head(
            registry.spec_key_codec_version(),
            table,
            key_domain,
            resolved.schema_family,
            count,
        );
        lemma_key_of_its_fields(key);
        bytes::lemma_be_lens();
        lemma_fields_read_back(head, fields, Seq::empty());
        assert(head + locator_fields(fields) + Seq::<u8>::empty() =~= locator);
        assert(head.len() == 14);
        assert(locator.subrange(0, 4) =~= LOCATOR_MAGIC@);
        assert(locator.subrange(4, 6) =~= bytes::be16(registry.spec_key_codec_version()));
        assert(locator.subrange(6, 8) =~= bytes::be16(table.spec_stable_id()));
        assert(locator.subrange(8, 10) =~= bytes::be16(TABLE_SCHEMA_VERSION));
        assert(locator.subrange(10, 12) =~= bytes::be16(key_domain.spec_stable_id()));
        bytes::lemma_write_then_read(locator, 4);
        bytes::lemma_write_then_read(locator, 6);
        bytes::lemma_write_then_read(locator, 8);
        bytes::lemma_write_then_read(locator, 10);
        assert(locator[12] == resolved.schema_family.spec_codec_tag());
        assert(locator[13] == count);
        let found = table_of_id(table.spec_stable_id());
        assert(found is Ok);
        identity::law_table_ids_are_distinct(table, found->Ok_0);
        let named = domain_of_id(key_domain.spec_stable_id());
        assert(named is Ok);
        identity::law_domain_ids_are_distinct(key_domain, named->Ok_0);
    }
}

/// A locator that decodes is the locator of the key it decodes to, and the only one.
#[verifier::spinoff_prover]
#[verifier::rlimit(40)]
pub proof fn law_decoded_locator_is_canonical(registry: &Registry, locator: Seq<u8>)
    ensures
        decoded_locator(registry, locator) matches Ok(resolved) ==> resolved.locator_bytes == locator
            && described(registry, resolved.typed_key) == Some(resolved),
{
}

/// No two keys share a locator.
pub proof fn law_locators_are_distinct(registry: &Registry, a: TypedKeyModel, b: TypedKeyModel)
    requires
        typed_key::key_in_range(a),
        typed_key::key_in_range(b),
    ensures
        described(registry, a) matches Some(first) ==> described(registry, b) matches Some(second)
            ==> first.locator_bytes == second.locator_bytes ==> a == b,
{
    law_locator_round_trips(registry, a);
    law_locator_round_trips(registry, b);
}

/// A key that is resolved for a rollback belongs to a domain that is ready for it, and is
/// described as any other key.
pub proof fn law_rollback_needs_a_ready_domain(registry: &Registry, key: TypedKeyModel)
    ensures
        rollback_key(registry, key) matches Ok(resolved) ==> described(registry, key) == Some(
            resolved,
        ) && (registry.domain(resolved.key_domain) matches Some(descriptor)
            && descriptor.readiness == RegistryReadiness::Ready),
{
}

/// Every key lives in the table of its own kind, and a key of the latest information or of
/// a checkpointed object in the domain of what it names.
pub proof fn law_keys_live_in_their_tables(registry: &Registry, key: TypedKeyModel)
    ensures
        described(registry, key) matches Some(resolved) ==> ({
            let table = resolved.physical_table;
            match key {
                TypedTableKey::CheckpointLeaf(_) => table is CheckpointLeaf,
                TypedTableKey::CheckpointRootByHash(_) => table is CheckpointRootToCheckpointIdK1,
                TypedTableKey::CheckpointRootByCheckpoint(_) => table is CheckpointRootToCheckpointIdK2,
                TypedTableKey::CheckpointLeafByHash(_) => table is CheckpointLeafToCheckpointIdK1,
                TypedTableKey::CheckpointLeafByCheckpoint(_) => table is CheckpointLeafToCheckpointIdK2,
                TypedTableKey::L2BlockState(_) => table is L2BlockState,
                TypedTableKey::UnusedCheckpointRealmRoot(_) => table is CheckpointIdToRealmRoot,
                TypedTableKey::LatestInfo(_) => table is LatestInfo,
                TypedTableKey::CheckpointedObject(_) => table is CheckpointedObject,
                TypedTableKey::CheckpointStateRoots(_) => table is CheckpointStateRoots,
                TypedTableKey::UserLeaf { .. } => table is UserLeaf,
                TypedTableKey::UserPublicKey { .. } => table is UserPublicKey,
                TypedTableKey::U64Singleton(_) => table is U64Singleton,
                TypedTableKey::U64Counter(_) => table is U64CounterSingleton,
                TypedTableKey::ContractStateTreeHeight { .. } => table is ContractStateTreeHeight,
                TypedTableKey::CheckpointToPending(_) => table is CheckpointIdToPendingId,
                TypedTableKey::PendingToCheckpoint(_) => table is PendingIdToCheckpointId,
                TypedTableKey::PendingToProc(_) => table is PendingIdToPendingProcIdU64ToU128,
                TypedTableKey::ProcToPending(_) => table is PendingIdToPendingProcIdU128ToU64,
                TypedTableKey::RealmRewardNode { .. } => table is RealmRewardsTreeNodeKey,
                TypedTableKey::PublicKeyToUser { .. } => table is PublicKeyHashToUserIds,
                TypedTableKey::GlobalUserMerkle { .. } => table is GlobalUserTree,
                TypedTableKey::UserContractMerkle { .. } => table is UserContractTree,
                TypedTableKey::ContractStateMerkle { .. } => table is ContractStateTree,
                TypedTableKey::GlobalCheckpointMerkle { .. } => table is GlobalCheckpointTree,
                TypedTableKey::RewardTagMerkle { .. } => table is GutaRewardTagTree,
                TypedTableKey::UserRegistrationMerkle { .. } => table is UserRegistrationTree,
                TypedTableKey::GlobalContractMerkle { .. } => table is GlobalContractTree,
                TypedTableKey::ContractFunctionMerkle { .. } => table is ContractFunctionTree,
                TypedTableKey::ContractLeaf { .. } => table is ContractLeaf,
                TypedTableKey::ContractCodeDefinition { .. } => table is ContractCodeDefinition,
                TypedTableKey::CheckpointZkProof(_) => table is CheckpointZkProofAndTransition,
                TypedTableKey::ImtLeaf { .. } => table is ImtLeaf,
                TypedTableKey::ImtKeyIndex { .. } => table is ImtKeyIndex,
                TypedTableKey::ImtCursor { .. } => table is ImtNextAppendIndex,
            }
        }),
        described(registry, key) matches Some(resolved) ==> match key {
            TypedTableKey::LatestInfo(slot) => if slot is RealmAuthorityObservation {
                resolved.key_domain is RealmAuthorityObservation
            } else {
                resolved.key_domain is LatestInfo
            },
            TypedTableKey::CheckpointedObject(object) => match object {
                CheckpointedObjectKey::GlobalUserProofAtCheckpoint(_) => resolved.key_domain
                    is CheckpointedGlobalUserProof,
                CheckpointedObjectKey::RewardsProofAtCheckpoint(_) => resolved.key_domain
                    is CheckpointedRewardsProofAtCheckpoint,
                CheckpointedObjectKey::RewardsProofAtPending(_) => resolved.key_domain
                    is CheckpointedRewardsProofAtPending,
                CheckpointedObjectKey::ContractStateProofAtCheckpoint(_) => resolved.key_domain
                    is CheckpointedContractStateProof,
            },
            _ => true,
        },
{
}

/// A key is described exactly if its table is registered, with that table's owner and
/// family and the key itself. Its locator starts with the codec's version and the numbers
/// of the table, the schema and the domain, the family and how many coordinates follow.
#[verifier::spinoff_prover]
#[verifier::rlimit(40)]
pub proof fn law_described_key_has_its_place(registry: &Registry, key: TypedKeyModel)
    ensures
        described(registry, key) is Some <==> registry.table(placed(key).0) is Some,
        described(registry, key) matches Some(resolved) ==> {
            let descriptor = registry.table(resolved.physical_table)->0;
            let locator = resolved.locator_bytes;
            &&& resolved.typed_key == key
            &&& resolved.logical_table == descriptor.logical_owner
            &&& resolved.schema_family == descriptor.schema_family
            &&& locator.len() >= 14
            &&& locator.subrange(0, 4) == LOCATOR_MAGIC@
            &&& bytes::u16_at(locator, 4) == registry.spec_key_codec_version()
            &&& bytes::u16_at(locator, 6) == resolved.physical_table.spec_stable_id()
            &&& bytes::u16_at(locator, 8) == resolved.schema_version
            &&& bytes::u16_at(locator, 10) == resolved.key_domain.spec_stable_id()
            &&& locator[12] == resolved.schema_family.spec_codec_tag()
            &&& locator[13] == placed(key).2.len()
        },
{
    if let Some(resolved) = described(registry, key) {
        bytes::lemma_be_lens();
        let locator = resolved.locator_bytes;
        assert(placed(key).2.len() <= 5);
        assert(locator.subrange(0, 4) =~= LOCATOR_MAGIC@);
        assert(locator.subrange(4, 6) =~= bytes::be16(registry.spec_key_codec_version()));
        assert(locator.subrange(6, 8) =~= bytes::be16(resolved.physical_table.spec_stable_id()));
        assert(locator.subrange(8, 10) =~= bytes::be16(TABLE_SCHEMA_VERSION));
        assert(locator.subrange(10, 12) =~= bytes::be16(resolved.key_domain.spec_stable_id()));
        bytes::lemma_write_then_read(locator, 4);
        bytes::lemma_write_then_read(locator, 6);
        bytes::lemma_write_then_read(locator, 8);
        bytes::lemma_write_then_read(locator, 10);
    }
}

/// A key can be rolled back exactly if its table and its domain are registered and the
/// domain is ready; what is then resolved is the described key. A domain that is not ready
/// is named with its readiness.
pub proof fn law_ready_keys_are_resolved(registry: &Registry, key: TypedKeyModel)
    ensures
        ({
            let found = rollback_key(registry, key);
            let domain = registry.domain(placed(key).1);
            &&& found is Ok <==> registry.table(placed(key).0) is Some && domain is Some
                && domain->0.readiness is Ready
            &&& found matches Ok(resolved) ==> described(registry, key) == Some(resolved)
            &&& found matches Err(error) ==> match error {
                RegistryReadinessError::NotRegistered(missing) => missing == placed(key).1 && (
                registry.table(placed(key).0) is None || domain is None),
                RegistryReadinessError::NotReady { key_domain, readiness } => domain is Some
                    && key_domain == domain->0.id && readiness == domain->0.readiness && !(readiness
                    is Ready),
            }
        }),
{
}

/// A field of a fingerprint: its wire type and its bytes behind their length.
spec fn fingerprint_field(field: FieldModel) -> Seq<u8> {
    seq![payload_of(field).0] + bytes::counted(payload_of(field).1)
}

proof fn lemma_fingerprint_front(fields: Seq<FieldModel>)
    requires
        fields.len() > 0,
    ensures
        fingerprint_fields(fields) == fingerprint_field(fields[0]) + fingerprint_fields(
            fields.drop_first(),
        ),
    decreases fields.len(),
{
    let rest = fields.drop_first();
    let front = fields.drop_last();
    if fields.len() == 1 {
        assert(front =~= Seq::<FieldModel>::empty());
        assert(rest =~= Seq::<FieldModel>::empty());
        assert(fingerprint_fields(fields) =~= fingerprint_field(fields[0]) + fingerprint_fields(
            rest,
        ));
    } else {
        lemma_fingerprint_front(front);
        assert(front.drop_first() =~= rest.drop_last());
        assert(front[0] == fields[0]);
        assert(rest.last() == fields.last());
        assert(fingerprint_fields(fields) =~= fingerprint_field(fields[0]) + fingerprint_fields(
            rest,
        ));
    }
}

proof fn lemma_fingerprint_fields_tell(a: Seq<FieldModel>, b: Seq<FieldModel>)
    requires
        a.len() == b.len(),
        fields_fit(a),
        fields_fit(b),
        fingerprint_fields(a) == fingerprint_fields(b),
    ensures
        a == b,
    decreases a.len(),
{
    if a.len() == 0 {
        assert(a =~= b);
    } else {
        bytes::lemma_be_lens();
        lemma_fingerprint_front(a);
        lemma_fingerprint_front(b);
        let all = fingerprint_fields(a);
        let (x, y) = (payload_of(a[0]).1, payload_of(b[0]).1);
        let (rest_a, rest_b) = (a.drop_first(), b.drop_first());
        assert(x.len() <= u32::MAX && y.len() <= u32::MAX);
        assert(all[0] == payload_of(a[0]).0);
        assert(all[0] == payload_of(b[0]).0);
        assert(all.subrange(1, 5 + x.len() as int) =~= bytes::counted(x));
        assert(all.subrange(1, 5 + y.len() as int) =~= bytes::counted(y));
        bytes::lemma_counted(all, 1, x);
        bytes::lemma_counted(all, 1, y);
        lemma_field_reads_back(a[0]);
        lemma_field_reads_back(b[0]);
        assert(a[0] == b[0]);
        let n = 5 + x.len() as int;
        assert(all.subrange(n, all.len() as int) =~= fingerprint_fields(rest_a));
        assert(all.subrange(n, all.len() as int) =~= fingerprint_fields(rest_b));
        assert forall|i: int| 0 <= i < rest_a.len() implies (#[trigger] rest_a[i] matches Field::Bytes(
            value,
        ) ==> value.len() <= u32::MAX) by {
            assert(rest_a[i] == a[i + 1]);
        }
        assert forall|i: int| 0 <= i < rest_b.len() implies (#[trigger] rest_b[i] matches Field::Bytes(
            value,
        ) ==> value.len() <= u32::MAX) by {
            assert(rest_b[i] == b[i + 1]);
        }
        lemma_fingerprint_fields_tell(rest_a, rest_b);
        assert(a =~= seq![a[0]] + rest_a);
        assert(b =~= seq![b[0]] + rest_b);
    }
}

/// The fingerprint of a primary key tells its table and its coordinates: two fingerprints
/// are the same only if both are.
pub proof fn law_fingerprints_tell_the_primary_key(
    table: ScyllaPhysicalTableId,
    family: ScyllaSchemaFamily,
    fields: Seq<FieldModel>,
    other_table: ScyllaPhysicalTableId,
    other_family: ScyllaSchemaFamily,
    other_fields: Seq<FieldModel>,
)
    requires
        fields.len() <= 255,
        other_fields.len() <= 255,
        fields_fit(fields),
        fields_fit(other_fields),
        fingerprint_of(table, family, fields) == fingerprint_of(
            other_table,
            other_family,
            other_fields,
        ),
    ensures
        table == other_table,
        fields == other_fields,
{
    bytes::lemma_be_lens();
    let a = fingerprint_of(table, family, fields);
    let b = fingerprint_of(other_table, other_family, other_fields);
    let n = CQL_FINGERPRINT_MAGIC@.len() as int;
    assert(a.subrange(n, n + 2) =~= bytes::be16(table.spec_stable_id()));
    assert(b.subrange(n, n + 2) =~= bytes::be16(other_table.spec_stable_id()));
    bytes::lemma_write_then_read(a, n);
    bytes::lemma_write_then_read(b, n);
    identity::law_table_ids_are_distinct(table, other_table);
    assert(a[n + 3] == fields.len() as u8);
    assert(b[n + 3] == other_fields.len() as u8);
    assert(a.subrange(n + 4, a.len() as int) =~= fingerprint_fields(fields));
    assert(b.subrange(n + 4, b.len() as int) =~= fingerprint_fields(other_fields));
    lemma_fingerprint_fields_tell(fields, other_fields);
}

} // verus!
