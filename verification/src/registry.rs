//! What is known of each physical table and of each key domain.

use vstd::prelude::*;
use vstd::string::StrSliceExecFns;

use crate::identity::{ScyllaKeyDomain, ScyllaPhysicalTableId};
use crate::keyspace;
use crate::keyspace::{is_digit, is_letter};

verus! {

/// The CQL primary-key shape of a table.
#[derive(Clone, Copy, Debug, PartialEq, Eq, Hash, Structural)]
pub enum ScyllaSchemaFamily {
    Kiv,
    Blob,
    ObjectSingle,
    U64,
    Counter,
    U64ToU128,
    U128ToU64,
    HashToMany,
    MerkleZero,
    MerkleSingle,
    MerkleDouble,
    TagTree,
    ImtLeaf,
    ImtKeyIndex,
    ImtCursor,
}

impl ScyllaSchemaFamily {
    pub open spec fn spec_codec_tag(self) -> u8 {
        match self {
            ScyllaSchemaFamily::Kiv => 1,
            ScyllaSchemaFamily::Blob => 2,
            ScyllaSchemaFamily::ObjectSingle => 3,
            ScyllaSchemaFamily::U64 => 4,
            ScyllaSchemaFamily::Counter => 5,
            ScyllaSchemaFamily::U64ToU128 => 6,
            ScyllaSchemaFamily::U128ToU64 => 7,
            ScyllaSchemaFamily::HashToMany => 8,
            ScyllaSchemaFamily::MerkleZero => 9,
            ScyllaSchemaFamily::MerkleSingle => 10,
            ScyllaSchemaFamily::MerkleDouble => 11,
            ScyllaSchemaFamily::TagTree => 12,
            ScyllaSchemaFamily::ImtLeaf => 13,
            ScyllaSchemaFamily::ImtKeyIndex => 14,
            ScyllaSchemaFamily::ImtCursor => 15,
        }
    }

    /// The byte that stands for the family in key encodings.
    #[verifier::when_used_as_spec(spec_codec_tag)]
    pub fn codec_tag(self) -> (tag: u8)
        ensures
            tag == self.spec_codec_tag(),
    {
        match self {
            ScyllaSchemaFamily::Kiv => 1,
            ScyllaSchemaFamily::Blob => 2,
            ScyllaSchemaFamily::ObjectSingle => 3,
            ScyllaSchemaFamily::U64 => 4,
            ScyllaSchemaFamily::Counter => 5,
            ScyllaSchemaFamily::U64ToU128 => 6,
            ScyllaSchemaFamily::U128ToU64 => 7,
            ScyllaSchemaFamily::HashToMany => 8,
            ScyllaSchemaFamily::MerkleZero => 9,
            ScyllaSchemaFamily::MerkleSingle => 10,
            ScyllaSchemaFamily::MerkleDouble => 11,
            ScyllaSchemaFamily::TagTree => 12,
            ScyllaSchemaFamily::ImtLeaf => 13,
            ScyllaSchemaFamily::ImtKeyIndex => 14,
            ScyllaSchemaFamily::ImtCursor => 15,
        }
    }
}

/// Along which coordinate the rows of a domain are versioned.
#[derive(Clone, Copy, Debug, PartialEq, Eq, Structural)]
pub enum VersionAxis {
    CheckpointPartition,
    CheckpointClustering,
    RootBirthPartition,
    Singleton,
    MonotonicCounter,
    ReusedCheckpointPartition,
    UniquePendingPartition,
    ProcUuidPartition,
    UniquePendingClustering,
    ContentBirth,
    MixedCheckpointPendingClustering,
    ImtBirthOrdinaryColumn,
    MutableCursor,
    NoActiveAxis,
}

#[derive(Clone, Copy, Debug, PartialEq, Eq, Structural)]
pub enum RollbackPolicy {
    ArchiveVersioned,
    DerivedBirth,
    RestoreSingleton,
    PreserveOperational,
    ByKeyDomain,
    RetireUnused,
}

#[derive(Clone, Copy, Debug, PartialEq, Eq, Structural)]
pub enum RecoveryAction {
    ArchiveAndSnapshot,
    ArchiveAndRebuild,
    RestoreFromTargetManifest,
    PreserveOperational,
    RotateNamespace,
    RebuildFromAuthoritative,
    Retire,
    BlockedUntilMigration,
}

#[derive(Clone, Copy, Debug, PartialEq, Eq, Structural)]
pub enum DeleteStrategy {
    Point,
    VersionPartition,
    BoundedRange,
    SnapshotOnly,
}

#[derive(Clone, Copy, Debug, PartialEq, Eq, Structural)]
pub enum RegistryBlocker {
    MixedCheckpointPendingAxis,
    ReusableCheckpointHeightKey,
    PendingSuffixReadThrough,
}

#[derive(Clone, Copy, Debug, PartialEq, Eq, Structural)]
pub enum RegistryReadiness {
    Ready,
    RetireCandidate,
    Blocked(RegistryBlocker),
}

/// Whether the Coordinator's prepared updates touch a domain.
#[derive(Clone, Copy, Debug, PartialEq, Eq, Structural)]
pub enum DomainPreparedUpdateCoverage {
    Applicable,
    NotApplicable,
}

/// The logical table that owns a physical one, by its number.
#[derive(Clone, Copy, Debug, PartialEq, Eq, Hash, Structural)]
pub struct PsyLogicalTableId {
    pub id: u16,
}

#[derive(Clone, Debug, PartialEq, Eq)]
pub struct PhysicalDescriptor {
    pub id: ScyllaPhysicalTableId,
    pub logical_owner: PsyLogicalTableId,
    pub physical_name: String,
    pub schema_family: ScyllaSchemaFamily,
    pub delete_candidates: Vec<DeleteStrategy>,
}

#[derive(Clone, Copy, Debug, PartialEq, Eq, Structural)]
pub struct KeyDomainDescriptor {
    pub id: ScyllaKeyDomain,
    pub physical_table: ScyllaPhysicalTableId,
    pub coordinator_coverage: DomainPreparedUpdateCoverage,
    pub readiness: RegistryReadiness,
    pub version_axis: VersionAxis,
    pub rollback_policy: RollbackPolicy,
    pub recovery_action: RecoveryAction,
}

/// Why a key domain cannot be rolled back.
#[derive(Clone, Copy, Debug, PartialEq, Eq, Structural)]
pub enum RegistryReadinessError {
    NotRegistered(ScyllaKeyDomain),
    NotReady { key_domain: ScyllaKeyDomain, readiness: RegistryReadiness },
}

impl KeyDomainDescriptor {
    /// Only a ready domain can be rolled back; a blocked and a retired one cannot.
    pub fn require_rollback_ready(&self) -> (result: Result<(), RegistryReadinessError>)
        ensures
            result == (if self.readiness == RegistryReadiness::Ready {
                Ok::<(), RegistryReadinessError>(())
            } else {
                Err(
                    RegistryReadinessError::NotReady {
                        key_domain: self.id,
                        readiness: self.readiness,
                    },
                )
            }),
    {
        match self.readiness {
            RegistryReadiness::Ready => Ok(()),
            readiness => Err(RegistryReadinessError::NotReady { key_domain: self.id, readiness }),
        }
    }
}

/// Why tables and key domains are not those of one schema.
#[derive(Clone, Copy, Debug, PartialEq, Eq, Structural)]
pub enum InvalidRegistry {
    /// Plans count domains in sixteen bits.
    TooManyDomains,
    DuplicateDomain,
    DuplicateTable,
    InvalidTableName,
}

/// The tables and the key domains of one schema, in their registered order. Each of them
/// is registered once, and a table's name is an identifier.
#[derive(Debug, PartialEq, Eq)]
pub struct Registry {
    /// The version of the storage key codec that locators are written with.
    key_codec_version: u16,
    tables: Vec<PhysicalDescriptor>,
    domains: Vec<KeyDomainDescriptor>,
}

/// Letters, digits and underscores, and at least one of them.
pub open spec fn valid_table_name(name: Seq<char>) -> bool {
    &&& name.len() > 0
    &&& forall|i: int|
        0 <= i < name.len() ==> #[trigger] name[i] == '_' || keyspace::ascii_letter(name[i])
            || keyspace::ascii_digit(name[i])
}

/// No domain is registered twice.
pub open spec fn distinct_domains(domains: Seq<KeyDomainDescriptor>) -> bool {
    forall|i: int, j: int|
        0 <= i < j < domains.len() ==> (#[trigger] domains[i]).id != (#[trigger] domains[j]).id
}

/// No table is registered twice.
pub open spec fn distinct_tables(tables: Seq<PhysicalDescriptor>) -> bool {
    forall|i: int, j: int|
        0 <= i < j < tables.len() ==> (#[trigger] tables[i]).id != (#[trigger] tables[j]).id
}

pub open spec fn well_named(tables: Seq<PhysicalDescriptor>) -> bool {
    forall|i: int|
        0 <= i < tables.len() ==> valid_table_name((#[trigger] tables[i]).physical_name@)
}

/// Why a registry is refused, if it is.
pub open spec fn registry_refusal(
    tables: Seq<PhysicalDescriptor>,
    domains: Seq<KeyDomainDescriptor>,
) -> Option<InvalidRegistry> {
    if domains.len() >= u16::MAX {
        Some(InvalidRegistry::TooManyDomains)
    } else if !distinct_domains(domains) {
        Some(InvalidRegistry::DuplicateDomain)
    } else if !distinct_tables(tables) {
        Some(InvalidRegistry::DuplicateTable)
    } else if !well_named(tables) {
        Some(InvalidRegistry::InvalidTableName)
    } else {
        None
    }
}

fn are_distinct_domains(domains: &[KeyDomainDescriptor]) -> (distinct: bool)
    ensures
        distinct == distinct_domains(domains@),
{
    let mut j: usize = 0;
    while j < domains.len()
        invariant
            j <= domains@.len(),
            distinct_domains(domains@.take(j as int)),
        decreases domains@.len() - j,
    {
        let mut i: usize = 0;
        while i < j
            invariant
                i <= j < domains@.len(),
                forall|k: int| 0 <= k < i ==> (#[trigger] domains@[k]).id != domains@[j as int].id,
            decreases j - i,
        {
            if domains[i].id == domains[j].id {
                assert(domains@[i as int].id == domains@[j as int].id);
                return false;
            }
            i += 1;
        }
        proof {
            let so_far = domains@.take(j as int);
            let next = domains@.take(j + 1);
            assert forall|a: int, b: int| 0 <= a < b < next.len() implies (#[trigger] next[a]).id
                != (#[trigger] next[b]).id by {
                if b < j {
                    assert(so_far[a].id != so_far[b].id);
                } else {
                    assert(domains@[a].id != domains@[j as int].id);
                }
            }
        }
        j += 1;
    }
    assert(domains@.take(j as int) =~= domains@);
    true
}

fn are_distinct_tables(tables: &[PhysicalDescriptor]) -> (distinct: bool)
    ensures
        distinct == distinct_tables(tables@),
{
    let mut j: usize = 0;
    while j < tables.len()
        invariant
            j <= tables@.len(),
            distinct_tables(tables@.take(j as int)),
        decreases tables@.len() - j,
    {
        let mut i: usize = 0;
        while i < j
            invariant
                i <= j < tables@.len(),
                forall|k: int| 0 <= k < i ==> (#[trigger] tables@[k]).id != tables@[j as int].id,
            decreases j - i,
        {
            if tables[i].id == tables[j].id {
                assert(tables@[i as int].id == tables@[j as int].id);
                return false;
            }
            i += 1;
        }
        proof {
            let so_far = tables@.take(j as int);
            let next = tables@.take(j + 1);
            assert forall|a: int, b: int| 0 <= a < b < next.len() implies (#[trigger] next[a]).id
                != (#[trigger] next[b]).id by {
                if b < j {
                    assert(so_far[a].id != so_far[b].id);
                } else {
                    assert(tables@[a].id != tables@[j as int].id);
                }
            }
        }
        j += 1;
    }
    assert(tables@.take(j as int) =~= tables@);
    true
}

fn is_table_name(name: &str) -> (valid: bool)
    ensures
        valid == valid_table_name(name@),
{
    let count: usize = name.unicode_len();
    let mut i: usize = 0;
    while i < count
        invariant
            i <= count,
            count == name@.len(),
            forall|j: int|
                0 <= j < i ==> #[trigger] name@[j] == '_' || keyspace::ascii_letter(name@[j])
                    || keyspace::ascii_digit(name@[j]),
        decreases count - i,
    {
        let ch: char = name.get_char(i);
        if !(ch == '_' || is_letter(ch) || is_digit(ch)) {
            assert(!(name@[i as int] == '_' || keyspace::ascii_letter(name@[i as int])
                || keyspace::ascii_digit(name@[i as int])));
            return false;
        }
        i += 1;
    }
    count > 0
}

fn are_well_named(tables: &[PhysicalDescriptor]) -> (named: bool)
    ensures
        named == well_named(tables@),
{
    let mut i: usize = 0;
    while i < tables.len()
        invariant
            i <= tables@.len(),
            forall|k: int|
                0 <= k < i ==> valid_table_name((#[trigger] tables@[k]).physical_name@),
        decreases tables@.len() - i,
    {
        if !is_table_name(tables[i].physical_name.as_str()) {
            assert(!valid_table_name(tables@[i as int].physical_name@));
            return false;
        }
        i += 1;
    }
    true
}

/// The first descriptor of `tables` for the table `id`.
pub open spec fn find_table(tables: Seq<PhysicalDescriptor>, id: ScyllaPhysicalTableId) -> Option<
    PhysicalDescriptor,
>
    decreases tables.len(),
{
    if tables.len() == 0 {
        None
    } else if tables[0].id == id {
        Some(tables[0])
    } else {
        find_table(tables.drop_first(), id)
    }
}

/// The first descriptor of `domains` for the domain `id`.
pub open spec fn find_domain(domains: Seq<KeyDomainDescriptor>, id: ScyllaKeyDomain) -> Option<
    KeyDomainDescriptor,
>
    decreases domains.len(),
{
    if domains.len() == 0 {
        None
    } else if domains[0].id == id {
        Some(domains[0])
    } else {
        find_domain(domains.drop_first(), id)
    }
}

/// A table that is found is one of those registered.
pub proof fn lemma_found_table(tables: Seq<PhysicalDescriptor>, id: ScyllaPhysicalTableId)
    ensures
        find_table(tables, id) matches Some(descriptor) ==> tables.contains(descriptor)
            && descriptor.id == id,
    decreases tables.len(),
{
    if tables.len() > 0 && tables[0].id != id {
        let rest = tables.drop_first();
        lemma_found_table(rest, id);
        if let Some(descriptor) = find_table(rest, id) {
            let i = choose|i: int| 0 <= i < rest.len() && rest[i] == descriptor;
            assert(tables[i + 1] == descriptor);
        }
    }
}

impl Registry {
    /// What every registry keeps.
    #[verifier::type_invariant]
    pub open spec fn valid(&self) -> bool {
        registry_refusal(self.spec_tables(), self.spec_domains()) is None
    }

    pub closed spec fn spec_key_codec_version(&self) -> u16 {
        self.key_codec_version
    }

    pub closed spec fn spec_tables(&self) -> Seq<PhysicalDescriptor> {
        self.tables@
    }

    pub closed spec fn spec_domains(&self) -> Seq<KeyDomainDescriptor> {
        self.domains@
    }

    /// The registry of a schema, or why there is none.
    pub fn try_new(
        key_codec_version: u16,
        tables: Vec<PhysicalDescriptor>,
        domains: Vec<KeyDomainDescriptor>,
    ) -> (result: Result<Self, InvalidRegistry>)
        ensures
            match result {
                Ok(registry) => {
                    &&& registry_refusal(tables@, domains@) is None
                    &&& registry.spec_key_codec_version() == key_codec_version
                    &&& registry.spec_tables() == tables@
                    &&& registry.spec_domains() == domains@
                },
                Err(error) => registry_refusal(tables@, domains@) == Some(error),
            },
    {
        if domains.len() >= u16::MAX as usize {
            return Err(InvalidRegistry::TooManyDomains);
        }
        if !are_distinct_domains(&domains) {
            return Err(InvalidRegistry::DuplicateDomain);
        }
        if !are_distinct_tables(&tables) {
            return Err(InvalidRegistry::DuplicateTable);
        }
        if !are_well_named(&tables) {
            return Err(InvalidRegistry::InvalidTableName);
        }
        Ok(Registry { key_codec_version, tables, domains })
    }

    pub fn key_codec_version(&self) -> (version: u16)
        ensures
            version == self.spec_key_codec_version(),
    {
        self.key_codec_version
    }

    pub fn tables(&self) -> (tables: &[PhysicalDescriptor])
        ensures
            tables@ == self.spec_tables(),
    {
        self.tables.as_slice()
    }

    pub fn domains(&self) -> (domains: &[KeyDomainDescriptor])
        ensures
            domains@ == self.spec_domains(),
    {
        self.domains.as_slice()
    }

    pub open spec fn table(&self, id: ScyllaPhysicalTableId) -> Option<PhysicalDescriptor> {
        find_table(self.spec_tables(), id)
    }

    pub open spec fn domain(&self, id: ScyllaKeyDomain) -> Option<KeyDomainDescriptor> {
        find_domain(self.spec_domains(), id)
    }

    /// The schema family of a registered table.
    pub open spec fn family(&self, id: ScyllaPhysicalTableId) -> Option<ScyllaSchemaFamily> {
        match self.table(id) {
            Some(table) => Some(table.schema_family),
            None => None,
        }
    }

    /// The physical table of a registered domain.
    pub open spec fn table_of_domain(&self, id: ScyllaKeyDomain) -> Option<ScyllaPhysicalTableId> {
        match self.domain(id) {
            Some(domain) => Some(domain.physical_table),
            None => None,
        }
    }

    pub fn physical_descriptor(&self, id: ScyllaPhysicalTableId) -> (found: Option<
        &PhysicalDescriptor,
    >)
        ensures
            match found {
                Some(descriptor) => self.table(id) == Some(*descriptor),
                None => self.table(id) is None,
            },
    {
        let mut i: usize = 0;
        assert(self.tables@.skip(0) =~= self.tables@);
        while i < self.tables.len()
            invariant
                i <= self.tables@.len(),
                find_table(self.tables@, id) == find_table(self.tables@.skip(i as int), id),
            decreases self.tables@.len() - i,
        {
            let ghost rest = self.tables@.skip(i as int);
            assert(rest.drop_first() =~= self.tables@.skip(i + 1));
            assert(rest[0] == self.tables@[i as int]);
            if self.tables[i].id == id {
                return Some(&self.tables[i]);
            }
            i += 1;
        }
        None
    }

    pub fn key_domain_descriptor(&self, id: ScyllaKeyDomain) -> (found: Option<
        KeyDomainDescriptor,
    >)
        ensures
            found == self.domain(id),
    {
        let mut i: usize = 0;
        assert(self.domains@.skip(0) =~= self.domains@);
        while i < self.domains.len()
            invariant
                i <= self.domains@.len(),
                find_domain(self.domains@, id) == find_domain(self.domains@.skip(i as int), id),
            decreases self.domains@.len() - i,
        {
            let ghost rest = self.domains@.skip(i as int);
            assert(rest.drop_first() =~= self.domains@.skip(i + 1));
            assert(rest[0] == self.domains@[i as int]);
            if self.domains[i].id == id {
                return Some(self.domains[i]);
            }
            i += 1;
        }
        None
    }

    pub fn schema_family(&self, id: ScyllaPhysicalTableId) -> (family: Option<ScyllaSchemaFamily>)
        ensures
            family == self.family(id),
    {
        match self.physical_descriptor(id) {
            Some(descriptor) => Some(descriptor.schema_family),
            None => None,
        }
    }

    pub fn physical_table_of(&self, id: ScyllaKeyDomain) -> (table: Option<ScyllaPhysicalTableId>)
        ensures
            table == self.table_of_domain(id),
    {
        match self.key_domain_descriptor(id) {
            Some(descriptor) => Some(descriptor.physical_table),
            None => None,
        }
    }
}

/// A registry is taken exactly if its domains can be counted, no domain and no table is
/// registered twice, and every table has a name of letters, digits and underscores.
pub proof fn law_registry_registers_everything_once(
    tables: Seq<PhysicalDescriptor>,
    domains: Seq<KeyDomainDescriptor>,
)
    ensures
        registry_refusal(tables, domains) is None <==> {
            &&& domains.len() < u16::MAX
            &&& forall|i: int, j: int|
                0 <= i < j < domains.len() ==> (#[trigger] domains[i]).id != (
                #[trigger] domains[j]).id
            &&& forall|i: int, j: int|
                0 <= i < j < tables.len() ==> (#[trigger] tables[i]).id != (
                #[trigger] tables[j]).id
            &&& forall|i: int|
                0 <= i < tables.len() ==> valid_table_name((#[trigger] tables[i]).physical_name@)
        },
{
}

/// A table or a domain is found exactly if it is registered, and what is found is its own
/// descriptor.
pub proof fn law_descriptors_are_found_by_their_id(
    tables: Seq<PhysicalDescriptor>,
    table: ScyllaPhysicalTableId,
    domains: Seq<KeyDomainDescriptor>,
    domain: ScyllaKeyDomain,
)
    ensures
        match find_table(tables, table) {
            Some(found) => found.id == table && tables.contains(found),
            None => forall|i: int| 0 <= i < tables.len() ==> (#[trigger] tables[i]).id != table,
        },
        match find_domain(domains, domain) {
            Some(found) => found.id == domain && domains.contains(found),
            None => forall|i: int| 0 <= i < domains.len() ==> (#[trigger] domains[i]).id != domain,
        },
    decreases tables.len() + domains.len(),
{
    if tables.len() > 0 {
        let rest = tables.drop_first();
        law_descriptors_are_found_by_their_id(rest, table, domains, domain);
        if tables[0].id == table {
            assert(tables.contains(tables[0]));
        } else {
            match find_table(rest, table) {
                Some(found) => {
                    let i = choose|i: int| 0 <= i < rest.len() && rest[i] == found;
                    assert(tables[i + 1] == found);
                },
                None => {
                    assert forall|i: int| 0 <= i < tables.len() implies (#[trigger] tables[i]).id
                        != table by {
                        if i > 0 {
                            assert(rest[i - 1] == tables[i]);
                        }
                    }
                },
            }
        }
    } else if domains.len() > 0 {
        let rest = domains.drop_first();
        law_descriptors_are_found_by_their_id(tables, table, rest, domain);
        if domains[0].id == domain {
            assert(domains.contains(domains[0]));
        } else {
            match find_domain(rest, domain) {
                Some(found) => {
                    let i = choose|i: int| 0 <= i < rest.len() && rest[i] == found;
                    assert(domains[i + 1] == found);
                },
                None => {
                    assert forall|i: int| 0 <= i < domains.len() implies (#[trigger] domains[i]).id
                        != domain by {
                        if i > 0 {
                            assert(rest[i - 1] == domains[i]);
                        }
                    }
                },
            }
        }
    }
}

/// What a registry says of a table's family and a domain's table is what it registered.
pub proof fn law_registry_answers_as_registered(
    registry: &Registry,
    table: ScyllaPhysicalTableId,
    domain: ScyllaKeyDomain,
)
    ensures
        registry.family(table) matches Some(family) ==> registry.spec_tables().contains(
            registry.table(table)->0,
        ) && registry.table(table)->0.id == table && registry.table(table)->0.schema_family
            == family,
        registry.table_of_domain(domain) matches Some(home) ==> registry.spec_domains().contains(
            registry.domain(domain)->0,
        ) && registry.domain(domain)->0.id == domain && registry.domain(domain)->0.physical_table
            == home,
{
    law_descriptors_are_found_by_their_id(
        registry.spec_tables(),
        table,
        registry.spec_domains(),
        domain,
    );
}

/// The tag that stands for a schema family in a locator tells the family.
pub proof fn law_family_tags(family: ScyllaSchemaFamily)
    ensures
        family.spec_codec_tag() == 1 <==> family is Kiv,
        family.spec_codec_tag() == 2 <==> family is Blob,
        family.spec_codec_tag() == 3 <==> family is ObjectSingle,
        family.spec_codec_tag() == 4 <==> family is U64,
        family.spec_codec_tag() == 5 <==> family is Counter,
        family.spec_codec_tag() == 6 <==> family is U64ToU128,
        family.spec_codec_tag() == 7 <==> family is U128ToU64,
        family.spec_codec_tag() == 8 <==> family is HashToMany,
        family.spec_codec_tag() == 9 <==> family is MerkleZero,
        family.spec_codec_tag() == 10 <==> family is MerkleSingle,
        family.spec_codec_tag() == 11 <==> family is MerkleDouble,
        family.spec_codec_tag() == 12 <==> family is TagTree,
        family.spec_codec_tag() == 13 <==> family is ImtLeaf,
        family.spec_codec_tag() == 14 <==> family is ImtKeyIndex,
        family.spec_codec_tag() == 15 <==> family is ImtCursor,
{
}

} // verus!
