//! Queries, rows and bindings of the three tables of an indexed Merkle tree.
//!
//! A leaf is the source of everything: a leaf with a new key also makes a row of the key
//! index, and the leaves of a tree move its append cursor.

use vstd::prelude::*;

use crate::bytes;
use crate::bytes::{
    array_equal, array_from, copy_bytes, from_bits, push_bytes, push_u64, to_bits,
};
use crate::commitment;
use crate::identity::ScyllaPhysicalTableId;
use crate::key;
use crate::key::resolve_key_for_rollback;
use crate::keyspace;
use crate::keyspace::CqlKeyspaceName;
use crate::manifest_artifact_set;
use crate::model::CheckpointId;
use crate::registry;
use crate::registry::{Registry, RegistryReadinessError};
use crate::text;
use crate::text::{append, concat3, qualify};
use crate::typed_key;
use crate::typed_key::{ImtEncodedKey, TypedKey, TypedTableKey};

verus! {

pub const IMT_LEAF_ROW_V1_BYTES: usize = 161;

#[derive(Clone, Copy, Debug, PartialEq, Eq, Hash, Structural)]
pub enum ImtQueryKind {
    LeafPut,
    LeafPointDelete,
    LeafBoundedRangeDelete,
    IndexPut,
    IndexPointDelete,
    CursorPut,
    LeafExactRead,
    IndexExactRead,
    CursorExactRead,
}

impl ImtQueryKind {
    pub open spec fn spec_name(self) -> Seq<char> {
        match self {
            ImtQueryKind::LeafPut => "LeafPut"@,
            ImtQueryKind::LeafPointDelete => "LeafPointDelete"@,
            ImtQueryKind::LeafBoundedRangeDelete => "LeafBoundedRangeDelete"@,
            ImtQueryKind::IndexPut => "IndexPut"@,
            ImtQueryKind::IndexPointDelete => "IndexPointDelete"@,
            ImtQueryKind::CursorPut => "CursorPut"@,
            ImtQueryKind::LeafExactRead => "LeafExactRead"@,
            ImtQueryKind::IndexExactRead => "IndexExactRead"@,
            ImtQueryKind::CursorExactRead => "CursorExactRead"@,
        }
    }

    pub fn name(self) -> (name: &'static str)
        ensures
            name@ == self.spec_name(),
    {
        match self {
            ImtQueryKind::LeafPut => "LeafPut",
            ImtQueryKind::LeafPointDelete => "LeafPointDelete",
            ImtQueryKind::LeafBoundedRangeDelete => "LeafBoundedRangeDelete",
            ImtQueryKind::IndexPut => "IndexPut",
            ImtQueryKind::IndexPointDelete => "IndexPointDelete",
            ImtQueryKind::CursorPut => "CursorPut",
            ImtQueryKind::LeafExactRead => "LeafExactRead",
            ImtQueryKind::IndexExactRead => "IndexExactRead",
            ImtQueryKind::CursorExactRead => "CursorExactRead",
        }
    }

    pub open spec fn spec_code(self) -> u8 {
        match self {
            ImtQueryKind::LeafPut => 1,
            ImtQueryKind::LeafPointDelete => 2,
            ImtQueryKind::LeafBoundedRangeDelete => 3,
            ImtQueryKind::IndexPut => 4,
            ImtQueryKind::IndexPointDelete => 5,
            ImtQueryKind::CursorPut => 6,
            ImtQueryKind::LeafExactRead => 7,
            ImtQueryKind::IndexExactRead => 8,
            ImtQueryKind::CursorExactRead => 9,
        }
    }

    #[verifier::when_used_as_spec(spec_code)]
    pub fn code(self) -> (code: u8)
        ensures
            code == self.spec_code(),
    {
        match self {
            ImtQueryKind::LeafPut => 1,
            ImtQueryKind::LeafPointDelete => 2,
            ImtQueryKind::LeafBoundedRangeDelete => 3,
            ImtQueryKind::IndexPut => 4,
            ImtQueryKind::IndexPointDelete => 5,
            ImtQueryKind::CursorPut => 6,
            ImtQueryKind::LeafExactRead => 7,
            ImtQueryKind::IndexExactRead => 8,
            ImtQueryKind::CursorExactRead => 9,
        }
    }
}

/// A statement with the names and types of what it binds.
#[derive(Clone, Debug, PartialEq, Eq)]
pub struct ImtQuery {
    pub kind: ImtQueryKind,
    pub cql: String,
    pub bind_shape: Vec<&'static str>,
}

/// The texts of a bind shape.
pub open spec fn shape_view(shape: Seq<&'static str>) -> Seq<Seq<char>> {
    shape.map_values(|column: &'static str| column@)
}

impl ImtQuery {
    pub fn kind(&self) -> (kind: ImtQueryKind)
        ensures
            kind == self.kind,
    {
        self.kind
    }

    pub fn cql(&self) -> (cql: &str)
        ensures
            cql@ == self.cql@,
    {
        self.cql.as_str()
    }

    pub fn bind_shape(&self) -> (shape: &[&'static str])
        ensures
            shape@ == self.bind_shape@,
    {
        self.bind_shape.as_slice()
    }

    /// The statement is this one, with this shape.
    pub open spec fn is(&self, kind: ImtQueryKind, cql: Seq<char>, shape: Seq<Seq<char>>) -> bool {
        self.kind == kind && self.cql@ == cql && shape_view(self.bind_shape@) == shape
    }
}

/// Appends a column to a bind shape.
fn with_column(shape: Vec<&'static str>, column: &'static str) -> (longer: Vec<&'static str>)
    ensures
        shape_view(longer@) == shape_view(shape@).push(column@),
{
    let mut longer = shape;
    longer.push(column);
    assert(shape_view(longer@) =~= shape_view(shape@).push(column@));
    longer
}

fn no_columns() -> (shape: Vec<&'static str>)
    ensures
        shape_view(shape@) == Seq::<Seq<char>>::empty(),
{
    let shape: Vec<&'static str> = Vec::new();
    assert(shape_view(shape@) =~= Seq::<Seq<char>>::empty());
    shape
}

/// The columns of a bind shape, with commas between them.
pub open spec fn joined_shape(shape: Seq<Seq<char>>) -> Seq<char>
    decreases shape.len(),
{
    if shape.len() == 0 {
        Seq::empty()
    } else if shape.len() == 1 {
        shape[0]
    } else {
        joined_shape(shape.drop_last()) + ","@ + shape.last()
    }
}

fn join_shape(shape: &Vec<&'static str>) -> (joined: String)
    ensures
        joined@ == joined_shape(shape_view(shape@)),
{
    let ghost views = shape_view(shape@);
    if shape.len() == 0 {
        let empty: String = "".to_owned();
        proof {
            reveal_strlit("");
            assert(empty@ =~= joined_shape(views));
        }
        return empty;
    }
    let mut joined: String = shape[0].to_owned();
    assert(views.take(1)[0] == shape@[0]@);
    let mut i: usize = 1;
    while i < shape.len()
        invariant
            1 <= i <= shape@.len(),
            views == shape_view(shape@),
            joined@ == joined_shape(views.take(i as int)),
        decreases shape@.len() - i,
    {
        append(&mut joined, ",");
        append(&mut joined, shape[i]);
        proof {
            let next = views.take(i + 1);
            assert(next.drop_last() =~= views.take(i as int));
            assert(next.last() == shape@[i as int]@);
        }
        i += 1;
    }
    assert(views.take(shape@.len() as int) =~= views);
    joined
}

/// The nine statements of the family.
#[derive(Clone, Debug, PartialEq, Eq)]
pub struct ImtQueries {
    pub leaf_put: ImtQuery,
    pub leaf_point_delete: ImtQuery,
    pub leaf_range_delete: ImtQuery,
    pub index_put: ImtQuery,
    pub index_point_delete: ImtQuery,
    pub cursor_put: ImtQuery,
    pub leaf_exact_read: ImtQuery,
    pub index_exact_read: ImtQuery,
    pub cursor_exact_read: ImtQuery,
}

/// The columns that name a leaf.
pub open spec fn leaf_key_shape() -> Seq<Seq<char>> {
    seq!["tree_id:BIGINT"@, "tree_sub_id:BIGINT"@, "leaf_index:BIGINT"@]
}

/// The columns that name a row of the key index.
pub open spec fn index_key_shape() -> Seq<Seq<char>> {
    seq!["tree_id:BIGINT"@, "tree_sub_id:BIGINT"@, "key_bucket:SMALLINT"@, "encoded_key:BLOB"@]
}

fn leaf_key_columns(shape: Vec<&'static str>) -> (longer: Vec<&'static str>)
    ensures
        shape_view(longer@) == shape_view(shape@) + leaf_key_shape(),
{
    let ghost before = shape_view(shape@);
    let longer = with_column(shape, "tree_id:BIGINT");
    let longer = with_column(longer, "tree_sub_id:BIGINT");
    let longer = with_column(longer, "leaf_index:BIGINT");
    assert(shape_view(longer@) =~= before + leaf_key_shape());
    longer
}

fn index_key_columns(shape: Vec<&'static str>) -> (longer: Vec<&'static str>)
    ensures
        shape_view(longer@) == shape_view(shape@) + index_key_shape(),
{
    let ghost before = shape_view(shape@);
    let longer = with_column(shape, "tree_id:BIGINT");
    let longer = with_column(longer, "tree_sub_id:BIGINT");
    let longer = with_column(longer, "key_bucket:SMALLINT");
    let longer = with_column(longer, "encoded_key:BLOB");
    assert(shape_view(longer@) =~= before + index_key_shape());
    longer
}

/// The statements over the leaf table.
pub open spec fn leaf_queries(queries: &ImtQueries, leaf: Seq<char>) -> bool {
    &&& queries.leaf_put.is(
        ImtQueryKind::LeafPut,
        "INSERT INTO "@ + leaf
            + " (tree_id, tree_sub_id, leaf_index, checkpoint_id, leaf_hash, leaf_key, leaf_value, next_key, next_index) VALUES (?, ?, ?, ?, ?, ?, ?, ?, ?) USING TIMESTAMP ?"@,
        leaf_key_shape() + seq![
            "checkpoint_id:BIGINT"@,
            "leaf_hash:BLOB"@,
            "leaf_key:BLOB"@,
            "leaf_value:BLOB"@,
            "next_key:BLOB"@,
            "next_index:BIGINT"@,
            "write_timestamp_us:BIGINT"@,
        ],
    )
    &&& queries.leaf_point_delete.is(
        ImtQueryKind::LeafPointDelete,
        "DELETE FROM "@ + leaf
            + " USING TIMESTAMP ? WHERE tree_id = ? AND tree_sub_id = ? AND leaf_index = ? AND checkpoint_id = ?"@,
        seq!["delete_fence_us:BIGINT"@] + leaf_key_shape() + seq!["checkpoint_id:BIGINT"@],
    )
    &&& queries.leaf_range_delete.is(
        ImtQueryKind::LeafBoundedRangeDelete,
        "DELETE FROM "@ + leaf
            + " USING TIMESTAMP ? WHERE tree_id = ? AND tree_sub_id = ? AND leaf_index = ? AND checkpoint_id > ? AND checkpoint_id <= ?"@,
        seq!["delete_fence_us:BIGINT"@] + leaf_key_shape() + seq![
            "target_exclusive:BIGINT"@,
            "old_head_inclusive:BIGINT"@,
        ],
    )
    &&& queries.leaf_exact_read.is(
        ImtQueryKind::LeafExactRead,
        "SELECT leaf_hash, leaf_key, leaf_value, next_key, next_index, writetime(leaf_hash), writetime(leaf_key), writetime(leaf_value), writetime(next_key), writetime(next_index) FROM "@
            + leaf
            + " WHERE tree_id = ? AND tree_sub_id = ? AND leaf_index = ? AND checkpoint_id = ?"@,
        leaf_key_shape() + seq!["checkpoint_id:BIGINT"@],
    )
}

/// The statements over the key index.
pub open spec fn index_queries(queries: &ImtQueries, index: Seq<char>) -> bool {
    &&& queries.index_put.is(
        ImtQueryKind::IndexPut,
        "INSERT INTO "@ + index
            + " (tree_id, tree_sub_id, key_bucket, encoded_key, leaf_key, birth_checkpoint, leaf_index) VALUES (?, ?, ?, ?, ?, ?, ?) USING TIMESTAMP ?"@,
        index_key_shape() + seq![
            "leaf_key:BLOB"@,
            "birth_checkpoint:BIGINT"@,
            "leaf_index:BIGINT"@,
            "write_timestamp_us:BIGINT"@,
        ],
    )
    &&& queries.index_point_delete.is(
        ImtQueryKind::IndexPointDelete,
        "DELETE FROM "@ + index
            + " USING TIMESTAMP ? WHERE tree_id = ? AND tree_sub_id = ? AND key_bucket = ? AND encoded_key = ?"@,
        seq!["delete_fence_us:BIGINT"@] + index_key_shape(),
    )
    &&& queries.index_exact_read.is(
        ImtQueryKind::IndexExactRead,
        "SELECT leaf_key, birth_checkpoint, leaf_index, writetime(leaf_key), writetime(birth_checkpoint), writetime(leaf_index) FROM "@
            + index
            + " WHERE tree_id = ? AND tree_sub_id = ? AND key_bucket = ? AND encoded_key = ?"@,
        index_key_shape(),
    )
}

/// The statements over the append cursors.
pub open spec fn cursor_queries(queries: &ImtQueries, cursor: Seq<char>) -> bool {
    &&& queries.cursor_put.is(
        ImtQueryKind::CursorPut,
        "INSERT INTO "@ + cursor
            + " (tree_id, tree_sub_id, next_append_index) VALUES (?, ?, ?) USING TIMESTAMP ?"@,
        seq![
            "tree_id:BIGINT"@,
            "tree_sub_id:BIGINT"@,
            "next_append_index:BIGINT"@,
            "write_timestamp_us:BIGINT"@,
        ],
    )
    &&& queries.cursor_exact_read.is(
        ImtQueryKind::CursorExactRead,
        "SELECT next_append_index, writetime(next_append_index) FROM "@ + cursor
            + " WHERE tree_id = ? AND tree_sub_id = ?"@,
        seq!["tree_id:BIGINT"@, "tree_sub_id:BIGINT"@],
    )
}

/// The name of a registered table in a keyspace.
pub open spec fn family_table(
    registry: &Registry,
    keyspace: Seq<char>,
    table: ScyllaPhysicalTableId,
) -> Seq<char> {
    text::qualified(keyspace, registry.table(table)->0.physical_name@)
}

fn table_name(registry: &Registry, keyspace: &str, table: ScyllaPhysicalTableId) -> (name: Option<
    String,
>)
    ensures
        match name {
            Some(name) => registry.table(table) is Some && name@ == family_table(
                registry,
                keyspace@,
                table,
            ),
            None => registry.table(table) is None,
        },
{
    match registry.physical_descriptor(table) {
        Some(descriptor) => Some(qualify(keyspace, descriptor.physical_name.as_str())),
        None => None,
    }
}

impl ImtQueries {
    /// Every statement binds as many columns as it has placeholders.
    pub open spec fn binds_every_placeholder(&self) -> bool {
        &&& placeholders(self.leaf_put.cql@) == self.leaf_put.bind_shape@.len()
        &&& placeholders(self.leaf_point_delete.cql@) == self.leaf_point_delete.bind_shape@.len()
        &&& placeholders(self.leaf_range_delete.cql@) == self.leaf_range_delete.bind_shape@.len()
        &&& placeholders(self.index_put.cql@) == self.index_put.bind_shape@.len()
        &&& placeholders(self.index_point_delete.cql@) == self.index_point_delete.bind_shape@.len()
        &&& placeholders(self.cursor_put.cql@) == self.cursor_put.bind_shape@.len()
        &&& placeholders(self.leaf_exact_read.cql@) == self.leaf_exact_read.bind_shape@.len()
        &&& placeholders(self.index_exact_read.cql@) == self.index_exact_read.bind_shape@.len()
        &&& placeholders(self.cursor_exact_read.cql@) == self.cursor_exact_read.bind_shape@.len()
    }

    /// The puts and the deletions bind their timestamp, and the exact reads bind none.
    pub open spec fn timestamps_its_writes(&self) -> bool {
        &&& holds_text(self.leaf_put.cql@, "USING TIMESTAMP ?"@)
        &&& holds_text(self.leaf_point_delete.cql@, "USING TIMESTAMP ?"@)
        &&& holds_text(self.leaf_range_delete.cql@, "USING TIMESTAMP ?"@)
        &&& holds_text(self.index_put.cql@, "USING TIMESTAMP ?"@)
        &&& holds_text(self.index_point_delete.cql@, "USING TIMESTAMP ?"@)
        &&& holds_text(self.cursor_put.cql@, "USING TIMESTAMP ?"@)
        &&& !holds_text(self.leaf_exact_read.cql@, "USING TIMESTAMP ?"@)
        &&& !holds_text(self.index_exact_read.cql@, "USING TIMESTAMP ?"@)
        &&& !holds_text(self.cursor_exact_read.cql@, "USING TIMESTAMP ?"@)
    }

    /// The statements over the registered tables of a keyspace. `None` where one of the
    /// three tables is not registered.
    pub fn new(keyspace: &CqlKeyspaceName, registry: &Registry) -> (queries: Option<Self>)
        ensures
            match queries {
                Some(queries) => {
                    &&& registry.table(ScyllaPhysicalTableId::ImtLeaf) is Some
                    &&& registry.table(ScyllaPhysicalTableId::ImtKeyIndex) is Some
                    &&& registry.table(ScyllaPhysicalTableId::ImtNextAppendIndex) is Some
                    &&& leaf_queries(
                        &queries,
                        family_table(registry, keyspace@, ScyllaPhysicalTableId::ImtLeaf),
                    )
                    &&& index_queries(
                        &queries,
                        family_table(registry, keyspace@, ScyllaPhysicalTableId::ImtKeyIndex),
                    )
                    &&& cursor_queries(
                        &queries,
                        family_table(registry, keyspace@, ScyllaPhysicalTableId::ImtNextAppendIndex),
                    )
                    &&& queries.binds_every_placeholder()
                    &&& queries.timestamps_its_writes()
                },
                None => registry.table(ScyllaPhysicalTableId::ImtLeaf) is None || registry.table(
                    ScyllaPhysicalTableId::ImtKeyIndex,
                ) is None || registry.table(ScyllaPhysicalTableId::ImtNextAppendIndex) is None,
            },
    {
        let leaf = match table_name(registry, keyspace.as_str(), ScyllaPhysicalTableId::ImtLeaf) {
            Some(name) => name,
            None => return None,
        };
        let index = match table_name(
            registry,
            keyspace.as_str(),
            ScyllaPhysicalTableId::ImtKeyIndex,
        ) {
            Some(name) => name,
            None => return None,
        };
        let cursor = match table_name(
            registry,
            keyspace.as_str(),
            ScyllaPhysicalTableId::ImtNextAppendIndex,
        ) {
            Some(name) => name,
            None => return None,
        };
        let queries = ImtQueries {
            leaf_put: leaf_put_query(leaf.as_str()),
            leaf_point_delete: leaf_point_delete_query(leaf.as_str()),
            leaf_range_delete: leaf_range_delete_query(leaf.as_str()),
            index_put: index_put_query(index.as_str()),
            index_point_delete: index_point_delete_query(index.as_str()),
            cursor_put: cursor_put_query(cursor.as_str()),
            leaf_exact_read: leaf_exact_read_query(leaf.as_str()),
            index_exact_read: index_exact_read_query(index.as_str()),
            cursor_exact_read: cursor_exact_read_query(cursor.as_str()),
        };
        proof {
            use_type_invariant(registry);
            law_registered_names_hold_no_placeholder(
                registry,
                keyspace@,
                ScyllaPhysicalTableId::ImtLeaf,
            );
            law_registered_names_hold_no_placeholder(
                registry,
                keyspace@,
                ScyllaPhysicalTableId::ImtKeyIndex,
            );
            law_registered_names_hold_no_placeholder(
                registry,
                keyspace@,
                ScyllaPhysicalTableId::ImtNextAppendIndex,
            );
            law_every_placeholder_is_bound(&queries, leaf@, index@, cursor@);
            law_writes_alone_bind_a_timestamp(&queries, leaf@, index@, cursor@);
        }
        Some(queries)
    }

    pub fn leaf_put(&self) -> (query: &ImtQuery)
        ensures
            *query == self.leaf_put,
    {
        &self.leaf_put
    }

    pub fn leaf_point_delete(&self) -> (query: &ImtQuery)
        ensures
            *query == self.leaf_point_delete,
    {
        &self.leaf_point_delete
    }

    pub fn leaf_range_delete(&self) -> (query: &ImtQuery)
        ensures
            *query == self.leaf_range_delete,
    {
        &self.leaf_range_delete
    }

    pub fn index_put(&self) -> (query: &ImtQuery)
        ensures
            *query == self.index_put,
    {
        &self.index_put
    }

    pub fn index_point_delete(&self) -> (query: &ImtQuery)
        ensures
            *query == self.index_point_delete,
    {
        &self.index_point_delete
    }

    pub fn cursor_put(&self) -> (query: &ImtQuery)
        ensures
            *query == self.cursor_put,
    {
        &self.cursor_put
    }

    pub fn leaf_exact_read(&self) -> (query: &ImtQuery)
        ensures
            *query == self.leaf_exact_read,
    {
        &self.leaf_exact_read
    }

    pub fn index_exact_read(&self) -> (query: &ImtQuery)
        ensures
            *query == self.index_exact_read,
    {
        &self.index_exact_read
    }

    pub fn cursor_exact_read(&self) -> (query: &ImtQuery)
        ensures
            *query == self.cursor_exact_read,
    {
        &self.cursor_exact_read
    }

    pub open spec fn spec_golden(&self) -> Seq<char> {
        golden_query(&self.leaf_put) + golden_query(&self.leaf_point_delete) + golden_query(
            &self.leaf_range_delete,
        ) + golden_query(&self.index_put) + golden_query(&self.index_point_delete) + golden_query(
            &self.cursor_put,
        ) + golden_query(&self.leaf_exact_read) + golden_query(&self.index_exact_read)
            + golden_query(&self.cursor_exact_read)
    }

    /// All statements in their order, each with its kind and its shape.
    pub fn render_golden(&self) -> (golden: String)
        ensures
            golden@ == self.spec_golden(),
    {
        let mut golden = render_query(&self.leaf_put);
        append(&mut golden, render_query(&self.leaf_point_delete).as_str());
        append(&mut golden, render_query(&self.leaf_range_delete).as_str());
        append(&mut golden, render_query(&self.index_put).as_str());
        append(&mut golden, render_query(&self.index_point_delete).as_str());
        append(&mut golden, render_query(&self.cursor_put).as_str());
        append(&mut golden, render_query(&self.leaf_exact_read).as_str());
        append(&mut golden, render_query(&self.index_exact_read).as_str());
        append(&mut golden, render_query(&self.cursor_exact_read).as_str());
        golden
    }
}

/// A statement on three lines: its kind, its text and its shape.
pub open spec fn golden_query(query: &ImtQuery) -> Seq<char> {
    query.kind.spec_name() + "\n"@ + query.cql@ + "\n"@ + joined_shape(
        shape_view(query.bind_shape@),
    ) + "\n"@
}

fn render_query(query: &ImtQuery) -> (rendered: String)
    ensures
        rendered@ == golden_query(query),
{
    let mut rendered = concat3(query.kind.name(), "\n", query.cql.as_str());
    append(&mut rendered, "\n");
    append(&mut rendered, join_shape(&query.bind_shape).as_str());
    append(&mut rendered, "\n");
    rendered
}

fn leaf_put_query(table: &str) -> (query: ImtQuery)
    ensures
        query.is(
            ImtQueryKind::LeafPut,
            "INSERT INTO "@ + table@ + " (tree_id, tree_sub_id, leaf_index, checkpoint_id, leaf_hash, leaf_key, leaf_value, next_key, next_index) VALUES (?, ?, ?, ?, ?, ?, ?, ?, ?) USING TIMESTAMP ?"@,
            leaf_key_shape() + seq!["checkpoint_id:BIGINT"@, "leaf_hash:BLOB"@, "leaf_key:BLOB"@, "leaf_value:BLOB"@, "next_key:BLOB"@, "next_index:BIGINT"@, "write_timestamp_us:BIGINT"@],
        ),
{
    let shape = no_columns();
    let shape = leaf_key_columns(shape);
    let shape = with_column(shape, "checkpoint_id:BIGINT");
    let shape = with_column(shape, "leaf_hash:BLOB");
    let shape = with_column(shape, "leaf_key:BLOB");
    let shape = with_column(shape, "leaf_value:BLOB");
    let shape = with_column(shape, "next_key:BLOB");
    let shape = with_column(shape, "next_index:BIGINT");
    let shape = with_column(shape, "write_timestamp_us:BIGINT");
    assert(shape_view(shape@) =~= leaf_key_shape() + seq!["checkpoint_id:BIGINT"@, "leaf_hash:BLOB"@, "leaf_key:BLOB"@, "leaf_value:BLOB"@, "next_key:BLOB"@, "next_index:BIGINT"@, "write_timestamp_us:BIGINT"@]);
    ImtQuery {
        kind: ImtQueryKind::LeafPut,
        cql: concat3(
            "INSERT INTO ",
            table,
            " (tree_id, tree_sub_id, leaf_index, checkpoint_id, leaf_hash, leaf_key, leaf_value, next_key, next_index) VALUES (?, ?, ?, ?, ?, ?, ?, ?, ?) USING TIMESTAMP ?",
        ),
        bind_shape: shape,
    }
}

fn leaf_point_delete_query(table: &str) -> (query: ImtQuery)
    ensures
        query.is(
            ImtQueryKind::LeafPointDelete,
            "DELETE FROM "@ + table@ + " USING TIMESTAMP ? WHERE tree_id = ? AND tree_sub_id = ? AND leaf_index = ? AND checkpoint_id = ?"@,
            seq!["delete_fence_us:BIGINT"@] + leaf_key_shape() + seq!["checkpoint_id:BIGINT"@],
        ),
{
    let shape = no_columns();
    let shape = with_column(shape, "delete_fence_us:BIGINT");
    let shape = leaf_key_columns(shape);
    let shape = with_column(shape, "checkpoint_id:BIGINT");
    assert(shape_view(shape@) =~= seq!["delete_fence_us:BIGINT"@] + leaf_key_shape() + seq!["checkpoint_id:BIGINT"@]);
    ImtQuery {
        kind: ImtQueryKind::LeafPointDelete,
        cql: concat3(
            "DELETE FROM ",
            table,
            " USING TIMESTAMP ? WHERE tree_id = ? AND tree_sub_id = ? AND leaf_index = ? AND checkpoint_id = ?",
        ),
        bind_shape: shape,
    }
}

fn leaf_range_delete_query(table: &str) -> (query: ImtQuery)
    ensures
        query.is(
            ImtQueryKind::LeafBoundedRangeDelete,
            "DELETE FROM "@ + table@ + " USING TIMESTAMP ? WHERE tree_id = ? AND tree_sub_id = ? AND leaf_index = ? AND checkpoint_id > ? AND checkpoint_id <= ?"@,
            seq!["delete_fence_us:BIGINT"@] + leaf_key_shape() + seq!["target_exclusive:BIGINT"@, "old_head_inclusive:BIGINT"@],
        ),
{
    let shape = no_columns();
    let shape = with_column(shape, "delete_fence_us:BIGINT");
    let shape = leaf_key_columns(shape);
    let shape = with_column(shape, "target_exclusive:BIGINT");
    let shape = with_column(shape, "old_head_inclusive:BIGINT");
    assert(shape_view(shape@) =~= seq!["delete_fence_us:BIGINT"@] + leaf_key_shape() + seq!["target_exclusive:BIGINT"@, "old_head_inclusive:BIGINT"@]);
    ImtQuery {
        kind: ImtQueryKind::LeafBoundedRangeDelete,
        cql: concat3(
            "DELETE FROM ",
            table,
            " USING TIMESTAMP ? WHERE tree_id = ? AND tree_sub_id = ? AND leaf_index = ? AND checkpoint_id > ? AND checkpoint_id <= ?",
        ),
        bind_shape: shape,
    }
}

fn index_put_query(table: &str) -> (query: ImtQuery)
    ensures
        query.is(
            ImtQueryKind::IndexPut,
            "INSERT INTO "@ + table@ + " (tree_id, tree_sub_id, key_bucket, encoded_key, leaf_key, birth_checkpoint, leaf_index) VALUES (?, ?, ?, ?, ?, ?, ?) USING TIMESTAMP ?"@,
            index_key_shape() + seq!["leaf_key:BLOB"@, "birth_checkpoint:BIGINT"@, "leaf_index:BIGINT"@, "write_timestamp_us:BIGINT"@],
        ),
{
    let shape = no_columns();
    let shape = index_key_columns(shape);
    let shape = with_column(shape, "leaf_key:BLOB");
    let shape = with_column(shape, "birth_checkpoint:BIGINT");
    let shape = with_column(shape, "leaf_index:BIGINT");
    let shape = with_column(shape, "write_timestamp_us:BIGINT");
    assert(shape_view(shape@) =~= index_key_shape() + seq!["leaf_key:BLOB"@, "birth_checkpoint:BIGINT"@, "leaf_index:BIGINT"@, "write_timestamp_us:BIGINT"@]);
    ImtQuery {
        kind: ImtQueryKind::IndexPut,
        cql: concat3(
            "INSERT INTO ",
            table,
            " (tree_id, tree_sub_id, key_bucket, encoded_key, leaf_key, birth_checkpoint, leaf_index) VALUES (?, ?, ?, ?, ?, ?, ?) USING TIMESTAMP ?",
        ),
        bind_shape: shape,
    }
}

fn index_point_delete_query(table: &str) -> (query: ImtQuery)
    ensures
        query.is(
            ImtQueryKind::IndexPointDelete,
            "DELETE FROM "@ + table@ + " USING TIMESTAMP ? WHERE tree_id = ? AND tree_sub_id = ? AND key_bucket = ? AND encoded_key = ?"@,
            seq!["delete_fence_us:BIGINT"@] + index_key_shape(),
        ),
{
    let shape = no_columns();
    let shape = with_column(shape, "delete_fence_us:BIGINT");
    let shape = index_key_columns(shape);
    assert(shape_view(shape@) =~= seq!["delete_fence_us:BIGINT"@] + index_key_shape());
    ImtQuery {
        kind: ImtQueryKind::IndexPointDelete,
        cql: concat3(
            "DELETE FROM ",
            table,
            " USING TIMESTAMP ? WHERE tree_id = ? AND tree_sub_id = ? AND key_bucket = ? AND encoded_key = ?",
        ),
        bind_shape: shape,
    }
}

fn cursor_put_query(table: &str) -> (query: ImtQuery)
    ensures
        query.is(
            ImtQueryKind::CursorPut,
            "INSERT INTO "@ + table@ + " (tree_id, tree_sub_id, next_append_index) VALUES (?, ?, ?) USING TIMESTAMP ?"@,
            seq!["tree_id:BIGINT"@, "tree_sub_id:BIGINT"@, "next_append_index:BIGINT"@, "write_timestamp_us:BIGINT"@],
        ),
{
    let shape = no_columns();
    let shape = with_column(shape, "tree_id:BIGINT");
    let shape = with_column(shape, "tree_sub_id:BIGINT");
    let shape = with_column(shape, "next_append_index:BIGINT");
    let shape = with_column(shape, "write_timestamp_us:BIGINT");
    assert(shape_view(shape@) =~= seq!["tree_id:BIGINT"@, "tree_sub_id:BIGINT"@, "next_append_index:BIGINT"@, "write_timestamp_us:BIGINT"@]);
    ImtQuery {
        kind: ImtQueryKind::CursorPut,
        cql: concat3(
            "INSERT INTO ",
            table,
            " (tree_id, tree_sub_id, next_append_index) VALUES (?, ?, ?) USING TIMESTAMP ?",
        ),
        bind_shape: shape,
    }
}

fn leaf_exact_read_query(table: &str) -> (query: ImtQuery)
    ensures
        query.is(
            ImtQueryKind::LeafExactRead,
            "SELECT leaf_hash, leaf_key, leaf_value, next_key, next_index, writetime(leaf_hash), writetime(leaf_key), writetime(leaf_value), writetime(next_key), writetime(next_index) FROM "@ + table@ + " WHERE tree_id = ? AND tree_sub_id = ? AND leaf_index = ? AND checkpoint_id = ?"@,
            leaf_key_shape() + seq!["checkpoint_id:BIGINT"@],
        ),
{
    let shape = no_columns();
    let shape = leaf_key_columns(shape);
    let shape = with_column(shape, "checkpoint_id:BIGINT");
    assert(shape_view(shape@) =~= leaf_key_shape() + seq!["checkpoint_id:BIGINT"@]);
    ImtQuery {
        kind: ImtQueryKind::LeafExactRead,
        cql: concat3(
            "SELECT leaf_hash, leaf_key, leaf_value, next_key, next_index, writetime(leaf_hash), writetime(leaf_key), writetime(leaf_value), writetime(next_key), writetime(next_index) FROM ",
            table,
            " WHERE tree_id = ? AND tree_sub_id = ? AND leaf_index = ? AND checkpoint_id = ?",
        ),
        bind_shape: shape,
    }
}

fn index_exact_read_query(table: &str) -> (query: ImtQuery)
    ensures
        query.is(
            ImtQueryKind::IndexExactRead,
            "SELECT leaf_key, birth_checkpoint, leaf_index, writetime(leaf_key), writetime(birth_checkpoint), writetime(leaf_index) FROM "@ + table@ + " WHERE tree_id = ? AND tree_sub_id = ? AND key_bucket = ? AND encoded_key = ?"@,
            index_key_shape(),
        ),
{
    let shape = no_columns();
    let shape = index_key_columns(shape);
    assert(shape_view(shape@) =~= index_key_shape());
    ImtQuery {
        kind: ImtQueryKind::IndexExactRead,
        cql: concat3(
            "SELECT leaf_key, birth_checkpoint, leaf_index, writetime(leaf_key), writetime(birth_checkpoint), writetime(leaf_index) FROM ",
            table,
            " WHERE tree_id = ? AND tree_sub_id = ? AND key_bucket = ? AND encoded_key = ?",
        ),
        bind_shape: shape,
    }
}

fn cursor_exact_read_query(table: &str) -> (query: ImtQuery)
    ensures
        query.is(
            ImtQueryKind::CursorExactRead,
            "SELECT next_append_index, writetime(next_append_index) FROM "@ + table@ + " WHERE tree_id = ? AND tree_sub_id = ?"@,
            seq!["tree_id:BIGINT"@, "tree_sub_id:BIGINT"@],
        ),
{
    let shape = no_columns();
    let shape = with_column(shape, "tree_id:BIGINT");
    let shape = with_column(shape, "tree_sub_id:BIGINT");
    assert(shape_view(shape@) =~= seq!["tree_id:BIGINT"@, "tree_sub_id:BIGINT"@]);
    ImtQuery {
        kind: ImtQueryKind::CursorExactRead,
        cql: concat3(
            "SELECT next_append_index, writetime(next_append_index) FROM ",
            table,
            " WHERE tree_id = ? AND tree_sub_id = ?",
        ),
        bind_shape: shape,
    }
}

#[allow(inconsistent_fields)]
#[derive(Clone, Debug, PartialEq, Eq)]
pub enum ImtPlanError {
    Registry(RegistryReadinessError),
    MutationBuild(String),
    WrongPhysicalTable(ScyllaPhysicalTableId),
    WrongTypedKey,
    ExpectedLeafRowV1,
    InvalidLeafRowLength { actual: usize },
    LeafKeyRowMismatch,
    ExpectedIndexRowV2,
    IndexRow(String),
    ExpectedCursorTransitionV1,
    UnexpectedDerivedTable(ScyllaPhysicalTableId),
    EmptyLeafBatch,
    MixedCheckpoints { expected: CheckpointId, actual: CheckpointId },
    MixedWriteTimestamps { expected: i64, actual: i64 },
    DuplicateCursorBeforeImage,
    DuplicateDerivedMutation,
    DerivedMutationMismatch,
    CursorBeforeImageCoverage,
    LeafIndexOverflow,
    ConflictingIndexBirth,
    CursorTransition(String),
    VersionNotAfterTarget { version: CheckpointId, target: CheckpointId },
    FenceNotAfterWrite { fence: i64, write: i64 },
    InvalidRange { target: CheckpointId, old_head: CheckpointId },
}

/// The schema of a structured value.
#[derive(Clone, Copy, Debug, PartialEq, Eq, Structural)]
pub enum StructuredValueSchema {
    ImtLeafRowV1,
    ImtKeyIndexRowV2,
    ImtCursorTransitionV1,
    Other,
}

/// What a mutation does to its row.
#[verifier::ext_equal]
#[derive(Clone, Debug, PartialEq, Eq)]
pub enum MutationOperation<B> {
    PutStructured { schema: StructuredValueSchema, canonical_bytes: B },
    PutOther,
    Delete,
}

/// A mutation that was resolved to its row.
#[verifier::ext_equal]
#[derive(Clone, Debug, PartialEq, Eq)]
pub struct ResolvedScyllaMutation<B> {
    pub locator_bytes: B,
    pub content: B,
}

impl View for ResolvedScyllaMutation<Vec<u8>> {
    type V = ResolvedScyllaMutation<Seq<u8>>;

    open spec fn view(&self) -> ResolvedScyllaMutation<Seq<u8>> {
        ResolvedScyllaMutation { locator_bytes: self.locator_bytes@, content: self.content@ }
    }
}

/// A put whose write timestamp is sealed.
#[verifier::ext_equal]
#[derive(Clone, Debug, PartialEq, Eq)]
pub struct SealedTimestampedPut<B> {
    pub physical_table: ScyllaPhysicalTableId,
    pub key: TypedTableKey<B>,
    pub operation: MutationOperation<B>,
    pub resolved: ResolvedScyllaMutation<B>,
    pub timestamp_us: i64,
    pub canonical_bytes: B,
}

pub type SealedPut = SealedTimestampedPut<Vec<u8>>;

pub type SealedPutModel = SealedTimestampedPut<Seq<u8>>;

impl View for SealedTimestampedPut<Vec<u8>> {
    type V = SealedTimestampedPut<Seq<u8>>;

    open spec fn view(&self) -> SealedTimestampedPut<Seq<u8>> {
        SealedTimestampedPut {
            physical_table: self.physical_table,
            key: self.key@,
            operation: match self.operation {
                MutationOperation::PutStructured { schema, canonical_bytes } => {
                    MutationOperation::PutStructured { schema, canonical_bytes: canonical_bytes@ }
                },
                MutationOperation::PutOther => MutationOperation::PutOther,
                MutationOperation::Delete => MutationOperation::Delete,
            },
            resolved: self.resolved@,
            timestamp_us: self.timestamp_us,
            canonical_bytes: self.canonical_bytes@,
        }
    }
}

/// A value that a statement binds.
#[verifier::ext_equal]
#[derive(Clone, Debug, PartialEq, Eq)]
pub enum PrototypeBindValue<B> {
    BigInt(i64),
    SmallInt(i16),
    Blob(B),
}

pub type BindValue = PrototypeBindValue<Vec<u8>>;

pub type BindModel = PrototypeBindValue<Seq<u8>>;

impl View for PrototypeBindValue<Vec<u8>> {
    type V = PrototypeBindValue<Seq<u8>>;

    open spec fn view(&self) -> PrototypeBindValue<Seq<u8>> {
        match *self {
            PrototypeBindValue::BigInt(value) => PrototypeBindValue::BigInt(value),
            PrototypeBindValue::SmallInt(value) => PrototypeBindValue::SmallInt(value),
            PrototypeBindValue::Blob(value) => PrototypeBindValue::Blob(value@),
        }
    }
}

/// The views of a list of bound values.
pub open spec fn bind_models(values: Seq<BindValue>) -> Seq<BindModel> {
    values.map_values(|value: BindValue| value@)
}

/// An unsigned number in a signed column: the same bits.
pub open spec fn bound_number(value: u64) -> BindModel {
    PrototypeBindValue::BigInt(bytes::bits_i64(value))
}

pub open spec fn bound_bytes(value: Seq<u8>) -> BindModel {
    PrototypeBindValue::Blob(value)
}

fn bind(values: &mut Vec<BindValue>, value: BindValue)
    ensures
        bind_models(final(values)@) == bind_models(old(values)@).push(value@),
{
    let ghost before = values@;
    let ghost model = value@;
    values.push(value);
    assert(bind_models(values@) =~= bind_models(before).push(model));
}

fn bind_number(values: &mut Vec<BindValue>, value: u64)
    ensures
        bind_models(final(values)@) == bind_models(old(values)@).push(bound_number(value)),
{
    bind(values, PrototypeBindValue::BigInt(from_bits(value)));
}

fn bind_bytes(values: &mut Vec<BindValue>, value: &[u8])
    ensures
        bind_models(final(values)@) == bind_models(old(values)@).push(bound_bytes(value@)),
{
    bind(values, PrototypeBindValue::Blob(copy_bytes(value)));
}

fn no_values() -> (values: Vec<BindValue>)
    ensures
        bind_models(values@) == Seq::<BindModel>::empty(),
{
    let values: Vec<BindValue> = Vec::new();
    assert(bind_models(values@) =~= Seq::<BindModel>::empty());
    values
}

/// The number in eight bytes, least significant first.
pub open spec fn le64_at(s: Seq<u8>, at: int) -> u64 {
    bytes::be_value(s.subrange(at, at + 8).reverse()) as u64
}

fn read_le64(bytes: &[u8], at: usize) -> (value: u64)
    requires
        at + 8 <= bytes@.len(),
    ensures
        value == le64_at(bytes@, at as int),
{
    let len: usize = bytes.len();
    let mut reversed: Vec<u8> = Vec::new();
    let mut i: usize = 0;
    while i < 8
        invariant
            i <= 8,
            at + 8 <= bytes@.len(),
            bytes@.len() == len,
            reversed@.len() == i,
            forall|k: int| 0 <= k < i ==> reversed@[k] == bytes@[at + 7 - k],
        decreases 8 - i,
    {
        reversed.push(bytes[at + 7 - i]);
        i += 1;
    }
    proof {
        assert(reversed@ =~= bytes@.subrange(at as int, at + 8).reverse());
        assert(reversed@.subrange(0, 8) =~= reversed@);
        bytes::lemma_be_value_bound(reversed@);
        bytes::lemma_pow256_small();
    }
    bytes::read_be(&reversed, 0, 8)
}

/// A leaf row as the leaf table's source holds it.
#[derive(Clone, Copy, Debug, PartialEq, Eq)]
pub struct ParsedLeafRow {
    pub tree_id: u64,
    pub tree_sub_id: u64,
    pub leaf_index: u64,
    pub leaf_hash: [u8; 32],
    pub leaf_key: [u8; 32],
    pub leaf_value: [u8; 32],
    pub next_key: [u8; 32],
    pub next_index: u64,
    pub is_new_key: bool,
}

pub open spec fn parsed_leaf_row(row: Seq<u8>) -> Result<ParsedLeafRow, ImtPlanError> {
    if row.len() != IMT_LEAF_ROW_V1_BYTES {
        Err(ImtPlanError::InvalidLeafRowLength { actual: row.len() as usize })
    } else {
        Ok(
            ParsedLeafRow {
                tree_id: le64_at(row, 0),
                tree_sub_id: le64_at(row, 8),
                leaf_index: le64_at(row, 16),
                leaf_hash: bytes::digest_at(row, 24),
                leaf_key: bytes::digest_at(row, 56),
                leaf_value: bytes::digest_at(row, 88),
                next_key: bytes::digest_at(row, 120),
                next_index: le64_at(row, 152),
                is_new_key: row[160] != 0,
            },
        )
    }
}

fn digest_in(bytes: &[u8], at: usize) -> (digest: [u8; 32])
    requires
        at + 32 <= bytes@.len(),
    ensures
        digest == bytes::digest_at(bytes@, at as int),
{
    let _len: usize = bytes.len();
    array_from::<32>(vstd::slice::slice_subrange(bytes, at, at + 32))
}

impl ParsedLeafRow {
    pub fn try_parse(row: &[u8]) -> (result: Result<Self, ImtPlanError>)
        ensures
            result == parsed_leaf_row(row@),
    {
        if row.len() != IMT_LEAF_ROW_V1_BYTES {
            return Err(ImtPlanError::InvalidLeafRowLength { actual: row.len() });
        }
        Ok(
            ParsedLeafRow {
                tree_id: read_le64(row, 0),
                tree_sub_id: read_le64(row, 8),
                leaf_index: read_le64(row, 16),
                leaf_hash: digest_in(row, 24),
                leaf_key: digest_in(row, 56),
                leaf_value: digest_in(row, 88),
                next_key: digest_in(row, 120),
                next_index: read_le64(row, 152),
                is_new_key: row[160] != 0,
            },
        )
    }
}

/// Turns four little-endian limbs, least significant first, into the order in which the
/// store compares keys: the bytes from the last to the first.
pub fn encode_raw_imt_key_for_sorting(raw: [u8; 32]) -> (encoded: [u8; 32])
    ensures
        encoded@ == raw@.reverse(),
{
    let mut encoded: [u8; 32] = bytes::ZERO_DIGEST;
    let mut i: usize = 0;
    while i < 32
        invariant
            i <= 32,
            forall|k: int| 0 <= k < i ==> encoded@[k] == raw@[31 - k],
        decreases 32 - i,
    {
        encoded[i] = raw[31 - i];
        i += 1;
    }
    assert(encoded@ =~= raw@.reverse());
    encoded
}

/// The number that four little-endian limbs make.
pub open spec fn limbs_value(raw: Seq<u8>) -> nat {
    le64_at(raw, 0) as nat + le64_at(raw, 8) as nat * bytes::pow256(8) + le64_at(raw, 16) as nat
        * bytes::pow256(16) + le64_at(raw, 24) as nat * bytes::pow256(24)
}

/// A number in two parts.
proof fn lemma_be_value_joins(a: Seq<u8>, b: Seq<u8>)
    ensures
        bytes::be_value(a + b) == bytes::be_value(a) * bytes::pow256(b.len()) + bytes::be_value(b),
    decreases b.len(),
{
    if b.len() == 0 {
        assert(a + b =~= a);
        assert(bytes::be_value(a) * bytes::pow256(0) == bytes::be_value(a)) by (nonlinear_arith)
            requires
                bytes::pow256(0) == 1,
        ;
    } else {
        let rest = b.drop_last();
        lemma_be_value_joins(a, rest);
        assert((a + b).drop_last() =~= a + rest);
        assert((a + b).last() == b.last());
        let (x, w) = (bytes::be_value(a), bytes::pow256(rest.len()));
        assert(x * w * 256 == x * (256 * w)) by (nonlinear_arith);
    }
}

/// Of two byte strings of one length, the one with the smaller number sorts first.
proof fn lemma_sorts_by_value(a: Seq<u8>, b: Seq<u8>)
    requires
        a.len() == b.len(),
    ensures
        manifest_artifact_set::precedes(a, b) == (bytes::be_value(a) < bytes::be_value(b)),
    decreases a.len(),
{
    if a.len() > 0 {
        let (x, y) = (a.drop_first(), b.drop_first());
        lemma_sorts_by_value(x, y);
        assert(a =~= seq![a[0]] + x);
        assert(b =~= seq![b[0]] + y);
        commitment::lemma_be_value_behind(a[0], x);
        commitment::lemma_be_value_behind(b[0], y);
        bytes::lemma_be_value_bound(x);
        bytes::lemma_be_value_bound(y);
        let w = bytes::pow256(x.len());
        let (u, v) = (bytes::be_value(x), bytes::be_value(y));
        let (p, q) = (a[0] as int, b[0] as int);
        assert(p < q ==> p * w + u < q * w + v) by (nonlinear_arith)
            requires
                u < w,
                v >= 0,
        ;
        assert(p > q ==> p * w + u >= q * w + v) by (nonlinear_arith)
            requires
                u >= 0,
                v < w,
        ;
    }
}

/// Encoded keys sort as the numbers that their limbs make.
pub proof fn law_sorting_follows_the_limbs(a: [u8; 32], b: [u8; 32])
    ensures
        manifest_artifact_set::precedes(a@.reverse(), b@.reverse()) == (limbs_value(a@)
            < limbs_value(b@)),
{
    lemma_sorts_by_value(a@.reverse(), b@.reverse());
    lemma_limbs(a@);
    lemma_limbs(b@);
}

proof fn lemma_limbs(raw: Seq<u8>)
    requires
        raw.len() == 32,
    ensures
        bytes::be_value(raw.reverse()) == limbs_value(raw),
{
    let l0 = raw.subrange(0, 8).reverse();
    let l1 = raw.subrange(8, 16).reverse();
    let l2 = raw.subrange(16, 24).reverse();
    let l3 = raw.subrange(24, 32).reverse();
    assert(raw.reverse() =~= l3 + (l2 + (l1 + l0)));
    lemma_be_value_joins(l3, l2 + (l1 + l0));
    lemma_be_value_joins(l2, l1 + l0);
    lemma_be_value_joins(l1, l0);
    bytes::lemma_be_value_bound(l0);
    bytes::lemma_be_value_bound(l1);
    bytes::lemma_be_value_bound(l2);
    bytes::lemma_be_value_bound(l3);
    bytes::lemma_pow256_small();
    assert((l1 + l0).len() == 16);
    assert((l2 + (l1 + l0)).len() == 24);
}

/// The append cursor of a tree.
#[derive(Clone, Copy, Debug, PartialEq, Eq, Hash, PartialOrd, Ord, Structural)]
pub struct ImtCursorSnapshot {
    pub tree: u64,
    pub tree_sub: u64,
    pub next_append_index: u64,
}

impl ImtCursorSnapshot {
    pub fn new(tree: u64, tree_sub: u64, next_append_index: u64) -> (snapshot: Self)
        ensures
            snapshot == (ImtCursorSnapshot { tree, tree_sub, next_append_index }),
    {
        ImtCursorSnapshot { tree, tree_sub, next_append_index }
    }

    pub fn tree(&self) -> (tree: u64)
        ensures
            tree == self.tree,
    {
        self.tree
    }

    pub fn tree_sub(&self) -> (tree_sub: u64)
        ensures
            tree_sub == self.tree_sub,
    {
        self.tree_sub
    }

    pub fn next_append_index(&self) -> (index: u64)
        ensures
            index == self.next_append_index,
    {
        self.next_append_index
    }
}

#[derive(Clone, Copy, Debug, PartialEq, Eq, Hash)]
pub struct ImtCheckpointWriteDigest(pub [u8; 32]);

impl ImtCheckpointWriteDigest {
    pub fn as_bytes(&self) -> (bytes: &[u8; 32])
        ensures
            *bytes == self.0,
    {
        &self.0
    }
}

/// A leaf that is to be written.
#[derive(Clone, Copy, Debug, PartialEq, Eq)]
pub struct ImtLeafPutBinding {
    pub tree: u64,
    pub tree_sub: u64,
    pub leaf: u64,
    pub checkpoint: CheckpointId,
    pub leaf_hash: [u8; 32],
    pub leaf_key: [u8; 32],
    pub leaf_value: [u8; 32],
    pub next_key: [u8; 32],
    pub next_index: u64,
    pub is_new_key: bool,
    pub write_timestamp_us: i64,
}

/// The bytes of a leaf's columns.
pub open spec fn leaf_physical_value(
    leaf_hash: Seq<u8>,
    leaf_key: Seq<u8>,
    leaf_value: Seq<u8>,
    next_key: Seq<u8>,
    next_index: u64,
) -> Seq<u8> {
    leaf_hash + leaf_key + leaf_value + next_key + bytes::be64(next_index)
}

fn encode_leaf_physical_value(
    leaf_hash: &[u8],
    leaf_key: &[u8],
    leaf_value: &[u8],
    next_key: &[u8],
    next_index: u64,
) -> (value: Vec<u8>)
    ensures
        value@ == leaf_physical_value(leaf_hash@, leaf_key@, leaf_value@, next_key@, next_index),
{
    let mut value: Vec<u8> = copy_bytes(leaf_hash);
    push_bytes(&mut value, leaf_key);
    push_bytes(&mut value, leaf_value);
    push_bytes(&mut value, next_key);
    push_u64(&mut value, next_index);
    value
}

/// The leaf of a sealed put, if it is the put of a leaf row under that row's own key.
pub open spec fn leaf_binding(sealed: SealedPutModel) -> Result<ImtLeafPutBinding, ImtPlanError> {
    if sealed.physical_table != ScyllaPhysicalTableId::ImtLeaf {
        Err(ImtPlanError::WrongPhysicalTable(sealed.physical_table))
    } else {
        match sealed.key {
            TypedTableKey::ImtLeaf { tree, tree_sub, leaf, checkpoint } => match sealed.operation {
                MutationOperation::PutStructured { schema, canonical_bytes } => if schema
                    != StructuredValueSchema::ImtLeafRowV1 {
                    Err(ImtPlanError::ExpectedLeafRowV1)
                } else {
                    match parsed_leaf_row(canonical_bytes) {
                        Err(error) => Err(error),
                        Ok(row) => if row.tree_id != tree || row.tree_sub_id != tree_sub
                            || row.leaf_index != leaf {
                            Err(ImtPlanError::LeafKeyRowMismatch)
                        } else {
                            Ok(
                                ImtLeafPutBinding {
                                    tree,
                                    tree_sub,
                                    leaf,
                                    checkpoint,
                                    leaf_hash: row.leaf_hash,
                                    leaf_key: row.leaf_key,
                                    leaf_value: row.leaf_value,
                                    next_key: row.next_key,
                                    next_index: row.next_index,
                                    is_new_key: row.is_new_key,
                                    write_timestamp_us: sealed.timestamp_us,
                                },
                            )
                        },
                    }
                },
                _ => Err(ImtPlanError::ExpectedLeafRowV1),
            },
            _ => Err(ImtPlanError::WrongTypedKey),
        }
    }
}

impl ImtLeafPutBinding {
    pub fn try_from_sealed(sealed: &SealedPut) -> (result: Result<Self, ImtPlanError>)
        ensures
            result == leaf_binding(sealed@),
    {
        if sealed.physical_table != ScyllaPhysicalTableId::ImtLeaf {
            return Err(ImtPlanError::WrongPhysicalTable(sealed.physical_table));
        }
        let (tree, tree_sub, leaf, checkpoint) = match &sealed.key {
            TypedTableKey::ImtLeaf { tree, tree_sub, leaf, checkpoint } => (
                *tree,
                *tree_sub,
                *leaf,
                *checkpoint,
            ),
            _ => return Err(ImtPlanError::WrongTypedKey),
        };
        let row = match &sealed.operation {
            MutationOperation::PutStructured { schema, canonical_bytes } => {
                if *schema != StructuredValueSchema::ImtLeafRowV1 {
                    return Err(ImtPlanError::ExpectedLeafRowV1);
                }
                ParsedLeafRow::try_parse(canonical_bytes)?
            },
            _ => return Err(ImtPlanError::ExpectedLeafRowV1),
        };
        if row.tree_id != tree || row.tree_sub_id != tree_sub || row.leaf_index != leaf {
            return Err(ImtPlanError::LeafKeyRowMismatch);
        }
        Ok(
            ImtLeafPutBinding {
                tree,
                tree_sub,
                leaf,
                checkpoint,
                leaf_hash: row.leaf_hash,
                leaf_key: row.leaf_key,
                leaf_value: row.leaf_value,
                next_key: row.next_key,
                next_index: row.next_index,
                is_new_key: row.is_new_key,
                write_timestamp_us: sealed.timestamp_us,
            },
        )
    }

    pub fn tree(&self) -> (tree: u64)
        ensures
            tree == self.tree,
    {
        self.tree
    }

    pub fn tree_sub(&self) -> (tree_sub: u64)
        ensures
            tree_sub == self.tree_sub,
    {
        self.tree_sub
    }

    pub fn leaf(&self) -> (leaf: u64)
        ensures
            leaf == self.leaf,
    {
        self.leaf
    }

    pub fn checkpoint(&self) -> (checkpoint: CheckpointId)
        ensures
            checkpoint == self.checkpoint,
    {
        self.checkpoint
    }

    pub fn leaf_key(&self) -> (key: &[u8; 32])
        ensures
            *key == self.leaf_key,
    {
        &self.leaf_key
    }

    pub fn next_index(&self) -> (index: u64)
        ensures
            index == self.next_index,
    {
        self.next_index
    }

    pub fn is_new_key(&self) -> (new: bool)
        ensures
            new == self.is_new_key,
    {
        self.is_new_key
    }

    pub fn write_timestamp_us(&self) -> (timestamp: i64)
        ensures
            timestamp == self.write_timestamp_us,
    {
        self.write_timestamp_us
    }

    /// A leaf makes a row of the key index if its key is new, or if it is the leaf that
    /// every tree begins with, whose key and value are zero.
    pub open spec fn spec_creates_index(&self) -> bool {
        self.is_new_key || (bytes::zero_digest(self.leaf_key) && bytes::zero_digest(
            self.leaf_value,
        ))
    }

    pub fn creates_index(&self) -> (creates: bool)
        ensures
            creates == self.spec_creates_index(),
    {
        self.is_new_key || (bytes::is_zero_digest(&self.leaf_key) && bytes::is_zero_digest(
            &self.leaf_value,
        ))
    }

    /// What a statement binds to name the leaf.
    pub open spec fn spec_key_values(&self) -> Seq<BindModel> {
        seq![
            bound_number(self.tree),
            bound_number(self.tree_sub),
            bound_number(self.leaf),
            bound_number(self.checkpoint.value),
        ]
    }

    pub fn key_values(&self) -> (values: Vec<BindValue>)
        ensures
            bind_models(values@) == self.spec_key_values(),
    {
        let mut values = no_values();
        bind_number(&mut values, self.tree);
        bind_number(&mut values, self.tree_sub);
        bind_number(&mut values, self.leaf);
        bind_number(&mut values, self.checkpoint.value);
        assert(bind_models(values@) =~= self.spec_key_values());
        values
    }

    pub fn bind_values(&self) -> (values: Vec<BindValue>)
        ensures
            bind_models(values@) == self.spec_key_values() + seq![
                bound_bytes(self.leaf_hash@),
                bound_bytes(self.leaf_key@),
                bound_bytes(self.leaf_value@),
                bound_bytes(self.next_key@),
                bound_number(self.next_index),
                PrototypeBindValue::BigInt(self.write_timestamp_us),
            ],
    {
        let mut values = self.key_values();
        bind_bytes(&mut values, &self.leaf_hash);
        bind_bytes(&mut values, &self.leaf_key);
        bind_bytes(&mut values, &self.leaf_value);
        bind_bytes(&mut values, &self.next_key);
        bind_number(&mut values, self.next_index);
        bind(&mut values, PrototypeBindValue::BigInt(self.write_timestamp_us));
        assert(bind_models(values@) =~= self.spec_key_values() + seq![
            bound_bytes(self.leaf_hash@),
            bound_bytes(self.leaf_key@),
            bound_bytes(self.leaf_value@),
            bound_bytes(self.next_key@),
            bound_number(self.next_index),
            PrototypeBindValue::BigInt(self.write_timestamp_us),
        ]);
        values
    }

    pub open spec fn spec_physical_value(&self) -> Seq<u8> {
        leaf_physical_value(
            self.leaf_hash@,
            self.leaf_key@,
            self.leaf_value@,
            self.next_key@,
            self.next_index,
        )
    }

    pub fn expected_physical_value(&self) -> (value: Vec<u8>)
        ensures
            value@ == self.spec_physical_value(),
    {
        encode_leaf_physical_value(
            &self.leaf_hash,
            &self.leaf_key,
            &self.leaf_value,
            &self.next_key,
            self.next_index,
        )
    }
}

/// A row of the key index.
#[derive(Clone, Copy, Debug, PartialEq, Eq)]
pub struct ImtKeyIndexRow {
    pub leaf_key: [u8; 32],
    pub birth_checkpoint: CheckpointId,
    pub leaf_index: u64,
}

/// A move of an append cursor.
#[derive(Clone, Copy, Debug, PartialEq, Eq, Structural)]
pub struct ImtCursorTransition {
    pub checkpoint: CheckpointId,
    pub before: u64,
    pub after: u64,
}

/// What the leaves of a checkpoint add beside themselves.
#[derive(Clone, Copy, Debug, PartialEq, Eq)]
pub enum ImtDerivedValue {
    IndexRow(ImtKeyIndexRow),
    CursorTransition(ImtCursorTransition),
}

/// A derived row and the key that it is put under.
#[verifier::ext_equal]
#[derive(Clone, Debug, PartialEq, Eq)]
pub struct DerivedSupplement<B> {
    pub key: TypedTableKey<B>,
    pub value: ImtDerivedValue,
}

pub type Supplement = DerivedSupplement<Vec<u8>>;

pub type SupplementModel = DerivedSupplement<Seq<u8>>;

impl View for DerivedSupplement<Vec<u8>> {
    type V = DerivedSupplement<Seq<u8>>;

    open spec fn view(&self) -> DerivedSupplement<Seq<u8>> {
        DerivedSupplement { key: self.key@, value: self.value }
    }
}

/// A row of the key index that is to be written.
#[derive(Clone, Copy, Debug, PartialEq, Eq)]
pub struct ImtIndexPutBinding {
    pub tree: u64,
    pub tree_sub: u64,
    pub encoded_key: ImtEncodedKey,
    pub leaf_key: [u8; 32],
    pub birth_checkpoint: CheckpointId,
    pub leaf: u64,
    pub write_timestamp_us: i64,
}

/// The index row of a sealed put. `row` is what the codec makes of its value.
pub open spec fn index_binding(
    sealed: SealedPutModel,
    row: Result<ImtKeyIndexRow, String>,
) -> Result<ImtIndexPutBinding, ImtPlanError> {
    if sealed.physical_table != ScyllaPhysicalTableId::ImtKeyIndex {
        Err(ImtPlanError::WrongPhysicalTable(sealed.physical_table))
    } else {
        match sealed.key {
            TypedTableKey::ImtKeyIndex { tree, tree_sub, encoded_key } => match sealed.operation {
                MutationOperation::PutStructured { schema, .. } => if schema
                    != StructuredValueSchema::ImtKeyIndexRowV2 {
                    Err(ImtPlanError::ExpectedIndexRowV2)
                } else {
                    match row {
                        Err(refused) => Err(ImtPlanError::IndexRow(refused)),
                        Ok(row) => Ok(
                            ImtIndexPutBinding {
                                tree,
                                tree_sub,
                                encoded_key,
                                leaf_key: row.leaf_key,
                                birth_checkpoint: row.birth_checkpoint,
                                leaf: row.leaf_index,
                                write_timestamp_us: sealed.timestamp_us,
                            },
                        ),
                    }
                },
                _ => Err(ImtPlanError::ExpectedIndexRowV2),
            },
            _ => Err(ImtPlanError::WrongTypedKey),
        }
    }
}

impl ImtIndexPutBinding {
    pub fn try_from_sealed(sealed: &SealedPut, row: Result<ImtKeyIndexRow, String>) -> (result: Result<
        Self,
        ImtPlanError,
    >)
        ensures
            result == index_binding(sealed@, row),
    {
        if sealed.physical_table != ScyllaPhysicalTableId::ImtKeyIndex {
            return Err(ImtPlanError::WrongPhysicalTable(sealed.physical_table));
        }
        let (tree, tree_sub, encoded_key) = match &sealed.key {
            TypedTableKey::ImtKeyIndex { tree, tree_sub, encoded_key } => (
                *tree,
                *tree_sub,
                *encoded_key,
            ),
            _ => return Err(ImtPlanError::WrongTypedKey),
        };
        match &sealed.operation {
            MutationOperation::PutStructured { schema, .. } => {
                if *schema != StructuredValueSchema::ImtKeyIndexRowV2 {
                    return Err(ImtPlanError::ExpectedIndexRowV2);
                }
            },
            _ => return Err(ImtPlanError::ExpectedIndexRowV2),
        }
        match row {
            Err(refused) => Err(ImtPlanError::IndexRow(refused)),
            Ok(row) => Ok(
                ImtIndexPutBinding {
                    tree,
                    tree_sub,
                    encoded_key,
                    leaf_key: row.leaf_key,
                    birth_checkpoint: row.birth_checkpoint,
                    leaf: row.leaf_index,
                    write_timestamp_us: sealed.timestamp_us,
                },
            ),
        }
    }

    pub fn same(&self, other: &Self) -> (same: bool)
        ensures
            same == (*self == *other),
    {
        self.tree == other.tree && self.tree_sub == other.tree_sub && self.encoded_key.same(
            &other.encoded_key,
        ) && array_equal::<32>(&self.leaf_key, &other.leaf_key) && self.birth_checkpoint
            == other.birth_checkpoint && self.leaf == other.leaf && self.write_timestamp_us
            == other.write_timestamp_us
    }

    pub fn tree(&self) -> (tree: u64)
        ensures
            tree == self.tree,
    {
        self.tree
    }

    pub fn tree_sub(&self) -> (tree_sub: u64)
        ensures
            tree_sub == self.tree_sub,
    {
        self.tree_sub
    }

    pub fn encoded_key(&self) -> (key: &ImtEncodedKey)
        ensures
            *key == self.encoded_key,
    {
        &self.encoded_key
    }

    pub fn birth_checkpoint(&self) -> (checkpoint: CheckpointId)
        ensures
            checkpoint == self.birth_checkpoint,
    {
        self.birth_checkpoint
    }

    pub fn leaf(&self) -> (leaf: u64)
        ensures
            leaf == self.leaf,
    {
        self.leaf
    }

    pub fn write_timestamp_us(&self) -> (timestamp: i64)
        ensures
            timestamp == self.write_timestamp_us,
    {
        self.write_timestamp_us
    }

    /// The row that is put.
    pub open spec fn spec_row(&self) -> ImtKeyIndexRow {
        ImtKeyIndexRow {
            leaf_key: self.leaf_key,
            birth_checkpoint: self.birth_checkpoint,
            leaf_index: self.leaf,
        }
    }

    pub fn row(&self) -> (row: ImtKeyIndexRow)
        ensures
            row == self.spec_row(),
    {
        ImtKeyIndexRow {
            leaf_key: self.leaf_key,
            birth_checkpoint: self.birth_checkpoint,
            leaf_index: self.leaf,
        }
    }

    pub open spec fn spec_supplement(&self) -> SupplementModel {
        DerivedSupplement {
            key: TypedTableKey::ImtKeyIndex {
                tree: self.tree,
                tree_sub: self.tree_sub,
                encoded_key: self.encoded_key,
            },
            value: ImtDerivedValue::IndexRow(self.spec_row()),
        }
    }

    pub fn durable_supplement(&self) -> (supplement: Supplement)
        ensures
            supplement@ == self.spec_supplement(),
    {
        DerivedSupplement {
            key: TypedTableKey::ImtKeyIndex {
                tree: self.tree,
                tree_sub: self.tree_sub,
                encoded_key: self.encoded_key,
            },
            value: ImtDerivedValue::IndexRow(self.row()),
        }
    }

    /// What a statement binds to name the row.
    pub open spec fn spec_key_values(&self) -> Seq<BindModel> {
        seq![
            bound_number(self.tree),
            bound_number(self.tree_sub),
            PrototypeBindValue::SmallInt(typed_key::key_bucket(self.encoded_key.bytes@)),
            bound_bytes(self.encoded_key.bytes@),
        ]
    }

    pub fn key_values(&self) -> (values: Vec<BindValue>)
        ensures
            bind_models(values@) == self.spec_key_values(),
    {
        let mut values = no_values();
        bind_number(&mut values, self.tree);
        bind_number(&mut values, self.tree_sub);
        bind(&mut values, PrototypeBindValue::SmallInt(self.encoded_key.cql_bucket()));
        bind_bytes(&mut values, &self.encoded_key.bytes);
        assert(bind_models(values@) =~= self.spec_key_values());
        values
    }

    pub fn bind_values(&self) -> (values: Vec<BindValue>)
        ensures
            bind_models(values@) == self.spec_key_values() + seq![
                bound_bytes(self.leaf_key@),
                bound_number(self.birth_checkpoint.value),
                bound_number(self.leaf),
                PrototypeBindValue::BigInt(self.write_timestamp_us),
            ],
    {
        let mut values = self.key_values();
        bind_bytes(&mut values, &self.leaf_key);
        bind_number(&mut values, self.birth_checkpoint.value);
        bind_number(&mut values, self.leaf);
        bind(&mut values, PrototypeBindValue::BigInt(self.write_timestamp_us));
        assert(bind_models(values@) =~= self.spec_key_values() + seq![
            bound_bytes(self.leaf_key@),
            bound_number(self.birth_checkpoint.value),
            bound_number(self.leaf),
            PrototypeBindValue::BigInt(self.write_timestamp_us),
        ]);
        values
    }
}

/// A move of an append cursor that is to be written.
#[derive(Clone, Copy, Debug, PartialEq, Eq, Structural)]
pub struct ImtCursorPutBinding {
    pub before: ImtCursorSnapshot,
    pub after: ImtCursorSnapshot,
    pub transition: ImtCursorTransition,
    pub write_timestamp_us: i64,
}

/// The cursor move of a sealed put. `transition` is what the codec makes of its value.
pub open spec fn cursor_binding(
    sealed: SealedPutModel,
    transition: Result<ImtCursorTransition, String>,
) -> Result<ImtCursorPutBinding, ImtPlanError> {
    if sealed.physical_table != ScyllaPhysicalTableId::ImtNextAppendIndex {
        Err(ImtPlanError::WrongPhysicalTable(sealed.physical_table))
    } else {
        match cursor_move(sealed, transition) {
            Err(error) => Err(error),
            Ok((tree, tree_sub, transition)) => Ok(
                ImtCursorPutBinding {
                    before: ImtCursorSnapshot {
                        tree,
                        tree_sub,
                        next_append_index: transition.before,
                    },
                    after: ImtCursorSnapshot {
                        tree,
                        tree_sub,
                        next_append_index: transition.after,
                    },
                    transition,
                    write_timestamp_us: sealed.timestamp_us,
                },
            ),
        }
    }
}

/// The tree and the move that a put of the cursor table holds.
pub open spec fn cursor_move(
    sealed: SealedPutModel,
    transition: Result<ImtCursorTransition, String>,
) -> Result<(u64, u64, ImtCursorTransition), ImtPlanError> {
    match sealed.key {
        TypedTableKey::ImtCursor { tree, tree_sub } => match sealed.operation {
            MutationOperation::PutStructured { schema, .. } => if schema
                != StructuredValueSchema::ImtCursorTransitionV1 {
                Err(ImtPlanError::ExpectedCursorTransitionV1)
            } else {
                match transition {
                    Err(refused) => Err(ImtPlanError::CursorTransition(refused)),
                    Ok(transition) => Ok((tree, tree_sub, transition)),
                }
            },
            _ => Err(ImtPlanError::ExpectedCursorTransitionV1),
        },
        _ => Err(ImtPlanError::WrongTypedKey),
    }
}

pub fn read_cursor_move(sealed: &SealedPut, transition: Result<ImtCursorTransition, String>) -> (result:
    Result<(u64, u64, ImtCursorTransition), ImtPlanError>)
    ensures
        result == cursor_move(sealed@, transition),
{
    let (tree, tree_sub) = match &sealed.key {
        TypedTableKey::ImtCursor { tree, tree_sub } => (*tree, *tree_sub),
        _ => return Err(ImtPlanError::WrongTypedKey),
    };
    match &sealed.operation {
        MutationOperation::PutStructured { schema, .. } => {
            if *schema != StructuredValueSchema::ImtCursorTransitionV1 {
                return Err(ImtPlanError::ExpectedCursorTransitionV1);
            }
        },
        _ => return Err(ImtPlanError::ExpectedCursorTransitionV1),
    }
    match transition {
        Err(refused) => Err(ImtPlanError::CursorTransition(refused)),
        Ok(transition) => Ok((tree, tree_sub, transition)),
    }
}

/// What the cursor statement binds.
pub open spec fn cursor_values(snapshot: ImtCursorSnapshot, timestamp: i64) -> Seq<BindModel> {
    seq![
        bound_number(snapshot.tree),
        bound_number(snapshot.tree_sub),
        bound_number(snapshot.next_append_index),
        PrototypeBindValue::BigInt(timestamp),
    ]
}

fn cursor_bind_values(snapshot: ImtCursorSnapshot, timestamp: i64) -> (values: Vec<BindValue>)
    ensures
        bind_models(values@) == cursor_values(snapshot, timestamp),
{
    let mut values = no_values();
    bind_number(&mut values, snapshot.tree);
    bind_number(&mut values, snapshot.tree_sub);
    bind_number(&mut values, snapshot.next_append_index);
    bind(&mut values, PrototypeBindValue::BigInt(timestamp));
    assert(bind_models(values@) =~= cursor_values(snapshot, timestamp));
    values
}

impl ImtCursorPutBinding {
    pub fn try_from_sealed(sealed: &SealedPut, transition: Result<ImtCursorTransition, String>) -> (result:
        Result<Self, ImtPlanError>)
        ensures
            result == cursor_binding(sealed@, transition),
    {
        if sealed.physical_table != ScyllaPhysicalTableId::ImtNextAppendIndex {
            return Err(ImtPlanError::WrongPhysicalTable(sealed.physical_table));
        }
        let (tree, tree_sub, transition) = read_cursor_move(sealed, transition)?;
        Ok(
            ImtCursorPutBinding {
                before: ImtCursorSnapshot { tree, tree_sub, next_append_index: transition.before },
                after: ImtCursorSnapshot { tree, tree_sub, next_append_index: transition.after },
                transition,
                write_timestamp_us: sealed.timestamp_us,
            },
        )
    }

    pub fn before(&self) -> (before: ImtCursorSnapshot)
        ensures
            before == self.before,
    {
        self.before
    }

    pub fn after(&self) -> (after: ImtCursorSnapshot)
        ensures
            after == self.after,
    {
        self.after
    }

    pub fn checkpoint(&self) -> (checkpoint: CheckpointId)
        ensures
            checkpoint == self.transition.checkpoint,
    {
        self.transition.checkpoint
    }

    pub fn durable_transition(&self) -> (transition: ImtCursorTransition)
        ensures
            transition == self.transition,
    {
        self.transition
    }

    pub fn write_timestamp_us(&self) -> (timestamp: i64)
        ensures
            timestamp == self.write_timestamp_us,
    {
        self.write_timestamp_us
    }

    pub open spec fn spec_supplement(&self) -> SupplementModel {
        DerivedSupplement {
            key: TypedTableKey::ImtCursor { tree: self.after.tree, tree_sub: self.after.tree_sub },
            value: ImtDerivedValue::CursorTransition(self.transition),
        }
    }

    pub fn durable_supplement(&self) -> (supplement: Supplement)
        ensures
            supplement@ == self.spec_supplement(),
    {
        DerivedSupplement {
            key: TypedTableKey::ImtCursor { tree: self.after.tree, tree_sub: self.after.tree_sub },
            value: ImtDerivedValue::CursorTransition(self.transition),
        }
    }

    pub fn bind_values(&self) -> (values: Vec<BindValue>)
        ensures
            bind_models(values@) == cursor_values(self.after, self.write_timestamp_us),
    {
        cursor_bind_values(self.after, self.write_timestamp_us)
    }

    pub fn expected_physical_value(&self) -> (value: Vec<u8>)
        ensures
            value@ == bytes::be64(self.after.next_append_index),
    {
        let mut value: Vec<u8> = Vec::new();
        push_u64(&mut value, self.after.next_append_index);
        assert(value@ =~= bytes::be64(self.after.next_append_index));
        value
    }
}

/// Whether a version can be deleted as an orphan: it is later than the target, and the
/// fence is later than its write.
pub open spec fn orphan_refusal(
    birth: CheckpointId,
    target: CheckpointId,
    write: i64,
    fence: i64,
) -> Option<ImtPlanError> {
    if birth.value <= target.value {
        Some(ImtPlanError::VersionNotAfterTarget { version: birth, target })
    } else if fence <= write {
        Some(ImtPlanError::FenceNotAfterWrite { fence, write })
    } else {
        None
    }
}

pub fn require_orphan_and_fence(
    birth: CheckpointId,
    target: CheckpointId,
    write: i64,
    fence: i64,
) -> (result: Result<(), ImtPlanError>)
    ensures
        match orphan_refusal(birth, target, write, fence) {
            Some(error) => result == Err::<(), ImtPlanError>(error),
            None => result is Ok,
        },
{
    if birth.value <= target.value {
        return Err(ImtPlanError::VersionNotAfterTarget { version: birth, target });
    }
    if fence <= write {
        return Err(ImtPlanError::FenceNotAfterWrite { fence, write });
    }
    Ok(())
}

/// Deletes one version of a leaf.
#[derive(Clone, Copy, Debug, PartialEq, Eq)]
pub struct ImtLeafPointDeletePlan {
    pub leaf: ImtLeafPutBinding,
    pub target: CheckpointId,
    pub fence_us: i64,
}

impl ImtLeafPointDeletePlan {
    pub fn try_from_orphaned_version(
        leaf: &ImtLeafPutBinding,
        target: CheckpointId,
        fence_us: i64,
    ) -> (result: Result<Self, ImtPlanError>)
        ensures
            leaf_deletion(*leaf, target, fence_us, result),
    {
        require_orphan_and_fence(leaf.checkpoint, target, leaf.write_timestamp_us, fence_us)?;
        Ok(ImtLeafPointDeletePlan { leaf: *leaf, target, fence_us })
    }

    pub fn bind_values(&self) -> (values: Vec<BindValue>)
        ensures
            bind_models(values@) == seq![PrototypeBindValue::BigInt(self.fence_us)]
                + self.leaf.spec_key_values(),
    {
        let mut values = no_values();
        bind(&mut values, PrototypeBindValue::BigInt(self.fence_us));
        bind_number(&mut values, self.leaf.tree);
        bind_number(&mut values, self.leaf.tree_sub);
        bind_number(&mut values, self.leaf.leaf);
        bind_number(&mut values, self.leaf.checkpoint.value);
        assert(bind_models(values@) =~= seq![PrototypeBindValue::BigInt(self.fence_us)]
            + self.leaf.spec_key_values());
        values
    }

    pub fn target(&self) -> (target: CheckpointId)
        ensures
            target == self.target,
    {
        self.target
    }
}

/// Deletes all versions of a leaf behind the target, up to the old head.
#[derive(Clone, Copy, Debug, PartialEq, Eq, Structural)]
pub struct ImtLeafBoundedRangeDeletePlan {
    pub tree: u64,
    pub tree_sub: u64,
    pub leaf: u64,
    pub target: CheckpointId,
    pub old_head: CheckpointId,
    pub fence_us: i64,
}

/// Why the tables of a key cannot be rolled back.
pub open spec fn readiness_refusal(
    registry: &Registry,
    key: typed_key::TypedKeyModel,
) -> Option<ImtPlanError> {
    match key::rollback_key(registry, key) {
        Err(error) => Some(ImtPlanError::Registry(error)),
        Ok(_) => None,
    }
}

/// Requires that a key can be rolled back, and that it belongs to the expected table.
pub fn require_rollback_key(
    registry: &Registry,
    key: &TypedKey,
    expected: ScyllaPhysicalTableId,
) -> (result: Result<(), ImtPlanError>)
    requires
        key::placed(key@).0 == expected,
    ensures
        match readiness_refusal(registry, key@) {
            Some(error) => result == Err::<(), ImtPlanError>(error),
            None => result is Ok,
        },
{
    match resolve_key_for_rollback(key, registry) {
        Err(error) => Err(ImtPlanError::Registry(error)),
        Ok(resolved) => {
            if resolved.physical_table() == expected {
                Ok(())
            } else {
                Err(ImtPlanError::WrongPhysicalTable(resolved.physical_table()))
            }
        },
    }
}

impl ImtLeafBoundedRangeDeletePlan {
    pub fn try_new(
        tree: u64,
        tree_sub: u64,
        leaf: u64,
        target: CheckpointId,
        old_head: CheckpointId,
        fence_us: i64,
        registry: &Registry,
    ) -> (result: Result<Self, ImtPlanError>)
        ensures
            range_deletion(tree, tree_sub, leaf, target, old_head, fence_us, registry, result),
    {
        if target.value >= old_head.value {
            return Err(ImtPlanError::InvalidRange { target, old_head });
        }
        let key: TypedKey = TypedTableKey::ImtLeaf { tree, tree_sub, leaf, checkpoint: target };
        require_rollback_key(registry, &key, ScyllaPhysicalTableId::ImtLeaf)?;
        Ok(
            ImtLeafBoundedRangeDeletePlan { tree, tree_sub, leaf, target, old_head, fence_us },
        )
    }

    pub fn bind_values(&self) -> (values: Vec<BindValue>)
        ensures
            bind_models(values@) == seq![
                PrototypeBindValue::BigInt(self.fence_us),
                bound_number(self.tree),
                bound_number(self.tree_sub),
                bound_number(self.leaf),
                bound_number(self.target.value),
                bound_number(self.old_head.value),
            ],
    {
        let mut values = no_values();
        bind(&mut values, PrototypeBindValue::BigInt(self.fence_us));
        bind_number(&mut values, self.tree);
        bind_number(&mut values, self.tree_sub);
        bind_number(&mut values, self.leaf);
        bind_number(&mut values, self.target.value);
        bind_number(&mut values, self.old_head.value);
        assert(bind_models(values@) =~= seq![
            PrototypeBindValue::BigInt(self.fence_us),
            bound_number(self.tree),
            bound_number(self.tree_sub),
            bound_number(self.leaf),
            bound_number(self.target.value),
            bound_number(self.old_head.value),
        ]);
        values
    }
}

/// Deletes a row of the key index.
#[derive(Clone, Copy, Debug, PartialEq, Eq)]
pub struct ImtIndexPointDeletePlan {
    pub index: ImtIndexPutBinding,
    pub target: CheckpointId,
    pub fence_us: i64,
}

impl ImtIndexPointDeletePlan {
    pub fn try_from_orphaned_birth(
        index: &ImtIndexPutBinding,
        target: CheckpointId,
        fence_us: i64,
    ) -> (result: Result<Self, ImtPlanError>)
        ensures
            index_deletion(*index, target, fence_us, result),
    {
        require_orphan_and_fence(
            index.birth_checkpoint,
            target,
            index.write_timestamp_us,
            fence_us,
        )?;
        Ok(ImtIndexPointDeletePlan { index: *index, target, fence_us })
    }

    pub fn bind_values(&self) -> (values: Vec<BindValue>)
        ensures
            bind_models(values@) == seq![PrototypeBindValue::BigInt(self.fence_us)]
                + self.index.spec_key_values(),
    {
        let mut values = no_values();
        bind(&mut values, PrototypeBindValue::BigInt(self.fence_us));
        bind_number(&mut values, self.index.tree);
        bind_number(&mut values, self.index.tree_sub);
        bind(&mut values, PrototypeBindValue::SmallInt(self.index.encoded_key.cql_bucket()));
        bind_bytes(&mut values, &self.index.encoded_key.bytes);
        assert(bind_models(values@) =~= seq![PrototypeBindValue::BigInt(self.fence_us)]
            + self.index.spec_key_values());
        values
    }

    pub fn target(&self) -> (target: CheckpointId)
        ensures
            target == self.target,
    {
        self.target
    }
}

/// Puts an append cursor back to where it stood at the target.
#[derive(Clone, Copy, Debug, PartialEq, Eq, Structural)]
pub struct ImtCursorRestorePlan {
    pub target_checkpoint: CheckpointId,
    pub target: ImtCursorSnapshot,
    pub write_timestamp_us: i64,
}

impl ImtCursorRestorePlan {
    pub fn try_new(
        target_checkpoint: CheckpointId,
        target: ImtCursorSnapshot,
        write_timestamp_us: i64,
        registry: &Registry,
    ) -> (result: Result<Self, ImtPlanError>)
        ensures
            cursor_restore(target_checkpoint, target, write_timestamp_us, registry, result),
    {
        let key: TypedKey = TypedTableKey::ImtCursor {
            tree: target.tree,
            tree_sub: target.tree_sub,
        };
        require_rollback_key(registry, &key, ScyllaPhysicalTableId::ImtNextAppendIndex)?;
        Ok(ImtCursorRestorePlan { target_checkpoint, target, write_timestamp_us })
    }

    pub fn target_checkpoint(&self) -> (checkpoint: CheckpointId)
        ensures
            checkpoint == self.target_checkpoint,
    {
        self.target_checkpoint
    }

    pub fn target(&self) -> (target: ImtCursorSnapshot)
        ensures
            target == self.target,
    {
        self.target
    }

    pub fn write_timestamp_us(&self) -> (timestamp: i64)
        ensures
            timestamp == self.write_timestamp_us,
    {
        self.write_timestamp_us
    }

    pub fn bind_values(&self) -> (values: Vec<BindValue>)
        ensures
            bind_models(values@) == cursor_values(self.target, self.write_timestamp_us),
    {
        cursor_bind_values(self.target, self.write_timestamp_us)
    }
}

/// The write time that all columns of a row share.
pub open spec fn same_writetime(writetimes: Seq<Option<i64>>, family: Seq<char>) -> Result<
    i64,
    Seq<char>,
> {
    if writetimes.len() == 0 || writetimes[0] is None {
        Err(family + " writetime is null"@)
    } else if exists|i: int| 0 <= i < writetimes.len() && #[trigger] writetimes[i] != writetimes[0] {
        Err(family + " columns have mixed writetimes"@)
    } else {
        Ok(writetimes[0]->0)
    }
}

/// What a read says when it fails.
pub open spec fn read_result<T>(result: Result<T, String>) -> Result<T, Seq<char>> {
    match result {
        Ok(value) => Ok(value),
        Err(message) => Err(message@),
    }
}

fn said_of(family: &str, message: &str) -> (said: String)
    ensures
        said@ == family@ + message@,
{
    let mut said: String = family.to_owned();
    append(&mut said, message);
    said
}

/// Every column of a row has to have been written, all of them at one time.
pub fn require_same_writetime(writetimes: &[Option<i64>], family: &str) -> (result: Result<
    i64,
    String,
>)
    ensures
        read_result(result) == same_writetime(writetimes@, family@),
{
    let first: i64 = if writetimes.len() == 0 {
        return Err(said_of(family, " writetime is null"));
    } else {
        match writetimes[0] {
            Some(first) => first,
            None => return Err(said_of(family, " writetime is null")),
        }
    };
    let mut i: usize = 0;
    while i < writetimes.len()
        invariant
            i <= writetimes@.len(),
            writetimes@.len() > 0,
            writetimes@[0] == Some(first),
            forall|k: int| 0 <= k < i ==> writetimes@[k] == Some(first),
        decreases writetimes@.len() - i,
    {
        let same: bool = match writetimes[i] {
            Some(writetime) => writetime == first,
            None => false,
        };
        if !same {
            assert(writetimes@[i as int] != writetimes@[0]);
            return Err(said_of(family, " columns have mixed writetimes"));
        }
        i += 1;
    }
    Ok(first)
}

/// The columns of a leaf as they are read.
#[derive(Clone, Debug, PartialEq, Eq)]
pub struct StoredLeafRow {
    pub leaf_hash: Vec<u8>,
    pub leaf_key: Vec<u8>,
    pub leaf_value: Vec<u8>,
    pub next_key: Vec<u8>,
    pub next_index: i64,
    pub writetimes: Vec<Option<i64>>,
}

/// The value of a stored leaf and its write time.
pub open spec fn stored_leaf_value(row: StoredLeafRow) -> Result<(Seq<u8>, i64), Seq<char>> {
    if row.leaf_hash@.len() != 32 || row.leaf_key@.len() != 32 || row.leaf_value@.len() != 32
        || row.next_key@.len() != 32 {
        Err("stored IMT leaf hash field has invalid length"@)
    } else {
        match same_writetime(row.writetimes@, "IMT leaf"@) {
            Err(message) => Err(message),
            Ok(writetime) => Ok(
                (
                    leaf_physical_value(
                        row.leaf_hash@,
                        row.leaf_key@,
                        row.leaf_value@,
                        row.next_key@,
                        bytes::i64_bits(row.next_index),
                    ),
                    writetime,
                ),
            ),
        }
    }
}

pub fn read_leaf_exact_with_writetime(row: StoredLeafRow) -> (result: Result<(Vec<u8>, i64), String>)
    ensures
        match result {
            Ok((value, writetime)) => stored_leaf_value(row) == Ok::<_, Seq<char>>(
                (value@, writetime),
            ),
            Err(message) => stored_leaf_value(row) == Err::<(Seq<u8>, i64), _>(message@),
        },
{
    if row.leaf_hash.len() != 32 || row.leaf_key.len() != 32 || row.leaf_value.len() != 32
        || row.next_key.len() != 32 {
        return Err("stored IMT leaf hash field has invalid length".to_owned());
    }
    let writetime: i64 = require_same_writetime(row.writetimes.as_slice(), "IMT leaf")?;
    Ok(
        (
            encode_leaf_physical_value(
                &row.leaf_hash,
                &row.leaf_key,
                &row.leaf_value,
                &row.next_key,
                to_bits(row.next_index),
            ),
            writetime,
        ),
    )
}

/// The index row that a read found, and its write time.
pub open spec fn stored_index_row(
    leaf_key: Seq<u8>,
    birth_checkpoint: i64,
    leaf_index: i64,
    writetimes: Seq<Option<i64>>,
) -> Result<(ImtKeyIndexRow, i64), Seq<char>> {
    if leaf_key.len() != 32 {
        Err("stored IMT index leaf_key has invalid length"@)
    } else if birth_checkpoint < 0 {
        Err("stored IMT index birth checkpoint is negative"@)
    } else {
        match same_writetime(writetimes, "IMT index"@) {
            Err(message) => Err(message),
            Ok(writetime) => Ok(
                (
                    ImtKeyIndexRow {
                        leaf_key: bytes::array_of::<32>(leaf_key),
                        birth_checkpoint: CheckpointId { value: birth_checkpoint as u64 },
                        leaf_index: bytes::i64_bits(leaf_index),
                    },
                    writetime,
                ),
            ),
        }
    }
}

pub fn read_index_exact_with_writetime(
    leaf_key: &[u8],
    birth_checkpoint: i64,
    leaf_index: i64,
    writetimes: &[Option<i64>],
) -> (result: Result<(ImtKeyIndexRow, i64), String>)
    ensures
        read_result(result) == stored_index_row(
            leaf_key@,
            birth_checkpoint,
            leaf_index,
            writetimes@,
        ),
{
    if leaf_key.len() != 32 {
        return Err("stored IMT index leaf_key has invalid length".to_owned());
    }
    if birth_checkpoint < 0 {
        return Err("stored IMT index birth checkpoint is negative".to_owned());
    }
    let birth_checkpoint = match CheckpointId::try_new(birth_checkpoint as u64) {
        Some(birth_checkpoint) => birth_checkpoint,
        None => {
            return Err("stored IMT index birth checkpoint is outside typed range".to_owned());
        },
    };
    let writetime: i64 = require_same_writetime(writetimes, "IMT index")?;
    Ok(
        (
            ImtKeyIndexRow {
                leaf_key: array_from::<32>(leaf_key),
                birth_checkpoint,
                leaf_index: to_bits(leaf_index),
            },
            writetime,
        ),
    )
}

/// The value of a stored cursor and its write time, which has to be there.
pub fn read_cursor_exact_with_writetime(value: i64, writetime: Option<i64>, missing: &str) -> (result:
    Result<(Vec<u8>, i64), String>)
    ensures
        match writetime {
            Some(writetime) => result matches Ok((bytes, time)) && bytes@ == bytes::be64(
                bytes::i64_bits(value),
            ) && time == writetime,
            None => result matches Err(message) && message@ == missing@,
        },
{
    let writetime: i64 = match writetime {
        Some(writetime) => writetime,
        None => return Err(missing.to_owned()),
    };
    let mut bytes: Vec<u8> = Vec::new();
    push_u64(&mut bytes, to_bits(value));
    assert(bytes@ =~= bytes::be64(bytes::i64_bits(value)));
    Ok((bytes, writetime))
}

/// A leaf that was written is read back as exactly what was to be written: its number
/// column goes through a signed column and back.
pub proof fn law_written_leaf_reads_back(leaf: ImtLeafPutBinding, row: StoredLeafRow)
    requires
        row.leaf_hash@ == leaf.leaf_hash@,
        row.leaf_key@ == leaf.leaf_key@,
        row.leaf_value@ == leaf.leaf_value@,
        row.next_key@ == leaf.next_key@,
        row.next_index == bytes::bits_i64(leaf.next_index),
        row.writetimes@ == Seq::new(5, |i: int| Some(leaf.write_timestamp_us)),
    ensures
        stored_leaf_value(row) == Ok::<_, Seq<char>>(
            (leaf.spec_physical_value(), leaf.write_timestamp_us),
        ),
{
}

/// A deletion of one version covers a version behind the target with a later timestamp,
/// and never one at or before the target.
pub proof fn law_deleted_versions_are_orphans(
    birth: CheckpointId,
    target: CheckpointId,
    write: i64,
    fence: i64,
)
    ensures
        orphan_refusal(birth, target, write, fence) is None <==> birth.value > target.value
            && fence > write,
{
}

/// How many placeholders the first `n` characters of a text hold.
pub open spec fn placeholders_before(text: Seq<char>, n: nat) -> nat
    decreases n,
{
    if n == 0 {
        0
    } else {
        placeholders_before(text, (n - 1) as nat) + if text[n - 1] == '?' {
            1nat
        } else {
            0
        }
    }
}

/// How many placeholders a text holds.
pub open spec fn placeholders(text: Seq<char>) -> nat {
    placeholders_before(text, text.len())
}

proof fn lemma_placeholders_in_front(a: Seq<char>, b: Seq<char>, n: nat)
    requires
        n <= a.len(),
    ensures
        placeholders_before(a + b, n) == placeholders_before(a, n),
    decreases n,
{
    if n > 0 {
        lemma_placeholders_in_front(a, b, (n - 1) as nat);
    }
}

/// The placeholders of two texts add up.
proof fn lemma_placeholders_add_up(a: Seq<char>, b: Seq<char>, n: nat)
    requires
        n <= b.len(),
    ensures
        placeholders_before(a + b, a.len() + n) == placeholders(a) + placeholders_before(b, n),
    decreases n,
{
    if n > 0 {
        lemma_placeholders_add_up(a, b, (n - 1) as nat);
        assert((a + b)[a.len() + n - 1] == b[n - 1]);
    } else {
        lemma_placeholders_in_front(a, b, a.len());
    }
}

/// The placeholders of a statement over a table whose name holds none.
proof fn lemma_placeholders_around(front: Seq<char>, table: Seq<char>, behind: Seq<char>)
    requires
        placeholders(table) == 0,
    ensures
        placeholders(front + table + behind) == placeholders(front) + placeholders(behind),
{
    lemma_placeholders_add_up(front, table, table.len());
    lemma_placeholders_add_up(front + table, behind, behind.len());
}

proof fn lemma_insert_text()
    ensures
        placeholders("INSERT INTO "@) == 0,
{
    reveal_strlit("INSERT INTO ");
    reveal_with_fuel(placeholders_before, 13);
}

proof fn lemma_leaf_put_behind_text()
    ensures
        placeholders(" (tree_id, tree_sub_id, leaf_index, checkpoint_id, leaf_hash, leaf_key, leaf_value, next_key, next_index) VALUES (?, ?, ?, ?, ?, ?, ?, ?, ?) USING TIMESTAMP ?"@) == 10,
{
    reveal_strlit(" (tree_id, tree_sub_id, leaf_index, checkpoint_id, leaf_hash, leaf_key, leaf_value, next_key, next_index) VALUES (?, ?, ?, ?, ?, ?, ?, ?, ?) USING TIMESTAMP ?");
    reveal_with_fuel(placeholders_before, 41);
    let text = " (tree_id, tree_sub_id, leaf_index, checkpoint_id, leaf_hash, leaf_key, leaf_value, next_key, next_index) VALUES (?, ?, ?, ?, ?, ?, ?, ?, ?) USING TIMESTAMP ?"@;
    assert(placeholders_before(text, 40) == 0);
    assert(placeholders_before(text, 80) == 0);
    assert(placeholders_before(text, 120) == 2);
}

proof fn lemma_delete_text()
    ensures
        placeholders("DELETE FROM "@) == 0,
{
    reveal_strlit("DELETE FROM ");
    reveal_with_fuel(placeholders_before, 13);
}

proof fn lemma_leaf_point_delete_behind_text()
    ensures
        placeholders(" USING TIMESTAMP ? WHERE tree_id = ? AND tree_sub_id = ? AND leaf_index = ? AND checkpoint_id = ?"@) == 5,
{
    reveal_strlit(" USING TIMESTAMP ? WHERE tree_id = ? AND tree_sub_id = ? AND leaf_index = ? AND checkpoint_id = ?");
    reveal_with_fuel(placeholders_before, 41);
    let text = " USING TIMESTAMP ? WHERE tree_id = ? AND tree_sub_id = ? AND leaf_index = ? AND checkpoint_id = ?"@;
    assert(placeholders_before(text, 40) == 2);
    assert(placeholders_before(text, 80) == 4);
}

proof fn lemma_leaf_range_delete_behind_text()
    ensures
        placeholders(" USING TIMESTAMP ? WHERE tree_id = ? AND tree_sub_id = ? AND leaf_index = ? AND checkpoint_id > ? AND checkpoint_id <= ?"@) == 6,
{
    reveal_strlit(" USING TIMESTAMP ? WHERE tree_id = ? AND tree_sub_id = ? AND leaf_index = ? AND checkpoint_id > ? AND checkpoint_id <= ?");
    reveal_with_fuel(placeholders_before, 41);
    let text = " USING TIMESTAMP ? WHERE tree_id = ? AND tree_sub_id = ? AND leaf_index = ? AND checkpoint_id > ? AND checkpoint_id <= ?"@;
    assert(placeholders_before(text, 40) == 2);
    assert(placeholders_before(text, 80) == 4);
}

proof fn lemma_leaf_exact_read_front_text()
    ensures
        placeholders("SELECT leaf_hash, leaf_key, leaf_value, next_key, next_index, writetime(leaf_hash), writetime(leaf_key), writetime(leaf_value), writetime(next_key), writetime(next_index) FROM "@) == 0,
{
    reveal_strlit("SELECT leaf_hash, leaf_key, leaf_value, next_key, next_index, writetime(leaf_hash), writetime(leaf_key), writetime(leaf_value), writetime(next_key), writetime(next_index) FROM ");
    reveal_with_fuel(placeholders_before, 41);
    let text = "SELECT leaf_hash, leaf_key, leaf_value, next_key, next_index, writetime(leaf_hash), writetime(leaf_key), writetime(leaf_value), writetime(next_key), writetime(next_index) FROM "@;
    assert(placeholders_before(text, 40) == 0);
    assert(placeholders_before(text, 80) == 0);
    assert(placeholders_before(text, 120) == 0);
    assert(placeholders_before(text, 160) == 0);
}

proof fn lemma_leaf_exact_read_behind_text()
    ensures
        placeholders(" WHERE tree_id = ? AND tree_sub_id = ? AND leaf_index = ? AND checkpoint_id = ?"@) == 4,
{
    reveal_strlit(" WHERE tree_id = ? AND tree_sub_id = ? AND leaf_index = ? AND checkpoint_id = ?");
    reveal_with_fuel(placeholders_before, 41);
    let text = " WHERE tree_id = ? AND tree_sub_id = ? AND leaf_index = ? AND checkpoint_id = ?"@;
    assert(placeholders_before(text, 40) == 2);
}

proof fn lemma_index_put_behind_text()
    ensures
        placeholders(" (tree_id, tree_sub_id, key_bucket, encoded_key, leaf_key, birth_checkpoint, leaf_index) VALUES (?, ?, ?, ?, ?, ?, ?) USING TIMESTAMP ?"@) == 8,
{
    reveal_strlit(" (tree_id, tree_sub_id, key_bucket, encoded_key, leaf_key, birth_checkpoint, leaf_index) VALUES (?, ?, ?, ?, ?, ?, ?) USING TIMESTAMP ?");
    reveal_with_fuel(placeholders_before, 41);
    let text = " (tree_id, tree_sub_id, key_bucket, encoded_key, leaf_key, birth_checkpoint, leaf_index) VALUES (?, ?, ?, ?, ?, ?, ?) USING TIMESTAMP ?"@;
    assert(placeholders_before(text, 40) == 0);
    assert(placeholders_before(text, 80) == 0);
    assert(placeholders_before(text, 120) == 7);
}

proof fn lemma_index_point_delete_behind_text()
    ensures
        placeholders(" USING TIMESTAMP ? WHERE tree_id = ? AND tree_sub_id = ? AND key_bucket = ? AND encoded_key = ?"@) == 5,
{
    reveal_strlit(" USING TIMESTAMP ? WHERE tree_id = ? AND tree_sub_id = ? AND key_bucket = ? AND encoded_key = ?");
    reveal_with_fuel(placeholders_before, 41);
    let text = " USING TIMESTAMP ? WHERE tree_id = ? AND tree_sub_id = ? AND key_bucket = ? AND encoded_key = ?"@;
    assert(placeholders_before(text, 40) == 2);
    assert(placeholders_before(text, 80) == 4);
}

proof fn lemma_index_exact_read_front_text()
    ensures
        placeholders("SELECT leaf_key, birth_checkpoint, leaf_index, writetime(leaf_key), writetime(birth_checkpoint), writetime(leaf_index) FROM "@) == 0,
{
    reveal_strlit("SELECT leaf_key, birth_checkpoint, leaf_index, writetime(leaf_key), writetime(birth_checkpoint), writetime(leaf_index) FROM ");
    reveal_with_fuel(placeholders_before, 41);
    let text = "SELECT leaf_key, birth_checkpoint, leaf_index, writetime(leaf_key), writetime(birth_checkpoint), writetime(leaf_index) FROM "@;
    assert(placeholders_before(text, 40) == 0);
    assert(placeholders_before(text, 80) == 0);
    assert(placeholders_before(text, 120) == 0);
}

proof fn lemma_index_exact_read_behind_text()
    ensures
        placeholders(" WHERE tree_id = ? AND tree_sub_id = ? AND key_bucket = ? AND encoded_key = ?"@) == 4,
{
    reveal_strlit(" WHERE tree_id = ? AND tree_sub_id = ? AND key_bucket = ? AND encoded_key = ?");
    reveal_with_fuel(placeholders_before, 41);
    let text = " WHERE tree_id = ? AND tree_sub_id = ? AND key_bucket = ? AND encoded_key = ?"@;
    assert(placeholders_before(text, 40) == 2);
}

proof fn lemma_cursor_put_behind_text()
    ensures
        placeholders(" (tree_id, tree_sub_id, next_append_index) VALUES (?, ?, ?) USING TIMESTAMP ?"@) == 4,
{
    reveal_strlit(" (tree_id, tree_sub_id, next_append_index) VALUES (?, ?, ?) USING TIMESTAMP ?");
    reveal_with_fuel(placeholders_before, 41);
    let text = " (tree_id, tree_sub_id, next_append_index) VALUES (?, ?, ?) USING TIMESTAMP ?"@;
    assert(placeholders_before(text, 40) == 0);
}

proof fn lemma_cursor_exact_read_front_text()
    ensures
        placeholders("SELECT next_append_index, writetime(next_append_index) FROM "@) == 0,
{
    reveal_strlit("SELECT next_append_index, writetime(next_append_index) FROM ");
    reveal_with_fuel(placeholders_before, 41);
    let text = "SELECT next_append_index, writetime(next_append_index) FROM "@;
    assert(placeholders_before(text, 40) == 0);
}

proof fn lemma_cursor_exact_read_behind_text()
    ensures
        placeholders(" WHERE tree_id = ? AND tree_sub_id = ?"@) == 2,
{
    reveal_strlit(" WHERE tree_id = ? AND tree_sub_id = ?");
    reveal_with_fuel(placeholders_before, 39);
}

/// Every statement of the family binds as many columns as it has placeholders, over
/// tables whose names hold none.
pub proof fn law_every_placeholder_is_bound(
    queries: &ImtQueries,
    leaf: Seq<char>,
    index: Seq<char>,
    cursor: Seq<char>,
)
    requires
        leaf_queries(queries, leaf),
        index_queries(queries, index),
        cursor_queries(queries, cursor),
        placeholders(leaf) == 0,
        placeholders(index) == 0,
        placeholders(cursor) == 0,
    ensures
        queries.binds_every_placeholder(),
{
    lemma_insert_text();
    lemma_leaf_put_behind_text();
    lemma_delete_text();
    lemma_leaf_point_delete_behind_text();
    lemma_leaf_range_delete_behind_text();
    lemma_leaf_exact_read_front_text();
    lemma_leaf_exact_read_behind_text();
    lemma_index_put_behind_text();
    lemma_index_point_delete_behind_text();
    lemma_index_exact_read_front_text();
    lemma_index_exact_read_behind_text();
    lemma_cursor_put_behind_text();
    lemma_cursor_exact_read_front_text();
    lemma_cursor_exact_read_behind_text();
    lemma_placeholders_around(
        "INSERT INTO "@,
        leaf,
        " (tree_id, tree_sub_id, leaf_index, checkpoint_id, leaf_hash, leaf_key, leaf_value, next_key, next_index) VALUES (?, ?, ?, ?, ?, ?, ?, ?, ?) USING TIMESTAMP ?"@,
    );
    lemma_placeholders_around(
        "DELETE FROM "@,
        leaf,
        " USING TIMESTAMP ? WHERE tree_id = ? AND tree_sub_id = ? AND leaf_index = ? AND checkpoint_id = ?"@,
    );
    lemma_placeholders_around(
        "DELETE FROM "@,
        leaf,
        " USING TIMESTAMP ? WHERE tree_id = ? AND tree_sub_id = ? AND leaf_index = ? AND checkpoint_id > ? AND checkpoint_id <= ?"@,
    );
    lemma_placeholders_around(
        "SELECT leaf_hash, leaf_key, leaf_value, next_key, next_index, writetime(leaf_hash), writetime(leaf_key), writetime(leaf_value), writetime(next_key), writetime(next_index) FROM "@,
        leaf,
        " WHERE tree_id = ? AND tree_sub_id = ? AND leaf_index = ? AND checkpoint_id = ?"@,
    );
    lemma_placeholders_around(
        "INSERT INTO "@,
        index,
        " (tree_id, tree_sub_id, key_bucket, encoded_key, leaf_key, birth_checkpoint, leaf_index) VALUES (?, ?, ?, ?, ?, ?, ?) USING TIMESTAMP ?"@,
    );
    lemma_placeholders_around(
        "DELETE FROM "@,
        index,
        " USING TIMESTAMP ? WHERE tree_id = ? AND tree_sub_id = ? AND key_bucket = ? AND encoded_key = ?"@,
    );
    lemma_placeholders_around(
        "SELECT leaf_key, birth_checkpoint, leaf_index, writetime(leaf_key), writetime(birth_checkpoint), writetime(leaf_index) FROM "@,
        index,
        " WHERE tree_id = ? AND tree_sub_id = ? AND key_bucket = ? AND encoded_key = ?"@,
    );
    lemma_placeholders_around(
        "INSERT INTO "@,
        cursor,
        " (tree_id, tree_sub_id, next_append_index) VALUES (?, ?, ?) USING TIMESTAMP ?"@,
    );
    lemma_placeholders_around(
        "SELECT next_append_index, writetime(next_append_index) FROM "@,
        cursor,
        " WHERE tree_id = ? AND tree_sub_id = ?"@,
    );
    assert(shape_view(queries.leaf_put.bind_shape@).len() == queries.leaf_put.bind_shape@.len());
    assert(shape_view(queries.leaf_point_delete.bind_shape@).len() == queries.leaf_point_delete.bind_shape@.len());
    assert(shape_view(queries.leaf_range_delete.bind_shape@).len() == queries.leaf_range_delete.bind_shape@.len());
    assert(shape_view(queries.leaf_exact_read.bind_shape@).len() == queries.leaf_exact_read.bind_shape@.len());
    assert(shape_view(queries.index_put.bind_shape@).len() == queries.index_put.bind_shape@.len());
    assert(shape_view(queries.index_point_delete.bind_shape@).len() == queries.index_point_delete.bind_shape@.len());
    assert(shape_view(queries.index_exact_read.bind_shape@).len() == queries.index_exact_read.bind_shape@.len());
    assert(shape_view(queries.cursor_put.bind_shape@).len() == queries.cursor_put.bind_shape@.len());
    assert(shape_view(queries.cursor_exact_read.bind_shape@).len() == queries.cursor_exact_read.bind_shape@.len());
}

/// Whether a text holds another one.
pub open spec fn holds_text(text: Seq<char>, part: Seq<char>) -> bool {
    exists|at: int| holds_text_at(text, part, at)
}

pub open spec fn holds_text_at(text: Seq<char>, part: Seq<char>, at: int) -> bool {
    0 <= at && at + part.len() <= text.len() && text.subrange(at, at + part.len()) == part
}

proof fn lemma_holds_behind(
    front: Seq<char>,
    table: Seq<char>,
    behind: Seq<char>,
    part: Seq<char>,
    at: int,
)
    requires
        holds_text_at(behind, part, at),
    ensures
        holds_text(front + table + behind, part),
{
    let text = front + table + behind;
    let start = front.len() + table.len() + at;
    assert(text.subrange(start, start + part.len()) =~= behind.subrange(at, at + part.len()));
    assert(holds_text_at(text, part, start));
}

/// Every placeholder among the first `n` characters is compared with a column.
spec fn compared_before(text: Seq<char>, n: nat) -> bool
    decreases n,
{
    n == 0 || (compared_before(text, (n - 1) as nat) && (text[n - 1] == '?' ==> n >= 3 && text[n - 3]
        == '='))
}

proof fn lemma_compared(text: Seq<char>, n: nat, j: int)
    requires
        compared_before(text, n),
        0 <= j < n <= text.len(),
        text[j] == '?',
    ensures
        j >= 2,
        text[j - 2] == '=',
    decreases n,
{
    if j < n - 1 {
        lemma_compared(text, (n - 1) as nat, j);
    }
}

proof fn lemma_counted_placeholder(text: Seq<char>, n: nat, j: int)
    requires
        0 <= j < n <= text.len(),
        text[j] == '?',
    ensures
        placeholders_before(text, n) > 0,
    decreases n,
{
    if j < n - 1 {
        lemma_counted_placeholder(text, (n - 1) as nat, j);
    }
}

/// A statement whose placeholders are all compared with columns binds no timestamp.
proof fn lemma_no_timestamp(front: Seq<char>, table: Seq<char>, behind: Seq<char>)
    requires
        placeholders(front) == 0,
        placeholders(table) == 0,
        compared_before(behind, behind.len()),
    ensures
        !holds_text(front + table + behind, "USING TIMESTAMP ?"@),
{
    reveal_strlit("USING TIMESTAMP ?");
    let part = "USING TIMESTAMP ?"@;
    let text = front + table + behind;
    assert forall|at: int| !holds_text_at(text, part, at) by {
        if holds_text_at(text, part, at) {
            let found = text.subrange(at, at + part.len());
            assert(found[16] == '?' && found[14] == 'P');
            let j = at + 16;
            assert(text[j] == '?' && text[j - 2] == 'P');
            if j < front.len() {
                lemma_counted_placeholder(front, front.len(), j);
            } else if j < front.len() + table.len() {
                lemma_counted_placeholder(table, table.len(), j - front.len());
            } else {
                let k = j - front.len() - table.len();
                assert(behind[k] == '?');
                lemma_compared(behind, behind.len(), k);
                assert(text[j - 2] == behind[k - 2]);
            }
        }
    }
}

proof fn lemma_leaf_put_is_timestamped()
    ensures
        holds_text_at(" (tree_id, tree_sub_id, leaf_index, checkpoint_id, leaf_hash, leaf_key, leaf_value, next_key, next_index) VALUES (?, ?, ?, ?, ?, ?, ?, ?, ?) USING TIMESTAMP ?"@, "USING TIMESTAMP ?"@, 141),
{
    reveal_strlit("USING TIMESTAMP ?");
    reveal_strlit(" (tree_id, tree_sub_id, leaf_index, checkpoint_id, leaf_hash, leaf_key, leaf_value, next_key, next_index) VALUES (?, ?, ?, ?, ?, ?, ?, ?, ?) USING TIMESTAMP ?");
    assert(" (tree_id, tree_sub_id, leaf_index, checkpoint_id, leaf_hash, leaf_key, leaf_value, next_key, next_index) VALUES (?, ?, ?, ?, ?, ?, ?, ?, ?) USING TIMESTAMP ?"@.subrange(141, 158) =~= "USING TIMESTAMP ?"@);
}

proof fn lemma_leaf_point_delete_is_timestamped()
    ensures
        holds_text_at(" USING TIMESTAMP ? WHERE tree_id = ? AND tree_sub_id = ? AND leaf_index = ? AND checkpoint_id = ?"@, "USING TIMESTAMP ?"@, 1),
{
    reveal_strlit("USING TIMESTAMP ?");
    reveal_strlit(" USING TIMESTAMP ? WHERE tree_id = ? AND tree_sub_id = ? AND leaf_index = ? AND checkpoint_id = ?");
    assert(" USING TIMESTAMP ? WHERE tree_id = ? AND tree_sub_id = ? AND leaf_index = ? AND checkpoint_id = ?"@.subrange(1, 18) =~= "USING TIMESTAMP ?"@);
}

proof fn lemma_leaf_range_delete_is_timestamped()
    ensures
        holds_text_at(" USING TIMESTAMP ? WHERE tree_id = ? AND tree_sub_id = ? AND leaf_index = ? AND checkpoint_id > ? AND checkpoint_id <= ?"@, "USING TIMESTAMP ?"@, 1),
{
    reveal_strlit("USING TIMESTAMP ?");
    reveal_strlit(" USING TIMESTAMP ? WHERE tree_id = ? AND tree_sub_id = ? AND leaf_index = ? AND checkpoint_id > ? AND checkpoint_id <= ?");
    assert(" USING TIMESTAMP ? WHERE tree_id = ? AND tree_sub_id = ? AND leaf_index = ? AND checkpoint_id > ? AND checkpoint_id <= ?"@.subrange(1, 18) =~= "USING TIMESTAMP ?"@);
}

proof fn lemma_leaf_exact_read_compares()
    ensures
        compared_before(" WHERE tree_id = ? AND tree_sub_id = ? AND leaf_index = ? AND checkpoint_id = ?"@, " WHERE tree_id = ? AND tree_sub_id = ? AND leaf_index = ? AND checkpoint_id = ?"@.len()),
{
    reveal_strlit(" WHERE tree_id = ? AND tree_sub_id = ? AND leaf_index = ? AND checkpoint_id = ?");
    reveal_with_fuel(compared_before, 41);
    let text = " WHERE tree_id = ? AND tree_sub_id = ? AND leaf_index = ? AND checkpoint_id = ?"@;
    assert(compared_before(text, 40));
}

proof fn lemma_index_put_is_timestamped()
    ensures
        holds_text_at(" (tree_id, tree_sub_id, key_bucket, encoded_key, leaf_key, birth_checkpoint, leaf_index) VALUES (?, ?, ?, ?, ?, ?, ?) USING TIMESTAMP ?"@, "USING TIMESTAMP ?"@, 118),
{
    reveal_strlit("USING TIMESTAMP ?");
    reveal_strlit(" (tree_id, tree_sub_id, key_bucket, encoded_key, leaf_key, birth_checkpoint, leaf_index) VALUES (?, ?, ?, ?, ?, ?, ?) USING TIMESTAMP ?");
    assert(" (tree_id, tree_sub_id, key_bucket, encoded_key, leaf_key, birth_checkpoint, leaf_index) VALUES (?, ?, ?, ?, ?, ?, ?) USING TIMESTAMP ?"@.subrange(118, 135) =~= "USING TIMESTAMP ?"@);
}

proof fn lemma_index_point_delete_is_timestamped()
    ensures
        holds_text_at(" USING TIMESTAMP ? WHERE tree_id = ? AND tree_sub_id = ? AND key_bucket = ? AND encoded_key = ?"@, "USING TIMESTAMP ?"@, 1),
{
    reveal_strlit("USING TIMESTAMP ?");
    reveal_strlit(" USING TIMESTAMP ? WHERE tree_id = ? AND tree_sub_id = ? AND key_bucket = ? AND encoded_key = ?");
    assert(" USING TIMESTAMP ? WHERE tree_id = ? AND tree_sub_id = ? AND key_bucket = ? AND encoded_key = ?"@.subrange(1, 18) =~= "USING TIMESTAMP ?"@);
}

proof fn lemma_index_exact_read_compares()
    ensures
        compared_before(" WHERE tree_id = ? AND tree_sub_id = ? AND key_bucket = ? AND encoded_key = ?"@, " WHERE tree_id = ? AND tree_sub_id = ? AND key_bucket = ? AND encoded_key = ?"@.len()),
{
    reveal_strlit(" WHERE tree_id = ? AND tree_sub_id = ? AND key_bucket = ? AND encoded_key = ?");
    reveal_with_fuel(compared_before, 41);
    let text = " WHERE tree_id = ? AND tree_sub_id = ? AND key_bucket = ? AND encoded_key = ?"@;
    assert(compared_before(text, 40));
}

proof fn lemma_cursor_put_is_timestamped()
    ensures
        holds_text_at(" (tree_id, tree_sub_id, next_append_index) VALUES (?, ?, ?) USING TIMESTAMP ?"@, "USING TIMESTAMP ?"@, 60),
{
    reveal_strlit("USING TIMESTAMP ?");
    reveal_strlit(" (tree_id, tree_sub_id, next_append_index) VALUES (?, ?, ?) USING TIMESTAMP ?");
    assert(" (tree_id, tree_sub_id, next_append_index) VALUES (?, ?, ?) USING TIMESTAMP ?"@.subrange(60, 77) =~= "USING TIMESTAMP ?"@);
}

proof fn lemma_cursor_exact_read_compares()
    ensures
        compared_before(" WHERE tree_id = ? AND tree_sub_id = ?"@, " WHERE tree_id = ? AND tree_sub_id = ?"@.len()),
{
    reveal_strlit(" WHERE tree_id = ? AND tree_sub_id = ?");
    reveal_with_fuel(compared_before, 39);
}

/// Every put and every deletion of the family binds its timestamp, and no exact read
/// binds one, over tables whose names hold no placeholder.
pub proof fn law_writes_alone_bind_a_timestamp(
    queries: &ImtQueries,
    leaf: Seq<char>,
    index: Seq<char>,
    cursor: Seq<char>,
)
    requires
        leaf_queries(queries, leaf),
        index_queries(queries, index),
        cursor_queries(queries, cursor),
        placeholders(leaf) == 0,
        placeholders(index) == 0,
        placeholders(cursor) == 0,
    ensures
        queries.timestamps_its_writes(),
{
    lemma_leaf_put_is_timestamped();
    lemma_holds_behind(
        "INSERT INTO "@,
        leaf,
        " (tree_id, tree_sub_id, leaf_index, checkpoint_id, leaf_hash, leaf_key, leaf_value, next_key, next_index) VALUES (?, ?, ?, ?, ?, ?, ?, ?, ?) USING TIMESTAMP ?"@,
        "USING TIMESTAMP ?"@,
        141,
    );
    lemma_leaf_point_delete_is_timestamped();
    lemma_holds_behind(
        "DELETE FROM "@,
        leaf,
        " USING TIMESTAMP ? WHERE tree_id = ? AND tree_sub_id = ? AND leaf_index = ? AND checkpoint_id = ?"@,
        "USING TIMESTAMP ?"@,
        1,
    );
    lemma_leaf_range_delete_is_timestamped();
    lemma_holds_behind(
        "DELETE FROM "@,
        leaf,
        " USING TIMESTAMP ? WHERE tree_id = ? AND tree_sub_id = ? AND leaf_index = ? AND checkpoint_id > ? AND checkpoint_id <= ?"@,
        "USING TIMESTAMP ?"@,
        1,
    );
    lemma_leaf_exact_read_front_text();
    lemma_leaf_exact_read_compares();
    lemma_no_timestamp(
        "SELECT leaf_hash, leaf_key, leaf_value, next_key, next_index, writetime(leaf_hash), writetime(leaf_key), writetime(leaf_value), writetime(next_key), writetime(next_index) FROM "@,
        leaf,
        " WHERE tree_id = ? AND tree_sub_id = ? AND leaf_index = ? AND checkpoint_id = ?"@,
    );
    lemma_index_put_is_timestamped();
    lemma_holds_behind(
        "INSERT INTO "@,
        index,
        " (tree_id, tree_sub_id, key_bucket, encoded_key, leaf_key, birth_checkpoint, leaf_index) VALUES (?, ?, ?, ?, ?, ?, ?) USING TIMESTAMP ?"@,
        "USING TIMESTAMP ?"@,
        118,
    );
    lemma_index_point_delete_is_timestamped();
    lemma_holds_behind(
        "DELETE FROM "@,
        index,
        " USING TIMESTAMP ? WHERE tree_id = ? AND tree_sub_id = ? AND key_bucket = ? AND encoded_key = ?"@,
        "USING TIMESTAMP ?"@,
        1,
    );
    lemma_index_exact_read_front_text();
    lemma_index_exact_read_compares();
    lemma_no_timestamp(
        "SELECT leaf_key, birth_checkpoint, leaf_index, writetime(leaf_key), writetime(birth_checkpoint), writetime(leaf_index) FROM "@,
        index,
        " WHERE tree_id = ? AND tree_sub_id = ? AND key_bucket = ? AND encoded_key = ?"@,
    );
    lemma_cursor_put_is_timestamped();
    lemma_holds_behind(
        "INSERT INTO "@,
        cursor,
        " (tree_id, tree_sub_id, next_append_index) VALUES (?, ?, ?) USING TIMESTAMP ?"@,
        "USING TIMESTAMP ?"@,
        60,
    );
    lemma_cursor_exact_read_front_text();
    lemma_cursor_exact_read_compares();
    lemma_no_timestamp(
        "SELECT next_append_index, writetime(next_append_index) FROM "@,
        cursor,
        " WHERE tree_id = ? AND tree_sub_id = ?"@,
    );
}

proof fn lemma_no_placeholders(text: Seq<char>, n: nat)
    requires
        n <= text.len(),
        forall|i: int| 0 <= i < text.len() ==> #[trigger] text[i] != '?',
    ensures
        placeholders_before(text, n) == 0,
    decreases n,
{
    if n > 0 {
        lemma_no_placeholders(text, (n - 1) as nat);
    }
}

/// The full name of a registered table in a valid keyspace holds no placeholder.
pub proof fn law_registered_names_hold_no_placeholder(
    registry: &Registry,
    keyspace: Seq<char>,
    table: ScyllaPhysicalTableId,
)
    requires
        registry.valid(),
        keyspace::valid_keyspace_name(keyspace),
        registry.table(table) is Some,
    ensures
        placeholders(family_table(registry, keyspace, table)) == 0,
{
    reveal_strlit(".");
    let tables = registry.spec_tables();
    registry::lemma_found_table(tables, table);
    let descriptor = registry.table(table)->0;
    let i = choose|i: int| 0 <= i < tables.len() && tables[i] == descriptor;
    assert(registry::valid_table_name(tables[i].physical_name@));
    let name = family_table(registry, keyspace, table);
    lemma_no_placeholders(name, name.len());
}

/// The row that a sealed put of the leaf table carries.
pub open spec fn carried_row(sealed: SealedPutModel) -> Seq<u8> {
    sealed.operation->PutStructured_canonical_bytes
}

/// A number stands in eight bytes of a row from its least significant byte on.
pub open spec fn stands_little_endian(value: u64, row: Seq<u8>, at: int) -> bool {
    row.subrange(at, at + 8).reverse() == bytes::be64(value)
}

proof fn lemma_le64_stands(row: Seq<u8>, at: int)
    requires
        0 <= at <= row.len() - 8,
    ensures
        stands_little_endian(le64_at(row, at), row, at),
{
    let part = row.subrange(at, at + 8).reverse();
    bytes::lemma_be_bytes_of_value(part);
    bytes::lemma_be_value_bound(part);
    bytes::lemma_pow256_small();
}

/// A sealed put is taken as a leaf only if it is a leaf row on the leaf table under a
/// leaf key, and the row names the tree and the leaf of that key. The leaf then has the
/// key's place and checkpoint, the put's timestamp, and its hash, key, value, next key
/// and next index from their places in the row; its key counts as new unless the last
/// byte is zero.
pub proof fn law_leaf_is_read_from_its_row(sealed: SealedPutModel)
    ensures
        leaf_binding(sealed) matches Ok(leaf) ==> {
            let row = carried_row(sealed);
            &&& sealed.physical_table is ImtLeaf
            &&& sealed.key == (TypedTableKey::<Seq<u8>>::ImtLeaf {
                tree: leaf.tree,
                tree_sub: leaf.tree_sub,
                leaf: leaf.leaf,
                checkpoint: leaf.checkpoint,
            })
            &&& sealed.operation is PutStructured
            &&& sealed.operation->PutStructured_schema is ImtLeafRowV1
            &&& row.len() == 161
            &&& stands_little_endian(leaf.tree, row, 0)
            &&& stands_little_endian(leaf.tree_sub, row, 8)
            &&& stands_little_endian(leaf.leaf, row, 16)
            &&& leaf.leaf_hash@ == row.subrange(24, 56)
            &&& leaf.leaf_key@ == row.subrange(56, 88)
            &&& leaf.leaf_value@ == row.subrange(88, 120)
            &&& leaf.next_key@ == row.subrange(120, 152)
            &&& stands_little_endian(leaf.next_index, row, 152)
            &&& leaf.is_new_key <==> row[160] != 0
            &&& leaf.write_timestamp_us == sealed.timestamp_us
        },
{
    if leaf_binding(sealed) is Ok {
        let row = carried_row(sealed);
        lemma_le64_stands(row, 0);
        lemma_le64_stands(row, 8);
        lemma_le64_stands(row, 16);
        lemma_le64_stands(row, 152);
        bytes::lemma_read_then_write(row, 24);
        bytes::lemma_read_then_write(row, 56);
        bytes::lemma_read_then_write(row, 88);
        bytes::lemma_read_then_write(row, 120);
    }
}

/// Every leaf row of the right length under its own key is taken.
pub proof fn law_well_formed_leaf_is_taken(
    sealed: SealedPutModel,
    tree: u64,
    tree_sub: u64,
    leaf: u64,
    checkpoint: CheckpointId,
)
    requires
        sealed.physical_table is ImtLeaf,
        sealed.key == (TypedTableKey::<Seq<u8>>::ImtLeaf { tree, tree_sub, leaf, checkpoint }),
        sealed.operation is PutStructured,
        sealed.operation->PutStructured_schema is ImtLeafRowV1,
        carried_row(sealed).len() == 161,
        stands_little_endian(tree, carried_row(sealed), 0),
        stands_little_endian(tree_sub, carried_row(sealed), 8),
        stands_little_endian(leaf, carried_row(sealed), 16),
    ensures
        leaf_binding(sealed) is Ok,
{
    bytes::lemma_pow256_small();
    bytes::lemma_be_value_of_bytes(tree as nat, 8);
    bytes::lemma_be_value_of_bytes(tree_sub as nat, 8);
    bytes::lemma_be_value_of_bytes(leaf as nat, 8);
}

/// A sealed put is taken as a row of the key index exactly if it is an index row on the
/// index table under an index key, and the codec reads it. The row has the key's tree and
/// encoded key, what the codec read, and the put's timestamp.
pub proof fn law_index_row_is_read_from_its_put(
    sealed: SealedPutModel,
    row: Result<ImtKeyIndexRow, String>,
)
    ensures
        index_binding(sealed, row) is Ok <==> sealed.physical_table is ImtKeyIndex && sealed.key
            is ImtKeyIndex && sealed.operation is PutStructured
            && sealed.operation->PutStructured_schema is ImtKeyIndexRowV2 && row is Ok,
        index_binding(sealed, row) matches Ok(index) ==> {
            &&& sealed.key == (TypedTableKey::<Seq<u8>>::ImtKeyIndex {
                tree: index.tree,
                tree_sub: index.tree_sub,
                encoded_key: index.encoded_key,
            })
            &&& index.leaf_key == row->Ok_0.leaf_key
            &&& index.birth_checkpoint == row->Ok_0.birth_checkpoint
            &&& index.leaf == row->Ok_0.leaf_index
            &&& index.write_timestamp_us == sealed.timestamp_us
        },
{
}

/// A sealed put is taken as the move of a cursor exactly if it is a transition on the
/// cursor table under a cursor key, and the codec reads it. The move is that of the key's
/// tree, from the place before to the place behind that the codec read.
pub proof fn law_cursor_move_is_read_from_its_put(
    sealed: SealedPutModel,
    transition: Result<ImtCursorTransition, String>,
)
    ensures
        cursor_binding(sealed, transition) is Ok <==> sealed.physical_table is ImtNextAppendIndex
            && sealed.key is ImtCursor && sealed.operation is PutStructured
            && sealed.operation->PutStructured_schema is ImtCursorTransitionV1 && transition is Ok,
        cursor_binding(sealed, transition) matches Ok(cursor) ==> {
            &&& sealed.key == (TypedTableKey::<Seq<u8>>::ImtCursor {
                tree: cursor.before.tree,
                tree_sub: cursor.before.tree_sub,
            })
            &&& cursor.after.tree == cursor.before.tree
            &&& cursor.after.tree_sub == cursor.before.tree_sub
            &&& cursor.before.next_append_index == transition->Ok_0.before
            &&& cursor.after.next_append_index == transition->Ok_0.after
            &&& cursor.transition == transition->Ok_0
            &&& cursor.write_timestamp_us == sealed.timestamp_us
        },
        match cursor_move(sealed, transition) {
            Ok((tree, tree_sub, read)) => sealed.key == (TypedTableKey::<Seq<u8>>::ImtCursor {
                tree,
                tree_sub,
            }) && transition == Ok::<_, String>(read),
            Err(error) => !(sealed.key is ImtCursor) || !(sealed.operation is PutStructured)
                || !(sealed.operation->PutStructured_schema is ImtCursorTransitionV1) || transition
                is Err,
        },
{
}

/// A leaf makes a row of the key index exactly if its key is new or its key and its value
/// are zero in every byte.
pub proof fn law_new_keys_are_indexed(leaf: ImtLeafPutBinding)
    ensures
        leaf.spec_creates_index() <==> leaf.is_new_key || forall|i: int|
            0 <= i < 32 ==> #[trigger] leaf.leaf_key@[i] == 0 && leaf.leaf_value@[i] == 0,
{
    if bytes::zero_digest(leaf.leaf_key) && bytes::zero_digest(leaf.leaf_value) {
        assert forall|i: int| 0 <= i < 32 implies #[trigger] leaf.leaf_key@[i] == 0
            && leaf.leaf_value@[i] == 0 by {}
    }
    if forall|i: int|
        0 <= i < 32 ==> #[trigger] leaf.leaf_key@[i] == 0 && leaf.leaf_value@[i] == 0 {
        assert forall|i: int| 0 <= i < 32 implies leaf.leaf_value@[i] == 0 by {
            assert(leaf.leaf_key@[i] == 0);
        }
        assert(bytes::zero_digest(leaf.leaf_key));
        assert(bytes::zero_digest(leaf.leaf_value));
    }
}

/// What a statement binds to name a row: a leaf by its tree, number and checkpoint, an
/// index row by its tree, its partition and its encoded key, a cursor by its tree, each in
/// this order, and the cursor with its place and the timestamp behind that.
pub proof fn law_rows_are_named_by_their_keys(
    leaf: ImtLeafPutBinding,
    index: ImtIndexPutBinding,
    snapshot: ImtCursorSnapshot,
    timestamp: i64,
)
    requires
        leaf.tree <= i64::MAX,
        leaf.tree_sub <= i64::MAX,
        leaf.leaf <= i64::MAX,
        leaf.checkpoint.value <= i64::MAX,
        index.tree <= i64::MAX,
        index.tree_sub <= i64::MAX,
        snapshot.tree <= i64::MAX,
        snapshot.tree_sub <= i64::MAX,
        snapshot.next_append_index <= i64::MAX,
    ensures
        leaf.spec_key_values() =~= seq![
            PrototypeBindValue::BigInt(leaf.tree as i64),
            PrototypeBindValue::BigInt(leaf.tree_sub as i64),
            PrototypeBindValue::BigInt(leaf.leaf as i64),
            PrototypeBindValue::BigInt(leaf.checkpoint.value as i64),
        ],
        index.spec_key_values().len() == 4,
        index.spec_key_values()[0] == PrototypeBindValue::<Seq<u8>>::BigInt(index.tree as i64),
        index.spec_key_values()[1] == PrototypeBindValue::<Seq<u8>>::BigInt(index.tree_sub as i64),
        index.spec_key_values()[2] is SmallInt,
        index.spec_key_values()[3] == PrototypeBindValue::Blob(index.encoded_key.bytes@),
        cursor_values(snapshot, timestamp) =~= seq![
            PrototypeBindValue::BigInt(snapshot.tree as i64),
            PrototypeBindValue::BigInt(snapshot.tree_sub as i64),
            PrototypeBindValue::BigInt(snapshot.next_append_index as i64),
            PrototypeBindValue::BigInt(timestamp),
        ],
{
}

/// The partition of an index row is the number in the first two bytes of its encoded key,
/// with a sign.
pub proof fn law_partition_is_the_front_of_the_key(index: ImtIndexPutBinding)
    ensures
        ({
            let key = index.encoded_key.bytes@;
            let number = key[0] * 256 + key[1];
            index.spec_key_values()[2] matches PrototypeBindValue::SmallInt(bucket) && bucket == (
            if number < 0x8000 {
                number
            } else {
                number - 0x1_0000
            })
        }),
{
    let key = index.encoded_key.bytes@;
    let front = key.subrange(0, 2);
    assert(front.drop_last() =~= seq![key[0]]);
    assert(front.drop_last().drop_last() =~= Seq::<u8>::empty());
    reveal_with_fuel(bytes::be_value, 3);
}

/// What a write derives is kept under the key of its own row: an index row with its leaf
/// key, birth and leaf, a cursor with its move.
pub proof fn law_derived_rows_are_kept_under_their_keys(
    index: ImtIndexPutBinding,
    cursor: ImtCursorPutBinding,
)
    ensures
        index.spec_supplement().key == (TypedTableKey::<Seq<u8>>::ImtKeyIndex {
            tree: index.tree,
            tree_sub: index.tree_sub,
            encoded_key: index.encoded_key,
        }),
        index.spec_supplement().value matches ImtDerivedValue::IndexRow(row) && row.leaf_key
            == index.leaf_key && row.birth_checkpoint == index.birth_checkpoint && row.leaf_index
            == index.leaf,
        cursor.spec_supplement().key == (TypedTableKey::<Seq<u8>>::ImtCursor {
            tree: cursor.after.tree,
            tree_sub: cursor.after.tree_sub,
        }),
        cursor.spec_supplement().value == ImtDerivedValue::CursorTransition(cursor.transition),
{
}

/// Where the columns of a leaf stand in its value: the hash, the key, the value and the
/// next key, then the number of the next leaf.
pub proof fn law_leaf_value_layout(leaf: ImtLeafPutBinding)
    ensures
        ({
            let value = leaf.spec_physical_value();
            &&& value.len() == 136
            &&& value.subrange(0, 32) == leaf.leaf_hash@
            &&& value.subrange(32, 64) == leaf.leaf_key@
            &&& value.subrange(64, 96) == leaf.leaf_value@
            &&& value.subrange(96, 128) == leaf.next_key@
            &&& bytes::u64_at(value, 128) == leaf.next_index
        }),
{
    bytes::lemma_be_lens();
    let value = leaf.spec_physical_value();
    assert(value.subrange(0, 32) =~= leaf.leaf_hash@);
    assert(value.subrange(32, 64) =~= leaf.leaf_key@);
    assert(value.subrange(64, 96) =~= leaf.leaf_value@);
    assert(value.subrange(96, 128) =~= leaf.next_key@);
    assert(value.subrange(128, 136) =~= bytes::be64(leaf.next_index));
    bytes::lemma_write_then_read(value, 128);
}

/// The columns of a row have one write time exactly if there is a column and every column
/// was written at that time.
pub proof fn law_row_has_one_write_time(writetimes: Seq<Option<i64>>, family: Seq<char>)
    ensures
        same_writetime(writetimes, family) is Ok <==> writetimes.len() > 0 && writetimes[0] is Some
            && forall|i: int|
            0 <= i < writetimes.len() ==> #[trigger] writetimes[i] == writetimes[0],
        same_writetime(writetimes, family) matches Ok(time) ==> forall|i: int|
            0 <= i < writetimes.len() ==> #[trigger] writetimes[i] == Some(time),
{
}

/// A stored index row is read exactly if its key is as long as a key, its birth is not
/// negative and its columns have one write time. It is read as its columns hold it.
pub proof fn law_stored_index_row_reads_back(
    leaf_key: Seq<u8>,
    birth_checkpoint: i64,
    leaf_index: i64,
    writetimes: Seq<Option<i64>>,
)
    ensures
        ({
            let read = stored_index_row(leaf_key, birth_checkpoint, leaf_index, writetimes);
            &&& read is Ok <==> leaf_key.len() == 32 && birth_checkpoint >= 0 && same_writetime(
                writetimes,
                "IMT index"@,
            ) is Ok
            &&& read matches Ok((row, writetime)) ==> {
                &&& row.leaf_key@ == leaf_key
                &&& row.birth_checkpoint.value == birth_checkpoint
                &&& leaf_index >= 0 ==> row.leaf_index == leaf_index
                &&& bytes::bits_i64(row.leaf_index) == leaf_index
                &&& writetimes[0] == Some(writetime)
            }
        }),
{
    if leaf_key.len() == 32 {
        bytes::lemma_array_exists(leaf_key);
    }
}

/// What the deletion of a range of versions is planned as.
pub open spec fn range_deletion(
    tree: u64,
    tree_sub: u64,
    leaf: u64,
    target: CheckpointId,
    old_head: CheckpointId,
    fence_us: i64,
    registry: &Registry,
    result: Result<ImtLeafBoundedRangeDeletePlan, ImtPlanError>,
) -> bool {
    if target.value >= old_head.value {
        result == Err::<ImtLeafBoundedRangeDeletePlan, ImtPlanError>(ImtPlanError::InvalidRange { target, old_head })
    } else {
        match readiness_refusal(
            registry,
            TypedTableKey::ImtLeaf { tree, tree_sub, leaf, checkpoint: target },
        ) {
            Some(error) => result == Err::<ImtLeafBoundedRangeDeletePlan, ImtPlanError>(error),
            None => result == Ok::<ImtLeafBoundedRangeDeletePlan, ImtPlanError>(
                ImtLeafBoundedRangeDeletePlan {
                    tree,
                    tree_sub,
                    leaf,
                    target,
                    old_head,
                    fence_us,
                },
            ),
        }
    }
}

/// What the deletion of one version of a leaf is planned as.
pub open spec fn leaf_deletion(
    leaf: ImtLeafPutBinding,
    target: CheckpointId,
    fence_us: i64,
    result: Result<ImtLeafPointDeletePlan, ImtPlanError>,
) -> bool {
    match orphan_refusal(leaf.checkpoint, target, leaf.write_timestamp_us, fence_us) {
        Some(error) => result == Err::<ImtLeafPointDeletePlan, ImtPlanError>(error),
        None => result == Ok::<ImtLeafPointDeletePlan, ImtPlanError>(
            ImtLeafPointDeletePlan { leaf: leaf, target, fence_us },
        ),
    }
}

/// What the deletion of an index row is planned as.
pub open spec fn index_deletion(
    index: ImtIndexPutBinding,
    target: CheckpointId,
    fence_us: i64,
    result: Result<ImtIndexPointDeletePlan, ImtPlanError>,
) -> bool {
    match orphan_refusal(
        index.birth_checkpoint,
        target,
        index.write_timestamp_us,
        fence_us,
    ) {
        Some(error) => result == Err::<ImtIndexPointDeletePlan, ImtPlanError>(error),
        None => result == Ok::<ImtIndexPointDeletePlan, ImtPlanError>(
            ImtIndexPointDeletePlan { index: index, target, fence_us },
        ),
    }
}

/// What the restore of a cursor is planned as.
pub open spec fn cursor_restore(
    target_checkpoint: CheckpointId,
    target: ImtCursorSnapshot,
    write_timestamp_us: i64,
    registry: &Registry,
    result: Result<ImtCursorRestorePlan, ImtPlanError>,
) -> bool {
    match readiness_refusal(
        registry,
        TypedTableKey::ImtCursor { tree: target.tree, tree_sub: target.tree_sub },
    ) {
        Some(error) => result == Err::<ImtCursorRestorePlan, ImtPlanError>(error),
        None => result == Ok::<ImtCursorRestorePlan, ImtPlanError>(
            ImtCursorRestorePlan { target_checkpoint, target, write_timestamp_us },
        ),
    }
}

/// Only what was born behind the target is deleted, and only at a fence later than its
/// write: a version of a leaf, an index row, or the versions of a leaf behind the target up
/// to the old head, which is later than the target. A plan names exactly what was asked
/// for.
pub proof fn law_deletions_spare_the_target(
    leaf: ImtLeafPutBinding,
    index: ImtIndexPutBinding,
    target: CheckpointId,
    old_head: CheckpointId,
    fence_us: i64,
    registry: &Registry,
    version: Result<ImtLeafPointDeletePlan, ImtPlanError>,
    row: Result<ImtIndexPointDeletePlan, ImtPlanError>,
    range: Result<ImtLeafBoundedRangeDeletePlan, ImtPlanError>,
)
    requires
        leaf_deletion(leaf, target, fence_us, version),
        index_deletion(index, target, fence_us, row),
        range_deletion(
            leaf.tree,
            leaf.tree_sub,
            leaf.leaf,
            target,
            old_head,
            fence_us,
            registry,
            range,
        ),
    ensures
        version is Ok <==> leaf.checkpoint.value > target.value && fence_us
            > leaf.write_timestamp_us,
        version matches Ok(plan) ==> plan.leaf == leaf && plan.target == target && plan.fence_us
            == fence_us,
        row is Ok <==> index.birth_checkpoint.value > target.value && fence_us
            > index.write_timestamp_us,
        row matches Ok(plan) ==> plan.index == index && plan.target == target && plan.fence_us
            == fence_us,
        range matches Ok(plan) ==> plan.target == target && plan.old_head == old_head
            && plan.target.value < plan.old_head.value && plan.tree == leaf.tree && plan.tree_sub
            == leaf.tree_sub && plan.leaf == leaf.leaf && plan.fence_us == fence_us,
        target.value >= old_head.value ==> range is Err && range->Err_0 is InvalidRange,
{
}

/// A cursor is put back exactly to where it stood at the target.
pub proof fn law_cursor_is_restored_to_the_target(
    target_checkpoint: CheckpointId,
    target: ImtCursorSnapshot,
    write_timestamp_us: i64,
    registry: &Registry,
    result: Result<ImtCursorRestorePlan, ImtPlanError>,
)
    requires
        cursor_restore(target_checkpoint, target, write_timestamp_us, registry, result),
    ensures
        result matches Ok(plan) ==> plan.target == target && plan.target_checkpoint
            == target_checkpoint && plan.write_timestamp_us == write_timestamp_us
            && key::rollback_key(
            registry,
            TypedTableKey::ImtCursor { tree: target.tree, tree_sub: target.tree_sub },
        ) is Ok,
        key::rollback_key(
            registry,
            TypedTableKey::ImtCursor { tree: target.tree, tree_sub: target.tree_sub },
        ) is Ok ==> result is Ok,
{
}

} // verus!
