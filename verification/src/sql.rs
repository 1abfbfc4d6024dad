//! What the statements of the queries mean, as SQL has it.
//!
//! Nothing here runs: statements are described by their parts, by how these are spelled, and by
//! what running them does to the rows of the tables.

use vstd::prelude::*;

use crate::db;
use crate::db::{BindView, ManifestRowView, QueryView, UploadRowView};
use crate::order;
use crate::world;
use crate::world::{Services, World};

verus! {

/// The tables.
pub enum Table {
    Tags,
    Manifests,
    Uploads,
}

/// Their columns, but for the time at which a row was created.
pub enum Column {
    Repo,
    Tag,
    Digest,
    ContentType,
    Size,
    Uuid,
    Offset,
}

/// What becomes of a new row where there is one with the same primary key.
pub enum OnConflict {
    /// The statement fails.
    Fail,
    /// The new row takes the place of the old one.
    Replace,
    /// The old row stays, and the new one is dropped.
    Ignore,
}

/// A value of a new row.
pub enum Slot {
    /// The next bound value.
    Bound,
    /// Zero.
    Zero,
}

/// A statement.
pub enum Statement {
    /// The columns of the rows that have the bound values in some columns.
    Select {
        distinct: bool,
        columns: Seq<Column>,
        table: Table,
        having: Seq<Column>,
        ordered_by: Option<Column>,
    },
    /// A new row.
    Insert { on_conflict: OnConflict, table: Table, columns: Seq<Column>, slots: Seq<Slot> },
    /// Another value in a column of the rows that have the bound values in some columns.
    Update { table: Table, column: Column, having: Seq<Column> },
    /// No more rows that have the bound values in some columns.
    Delete { table: Table, having: Seq<Column> },
}

// ---- How statements are spelled ----

/// The name of a table.
pub open spec fn table_name(table: Table) -> Seq<char> {
    match table {
        Table::Tags => "tags"@,
        Table::Manifests => "manifests"@,
        Table::Uploads => "uploads"@,
    }
}

/// The name of a column.
pub open spec fn column_name(column: Column) -> Seq<char> {
    match column {
        Column::Repo => "repo"@,
        Column::Tag => "tag"@,
        Column::Digest => "digest"@,
        Column::ContentType => "content_type"@,
        Column::Size => "size"@,
        Column::Uuid => "uuid"@,
        Column::Offset => "offset"@,
    }
}

/// Columns with commas between them.
pub open spec fn columns_text(columns: Seq<Column>) -> Seq<char>
    decreases columns.len(),
{
    if columns.len() == 0 {
        Seq::empty()
    } else if columns.len() == 1 {
        column_name(columns[0])
    } else {
        columns_text(columns.drop_last()) + ", "@ + column_name(columns.last())
    }
}

/// A value of a new row.
pub open spec fn slot_text(slot: Slot) -> Seq<char> {
    match slot {
        Slot::Bound => "?"@,
        Slot::Zero => "0"@,
    }
}

/// Values of a new row with commas between them.
pub open spec fn slots_text(slots: Seq<Slot>) -> Seq<char>
    decreases slots.len(),
{
    if slots.len() == 0 {
        Seq::empty()
    } else if slots.len() == 1 {
        slot_text(slots[0])
    } else {
        slots_text(slots.drop_last()) + ", "@ + slot_text(slots.last())
    }
}

/// A test for bound values in columns.
pub open spec fn having_text(columns: Seq<Column>) -> Seq<char>
    decreases columns.len(),
{
    if columns.len() == 0 {
        Seq::empty()
    } else if columns.len() == 1 {
        column_name(columns[0]) + " = ?"@
    } else {
        having_text(columns.drop_last()) + " AND "@ + column_name(columns.last()) + " = ?"@
    }
}

/// A statement as it is spelled.
pub open spec fn spelled(statement: Statement) -> Seq<char> {
    match statement {
        Statement::Select { distinct, columns, table, having, ordered_by } => "SELECT "@ + (
        if distinct {
            "DISTINCT "@
        } else {
            Seq::empty()
        }) + columns_text(columns) + " FROM "@ + table_name(table) + (if having.len() > 0 {
            " WHERE "@ + having_text(having)
        } else {
            Seq::empty()
        }) + (match ordered_by {
            Some(column) => " ORDER BY "@ + column_name(column),
            None => Seq::empty(),
        }),
        Statement::Insert { on_conflict, table, columns, slots } => "INSERT "@ + (
        match on_conflict {
            OnConflict::Fail => Seq::empty(),
            OnConflict::Replace => "OR REPLACE "@,
            OnConflict::Ignore => "OR IGNORE "@,
        }) + "INTO "@ + table_name(table) + " ("@ + columns_text(columns) + ") VALUES ("@
            + slots_text(slots) + ")"@,
        Statement::Update { table, column, having } => "UPDATE "@ + table_name(table) + " SET "@
            + column_name(column) + " = ? WHERE "@ + having_text(having),
        Statement::Delete { table, having } => "DELETE FROM "@ + table_name(table) + " WHERE "@
            + having_text(having),
    }
}

// ---- What statements do ----

/// A row: the value in each of its columns.
pub type Row = Map<Column, BindView>;

/// The rows of the tables.
#[verifier::ext_equal]
pub struct Tables {
    pub tags: Set<Row>,
    pub manifests: Set<Row>,
    pub uploads: Set<Row>,
}

/// The rows of a table.
pub open spec fn rows(tables: Tables, table: Table) -> Set<Row> {
    match table {
        Table::Tags => tables.tags,
        Table::Manifests => tables.manifests,
        Table::Uploads => tables.uploads,
    }
}

/// The tables, with other rows in one of them.
pub open spec fn with_rows(tables: Tables, table: Table, rows: Set<Row>) -> Tables {
    match table {
        Table::Tags => Tables { tags: rows, ..tables },
        Table::Manifests => Tables { manifests: rows, ..tables },
        Table::Uploads => Tables { uploads: rows, ..tables },
    }
}

/// The primary key of a table.
pub open spec fn key_of(table: Table) -> Seq<Column> {
    match table {
        Table::Tags => seq![Column::Repo, Column::Tag],
        Table::Manifests => seq![Column::Repo, Column::Digest],
        Table::Uploads => seq![Column::Uuid],
    }
}

/// Whether a row has the bound values, from one of them on, in some columns.
pub open spec fn fits(row: Row, columns: Seq<Column>, binds: Seq<BindView>, from: int) -> bool {
    forall|k: int| 0 <= k < columns.len() ==> row[#[trigger] columns[k]] == binds[from + k]
}

/// Whether two rows have the same primary key.
pub open spec fn same_key(table: Table, one: Row, other: Row) -> bool {
    forall|k: int|
        0 <= k < key_of(table).len() ==> one[#[trigger] key_of(table)[k]] == other[key_of(
            table,
        )[k]]
}

/// How many of the first values of a new row are bound ones.
pub open spec fn bound_before(slots: Seq<Slot>, k: int) -> int
    decreases k,
{
    if k <= 0 {
        0
    } else {
        bound_before(slots, k - 1) + if slots[k - 1] is Bound {
            1int
        } else {
            0int
        }
    }
}

/// A value of a new row.
pub open spec fn slot_value(slots: Seq<Slot>, binds: Seq<BindView>, k: int) -> BindView {
    match slots[k] {
        Slot::Bound => binds[bound_before(slots, k)],
        Slot::Zero => BindView::Integer(0),
    }
}

/// A new row: the values stand for the columns in the order of these.
pub open spec fn is_new_row(
    row: Row,
    columns: Seq<Column>,
    slots: Seq<Slot>,
    binds: Seq<BindView>,
) -> bool {
    &&& forall|column: Column| #[trigger] row.dom().contains(column) <==> columns.contains(column)
    &&& forall|k: int|
        0 <= k < columns.len() ==> row[#[trigger] columns[k]] == slot_value(slots, binds, k)
}

/// The tables after a statement; none where it fails.
pub open spec fn after(statement: Statement, binds: Seq<BindView>, tables: Tables) -> Option<
    Tables,
> {
    match statement {
        Statement::Select { .. } => Some(tables),
        Statement::Insert { on_conflict, table, columns, slots } => {
            let before = rows(tables, table);
            let row = choose|row: Row| is_new_row(row, columns, slots, binds);
            if exists|old: Row| #[trigger] before.contains(old) && same_key(table, old, row) {
                match on_conflict {
                    OnConflict::Fail => None,
                    OnConflict::Replace => Some(
                        with_rows(
                            tables,
                            table,
                            before.filter(|old: Row| !same_key(table, old, row)).insert(row),
                        ),
                    ),
                    OnConflict::Ignore => Some(tables),
                }
            } else {
                Some(with_rows(tables, table, before.insert(row)))
            }
        },
        Statement::Update { table, column, having } => Some(
            with_rows(
                tables,
                table,
                rows(tables, table).map(
                    |row: Row|
                        if fits(row, having, binds, 1) {
                            row.insert(column, binds[0])
                        } else {
                            row
                        },
                ),
            ),
        ),
        Statement::Delete { table, having } => Some(
            with_rows(
                tables,
                table,
                rows(tables, table).filter(|row: Row| !fits(row, having, binds, 0)),
            ),
        ),
    }
}

/// The values of a row in some columns.
pub open spec fn values(row: Row, columns: Seq<Column>) -> Seq<BindView> {
    Seq::new(columns.len(), |k: int| row[columns[k]])
}

/// The rows of a table that have the bound values in some columns.
pub open spec fn found_rows(
    tables: Tables,
    table: Table,
    having: Seq<Column>,
    binds: Seq<BindView>,
) -> Set<Row> {
    rows(tables, table).filter(|row: Row| fits(row, having, binds, 0))
}

/// The values of rows in some columns.
pub open spec fn entries(picked: Seq<Row>, columns: Seq<Column>) -> Seq<Seq<BindView>> {
    Seq::new(picked.len(), |i: int| values(picked[i], columns))
}

/// Whether a text in a column comes before another one.
pub open spec fn text_before(one: BindView, other: BindView) -> bool {
    one matches BindView::Text(a) && other matches BindView::Text(b) && order::before(a, b)
}

/// Whether a list has one entry for each row that is found, or, where they have to be distinct,
/// for each combination of values.
pub open spec fn holds(
    distinct: bool,
    columns: Seq<Column>,
    found: Set<Row>,
    list: Seq<Seq<BindView>>,
) -> bool {
    if distinct {
        &&& list.no_duplicates()
        &&& forall|entry: Seq<BindView>| #[trigger]
            list.contains(entry) <==> is_found(entry, columns, found)
    } else {
        exists|picked: Seq<Row>| #[trigger]
            picks(picked, found) && list == entries(picked, columns)
    }
}

/// Whether a row that is found has these values.
pub open spec fn is_found(entry: Seq<BindView>, columns: Seq<Column>, found: Set<Row>) -> bool {
    exists|row: Row| #[trigger] found.contains(row) && values(row, columns) == entry
}

/// Whether a list is sorted, where that is asked for, by its first column.
pub open spec fn sorted(
    ordered_by: Option<Column>,
    columns: Seq<Column>,
    list: Seq<Seq<BindView>>,
) -> bool {
    match ordered_by {
        Some(column) => {
            &&& columns.len() > 0
            &&& columns[0] == column
            &&& forall|i: int, j: int|
                0 <= i < j < list.len() ==> !text_before(
                    #[trigger] list[j][0],
                    #[trigger] list[i][0],
                )
        },
        None => true,
    }
}

/// Whether a list is what a statement selects.
pub open spec fn selects(
    statement: Statement,
    binds: Seq<BindView>,
    tables: Tables,
    list: Seq<Seq<BindView>>,
) -> bool {
    match statement {
        Statement::Select { distinct, columns, table, having, ordered_by } => {
            &&& holds(distinct, columns, found_rows(tables, table, having, binds), list)
            &&& sorted(ordered_by, columns, list)
        },
        _ => false,
    }
}

/// Whether a sequence holds exactly the rows of a set, each once.
pub open spec fn picks(picked: Seq<Row>, found: Set<Row>) -> bool {
    &&& picked.no_duplicates()
    &&& forall|row: Row| #[trigger] picked.contains(row) <==> found.contains(row)
}

// ---- The tables of a world ----

/// The row of a tag.
pub open spec fn tag_row(repo: Seq<char>, tag: Seq<char>, digest: Seq<char>) -> Row {
    map![
        Column::Repo => BindView::Text(repo),
        Column::Tag => BindView::Text(tag),
        Column::Digest => BindView::Text(digest),
    ]
}

/// The row of a manifest.
pub open spec fn manifest_row(
    repo: Seq<char>,
    digest: Seq<char>,
    content_type: Seq<char>,
    size: i64,
) -> Row {
    map![
        Column::Repo => BindView::Text(repo),
        Column::Digest => BindView::Text(digest),
        Column::ContentType => BindView::Text(content_type),
        Column::Size => BindView::Integer(size),
    ]
}

/// The row of an upload.
pub open spec fn upload_row(uuid: Seq<char>, repo: Seq<char>, offset: i64) -> Row {
    map![
        Column::Uuid => BindView::Text(uuid),
        Column::Repo => BindView::Text(repo),
        Column::Offset => BindView::Integer(offset),
    ]
}

/// The row of a tag of a world.
pub open spec fn row_of_tag(world: World, at: (Seq<char>, Seq<char>)) -> Row {
    tag_row(at.0, at.1, world.tags[at])
}

/// The row of a manifest of a world.
pub open spec fn row_of_manifest(world: World, at: (Seq<char>, Seq<char>)) -> Row {
    manifest_row(at.0, at.1, world.manifests[at].content_type, world.manifests[at].size)
}

/// The row of an upload of a world.
pub open spec fn row_of_upload(world: World, uuid: Seq<char>) -> Row {
    upload_row(uuid, world.uploads[uuid].repo, world.uploads[uuid].offset)
}

/// The rows of the tables of a world.
pub open spec fn tables_of(world: World) -> Tables {
    Tables {
        tags: Set::new(
            |row: Row|
                exists|at: (Seq<char>, Seq<char>)|
                    world.tags.dom().contains(at) && row == #[trigger] row_of_tag(world, at),
        ),
        manifests: Set::new(
            |row: Row|
                exists|at: (Seq<char>, Seq<char>)|
                    world.manifests.dom().contains(at) && row == #[trigger] row_of_manifest(
                        world,
                        at,
                    ),
        ),
        uploads: Set::new(
            |row: Row|
                exists|uuid: Seq<char>|
                    world.uploads.dom().contains(uuid) && row == #[trigger] row_of_upload(
                        world,
                        uuid,
                    ),
        ),
    }
}

/// Whether each manifest of a world is recorded under its own digest.
pub open spec fn keyed(world: World) -> bool {
    forall|at: (Seq<char>, Seq<char>)| #[trigger]
        world.manifests.dom().contains(at) ==> world.manifests[at].digest == at.1
}

// ---- The statements of the queries ----

/// The statement of a query.
pub open spec fn statement(query: QueryView) -> Statement {
    match query {
        QueryView::FindTag { .. } => Statement::Select {
            distinct: false,
            columns: seq![Column::Digest],
            table: Table::Tags,
            having: seq![Column::Repo, Column::Tag],
            ordered_by: None,
        },
        QueryView::FindManifest { .. } => Statement::Select {
            distinct: false,
            columns: seq![Column::Digest, Column::ContentType, Column::Size],
            table: Table::Manifests,
            having: seq![Column::Repo, Column::Digest],
            ordered_by: None,
        },
        QueryView::FindUpload { .. } => Statement::Select {
            distinct: false,
            columns: seq![Column::Repo, Column::Offset],
            table: Table::Uploads,
            having: seq![Column::Uuid],
            ordered_by: None,
        },
        QueryView::ListTags { .. } => Statement::Select {
            distinct: false,
            columns: seq![Column::Tag],
            table: Table::Tags,
            having: seq![Column::Repo],
            ordered_by: Some(Column::Tag),
        },
        QueryView::ListRepos => Statement::Select {
            distinct: true,
            columns: seq![Column::Repo],
            table: Table::Manifests,
            having: Seq::empty(),
            ordered_by: Some(Column::Repo),
        },
        QueryView::PutManifest { .. } => Statement::Insert {
            on_conflict: OnConflict::Replace,
            table: Table::Manifests,
            columns: seq![Column::Repo, Column::Digest, Column::ContentType, Column::Size],
            slots: seq![Slot::Bound, Slot::Bound, Slot::Bound, Slot::Bound],
        },
        QueryView::PutTag { .. } => Statement::Insert {
            on_conflict: OnConflict::Replace,
            table: Table::Tags,
            columns: seq![Column::Repo, Column::Tag, Column::Digest],
            slots: seq![Slot::Bound, Slot::Bound, Slot::Bound],
        },
        QueryView::DeleteManifest { .. } => Statement::Delete {
            table: Table::Manifests,
            having: seq![Column::Repo, Column::Digest],
        },
        QueryView::DeleteTagsOf { .. } => Statement::Delete {
            table: Table::Tags,
            having: seq![Column::Repo, Column::Digest],
        },
        QueryView::DeleteTag { .. } => Statement::Delete {
            table: Table::Tags,
            having: seq![Column::Repo, Column::Tag],
        },
        QueryView::CreateUpload { .. } => Statement::Insert {
            on_conflict: OnConflict::Fail,
            table: Table::Uploads,
            columns: seq![Column::Uuid, Column::Repo, Column::Offset],
            slots: seq![Slot::Bound, Slot::Bound, Slot::Zero],
        },
        QueryView::UpdateUpload { .. } => Statement::Update {
            table: Table::Uploads,
            column: Column::Offset,
            having: seq![Column::Uuid],
        },
        QueryView::DeleteUpload { .. } => Statement::Delete {
            table: Table::Uploads,
            having: seq![Column::Uuid],
        },
    }
}

proof fn lemma_one_column(a: Column)
    ensures
        columns_text(seq![a]) == column_name(a),
        having_text(seq![a]) == column_name(a) + " = ?"@,
{
}

proof fn lemma_two_columns(a: Column, b: Column)
    ensures
        columns_text(seq![a, b]) == column_name(a) + ", "@ + column_name(b),
        having_text(seq![a, b]) == column_name(a) + " = ?"@ + " AND "@ + column_name(b) + " = ?"@,
{
    lemma_one_column(a);
    assert(seq![a, b].drop_last() =~= seq![a]);
}

proof fn lemma_three_columns(a: Column, b: Column, c: Column)
    ensures
        columns_text(seq![a, b, c]) == column_name(a) + ", "@ + column_name(b) + ", "@
            + column_name(c),
{
    lemma_two_columns(a, b);
    assert(seq![a, b, c].drop_last() =~= seq![a, b]);
}

proof fn lemma_four_columns(a: Column, b: Column, c: Column, d: Column)
    ensures
        columns_text(seq![a, b, c, d]) == column_name(a) + ", "@ + column_name(b) + ", "@
            + column_name(c) + ", "@ + column_name(d),
{
    lemma_three_columns(a, b, c);
    assert(seq![a, b, c, d].drop_last() =~= seq![a, b, c]);
}

proof fn lemma_slots(a: Slot, b: Slot, c: Slot, d: Slot)
    ensures
        slots_text(seq![a, b, c]) == slot_text(a) + ", "@ + slot_text(b) + ", "@ + slot_text(c),
        slots_text(seq![a, b, c, d]) == slot_text(a) + ", "@ + slot_text(b) + ", "@ + slot_text(c)
            + ", "@ + slot_text(d),
{
    assert(seq![a, b, c, d].drop_last() =~= seq![a, b, c]);
    assert(seq![a, b, c].drop_last() =~= seq![a, b]);
    assert(seq![a, b].drop_last() =~= seq![a]);
    assert(slots_text(seq![a]) == slot_text(a));
    assert(slots_text(seq![a, b]) == slot_text(a) + ", "@ + slot_text(b));
    assert(slots_text(seq![a, b, c]) == slot_text(a) + ", "@ + slot_text(b) + ", "@ + slot_text(c));
}

/// The text of a query is that of its statement.
pub proof fn law_text_spells_statement(query: QueryView)
    ensures
        db::sql_spec(query) == spelled(statement(query)),
{
    match query {
        QueryView::FindTag { .. } => {
            lemma_one_column(Column::Digest);
            lemma_two_columns(Column::Repo, Column::Tag);
            reveal_strlit("SELECT ");
            reveal_strlit("digest");
            reveal_strlit(" FROM ");
            reveal_strlit("tags");
            reveal_strlit(" WHERE ");
            reveal_strlit("repo");
            reveal_strlit(" = ?");
            reveal_strlit(" AND ");
            reveal_strlit("tag");
            reveal_strlit("SELECT digest FROM tags WHERE repo = ? AND tag = ?");
            assert(db::sql_spec(query) =~= spelled(statement(query)));
        },
        QueryView::FindManifest { .. } => {
            lemma_three_columns(Column::Digest, Column::ContentType, Column::Size);
            lemma_two_columns(Column::Repo, Column::Digest);
            reveal_strlit("SELECT ");
            reveal_strlit("digest");
            reveal_strlit("content_type");
            reveal_strlit("size");
            reveal_strlit(", ");
            reveal_strlit(" FROM ");
            reveal_strlit("manifests");
            reveal_strlit(" WHERE ");
            reveal_strlit("repo");
            reveal_strlit(" = ?");
            reveal_strlit(" AND ");
            reveal_strlit(
                "SELECT digest, content_type, size FROM manifests WHERE repo = ? AND digest = ?",
            );
            assert(db::sql_spec(query) =~= spelled(statement(query)));
        },
        QueryView::FindUpload { .. } => {
            lemma_two_columns(Column::Repo, Column::Offset);
            lemma_one_column(Column::Uuid);
            reveal_strlit("SELECT ");
            reveal_strlit("repo");
            reveal_strlit("offset");
            reveal_strlit(", ");
            reveal_strlit(" FROM ");
            reveal_strlit("uploads");
            reveal_strlit(" WHERE ");
            reveal_strlit("uuid");
            reveal_strlit(" = ?");
            reveal_strlit("SELECT repo, offset FROM uploads WHERE uuid = ?");
            assert(db::sql_spec(query) =~= spelled(statement(query)));
        },
        QueryView::ListTags { .. } => {
            lemma_one_column(Column::Tag);
            lemma_one_column(Column::Repo);
            reveal_strlit("SELECT ");
            reveal_strlit("tag");
            reveal_strlit(" FROM ");
            reveal_strlit("tags");
            reveal_strlit(" WHERE ");
            reveal_strlit("repo");
            reveal_strlit(" = ?");
            reveal_strlit(" ORDER BY ");
            reveal_strlit("SELECT tag FROM tags WHERE repo = ? ORDER BY tag");
            assert(db::sql_spec(query) =~= spelled(statement(query)));
        },
        QueryView::ListRepos => {
            lemma_one_column(Column::Repo);
            reveal_strlit("SELECT ");
            reveal_strlit("DISTINCT ");
            reveal_strlit("repo");
            reveal_strlit(" FROM ");
            reveal_strlit("manifests");
            reveal_strlit(" ORDER BY ");
            reveal_strlit("SELECT DISTINCT repo FROM manifests ORDER BY repo");
            assert(db::sql_spec(query) =~= spelled(statement(query)));
        },
        QueryView::PutManifest { .. } => {
            lemma_four_columns(Column::Repo, Column::Digest, Column::ContentType, Column::Size);
            lemma_slots(Slot::Bound, Slot::Bound, Slot::Bound, Slot::Bound);
            reveal_strlit("INSERT ");
            reveal_strlit("OR REPLACE ");
            reveal_strlit("INTO ");
            reveal_strlit("manifests");
            reveal_strlit(" (");
            reveal_strlit("repo");
            reveal_strlit("digest");
            reveal_strlit("content_type");
            reveal_strlit("size");
            reveal_strlit(", ");
            reveal_strlit(") VALUES (");
            reveal_strlit("?");
            reveal_strlit(")");
            reveal_strlit(
                "INSERT OR REPLACE INTO manifests (repo, digest, content_type, size) VALUES (?, ?, ?, ?)",
            );
            assert(db::sql_spec(query) =~= spelled(statement(query)));
        },
        QueryView::PutTag { .. } => {
            lemma_three_columns(Column::Repo, Column::Tag, Column::Digest);
            lemma_slots(Slot::Bound, Slot::Bound, Slot::Bound, Slot::Bound);
            reveal_strlit("INSERT ");
            reveal_strlit("OR REPLACE ");
            reveal_strlit("INTO ");
            reveal_strlit("tags");
            reveal_strlit(" (");
            reveal_strlit("repo");
            reveal_strlit("tag");
            reveal_strlit("digest");
            reveal_strlit(", ");
            reveal_strlit(") VALUES (");
            reveal_strlit("?");
            reveal_strlit(")");
            reveal_strlit("INSERT OR REPLACE INTO tags (repo, tag, digest) VALUES (?, ?, ?)");
            assert(db::sql_spec(query) =~= spelled(statement(query)));
        },
        QueryView::DeleteManifest { .. } => {
            lemma_two_columns(Column::Repo, Column::Digest);
            reveal_strlit("DELETE FROM ");
            reveal_strlit("manifests");
            reveal_strlit(" WHERE ");
            reveal_strlit("repo");
            reveal_strlit("digest");
            reveal_strlit(" = ?");
            reveal_strlit(" AND ");
            reveal_strlit("DELETE FROM manifests WHERE repo = ? AND digest = ?");
            assert(db::sql_spec(query) =~= spelled(statement(query)));
        },
        QueryView::DeleteTagsOf { .. } => {
            lemma_two_columns(Column::Repo, Column::Digest);
            reveal_strlit("DELETE FROM ");
            reveal_strlit("tags");
            reveal_strlit(" WHERE ");
            reveal_strlit("repo");
            reveal_strlit("digest");
            reveal_strlit(" = ?");
            reveal_strlit(" AND ");
            reveal_strlit("DELETE FROM tags WHERE repo = ? AND digest = ?");
            assert(db::sql_spec(query) =~= spelled(statement(query)));
        },
        QueryView::DeleteTag { .. } => {
            lemma_two_columns(Column::Repo, Column::Tag);
            reveal_strlit("DELETE FROM ");
            reveal_strlit("tags");
            reveal_strlit(" WHERE ");
            reveal_strlit("repo");
            reveal_strlit("tag");
            reveal_strlit(" = ?");
            reveal_strlit(" AND ");
            reveal_strlit("DELETE FROM tags WHERE repo = ? AND tag = ?");
            assert(db::sql_spec(query) =~= spelled(statement(query)));
        },
        QueryView::CreateUpload { .. } => {
            lemma_three_columns(Column::Uuid, Column::Repo, Column::Offset);
            lemma_slots(Slot::Bound, Slot::Bound, Slot::Zero, Slot::Zero);
            reveal_strlit("INSERT ");
            reveal_strlit("INTO ");
            reveal_strlit("uploads");
            reveal_strlit(" (");
            reveal_strlit("uuid");
            reveal_strlit("repo");
            reveal_strlit("offset");
            reveal_strlit(", ");
            reveal_strlit(") VALUES (");
            reveal_strlit("?");
            reveal_strlit("0");
            reveal_strlit(")");
            reveal_strlit("INSERT INTO uploads (uuid, repo, offset) VALUES (?, ?, 0)");
            assert(db::sql_spec(query) =~= spelled(statement(query)));
        },
        QueryView::UpdateUpload { .. } => {
            lemma_one_column(Column::Uuid);
            reveal_strlit("UPDATE ");
            reveal_strlit("uploads");
            reveal_strlit(" SET ");
            reveal_strlit("offset");
            reveal_strlit(" = ? WHERE ");
            reveal_strlit("uuid");
            reveal_strlit(" = ?");
            reveal_strlit("UPDATE uploads SET offset = ? WHERE uuid = ?");
            assert(db::sql_spec(query) =~= spelled(statement(query)));
        },
        QueryView::DeleteUpload { .. } => {
            lemma_one_column(Column::Uuid);
            reveal_strlit("DELETE FROM ");
            reveal_strlit("uploads");
            reveal_strlit(" WHERE ");
            reveal_strlit("uuid");
            reveal_strlit(" = ?");
            reveal_strlit("DELETE FROM uploads WHERE uuid = ?");
            assert(db::sql_spec(query) =~= spelled(statement(query)));
        },
    }
}

proof fn lemma_tag_key(one: Row, other: Row)
    ensures
        same_key(Table::Tags, one, other) <==> one[Column::Repo] == other[Column::Repo]
            && one[Column::Tag] == other[Column::Tag],
{
    let key = key_of(Table::Tags);
    assert(key[0] == Column::Repo && key[1] == Column::Tag);
}

proof fn lemma_manifest_key(one: Row, other: Row)
    ensures
        same_key(Table::Manifests, one, other) <==> one[Column::Repo] == other[Column::Repo]
            && one[Column::Digest] == other[Column::Digest],
{
    let key = key_of(Table::Manifests);
    assert(key[0] == Column::Repo && key[1] == Column::Digest);
}

proof fn lemma_upload_key(one: Row, other: Row)
    ensures
        same_key(Table::Uploads, one, other) <==> one[Column::Uuid] == other[Column::Uuid],
{
    let key = key_of(Table::Uploads);
    assert(key[0] == Column::Uuid);
}

proof fn lemma_fits_one(row: Row, a: Column, binds: Seq<BindView>, from: int)
    ensures
        fits(row, seq![a], binds, from) <==> row[a] == binds[from],
{
    assert(seq![a][0] == a);
}

proof fn lemma_fits_two(row: Row, a: Column, b: Column, binds: Seq<BindView>)
    ensures
        fits(row, seq![a, b], binds, 0) <==> row[a] == binds[0] && row[b] == binds[1],
{
    assert(seq![a, b][0] == a && seq![a, b][1] == b);
}

/// The row that a statement inserts for a tag.
proof fn lemma_new_tag(repo: Seq<char>, tag: Seq<char>, digest: Seq<char>, row: Row)
    ensures
        ({
            let columns = seq![Column::Repo, Column::Tag, Column::Digest];
            let slots = seq![Slot::Bound, Slot::Bound, Slot::Bound];
            let binds = seq![
                BindView::Text(repo),
                BindView::Text(tag),
                BindView::Text(digest),
            ];
            is_new_row(row, columns, slots, binds) <==> row == tag_row(repo, tag, digest)
        }),
{
    reveal_with_fuel(bound_before, 4);
    let columns = seq![Column::Repo, Column::Tag, Column::Digest];
    let slots = seq![Slot::Bound, Slot::Bound, Slot::Bound];
    let binds = seq![BindView::Text(repo), BindView::Text(tag), BindView::Text(digest)];
    assert(columns[0] == Column::Repo && columns[1] == Column::Tag && columns[2]
        == Column::Digest);
    assert(slot_value(slots, binds, 0) == binds[0]);
    assert(slot_value(slots, binds, 1) == binds[1]);
    assert(slot_value(slots, binds, 2) == binds[2]);
    assert(columns.contains(columns[0]) && columns.contains(columns[1]) && columns.contains(
        columns[2],
    ));
    if is_new_row(row, columns, slots, binds) {
        assert(row[columns[0]] == binds[0]);
        assert(row[columns[1]] == binds[1]);
        assert(row[columns[2]] == binds[2]);
        assert(row =~= tag_row(repo, tag, digest));
    }
}

/// The row that a statement inserts for a manifest.
proof fn lemma_new_manifest(
    repo: Seq<char>,
    digest: Seq<char>,
    content_type: Seq<char>,
    size: i64,
    row: Row,
)
    ensures
        ({
            let columns = seq![Column::Repo, Column::Digest, Column::ContentType, Column::Size];
            let slots = seq![Slot::Bound, Slot::Bound, Slot::Bound, Slot::Bound];
            let binds = seq![
                BindView::Text(repo),
                BindView::Text(digest),
                BindView::Text(content_type),
                BindView::Integer(size),
            ];
            is_new_row(row, columns, slots, binds) <==> row == manifest_row(
                repo,
                digest,
                content_type,
                size,
            )
        }),
{
    reveal_with_fuel(bound_before, 5);
    let columns = seq![Column::Repo, Column::Digest, Column::ContentType, Column::Size];
    let slots = seq![Slot::Bound, Slot::Bound, Slot::Bound, Slot::Bound];
    let binds = seq![
        BindView::Text(repo),
        BindView::Text(digest),
        BindView::Text(content_type),
        BindView::Integer(size),
    ];
    assert(columns[0] == Column::Repo && columns[1] == Column::Digest && columns[2]
        == Column::ContentType && columns[3] == Column::Size);
    assert(slot_value(slots, binds, 0) == binds[0]);
    assert(slot_value(slots, binds, 1) == binds[1]);
    assert(slot_value(slots, binds, 2) == binds[2]);
    assert(slot_value(slots, binds, 3) == binds[3]);
    assert(columns.contains(columns[0]) && columns.contains(columns[1]) && columns.contains(
        columns[2],
    ) && columns.contains(columns[3]));
    if is_new_row(row, columns, slots, binds) {
        assert(row[columns[0]] == binds[0]);
        assert(row[columns[1]] == binds[1]);
        assert(row[columns[2]] == binds[2]);
        assert(row[columns[3]] == binds[3]);
        assert(row =~= manifest_row(repo, digest, content_type, size));
    }
}

/// The row that a statement inserts for an upload.
proof fn lemma_new_upload(uuid: Seq<char>, repo: Seq<char>, row: Row)
    ensures
        ({
            let columns = seq![Column::Uuid, Column::Repo, Column::Offset];
            let slots = seq![Slot::Bound, Slot::Bound, Slot::Zero];
            let binds = seq![BindView::Text(uuid), BindView::Text(repo)];
            is_new_row(row, columns, slots, binds) <==> row == upload_row(uuid, repo, 0)
        }),
{
    reveal_with_fuel(bound_before, 4);
    let columns = seq![Column::Uuid, Column::Repo, Column::Offset];
    let slots = seq![Slot::Bound, Slot::Bound, Slot::Zero];
    let binds = seq![BindView::Text(uuid), BindView::Text(repo)];
    assert(columns[0] == Column::Uuid && columns[1] == Column::Repo && columns[2]
        == Column::Offset);
    assert(slot_value(slots, binds, 0) == binds[0]);
    assert(slot_value(slots, binds, 1) == binds[1]);
    assert(slot_value(slots, binds, 2) == BindView::Integer(0));
    assert(columns.contains(columns[0]) && columns.contains(columns[1]) && columns.contains(
        columns[2],
    ));
    if is_new_row(row, columns, slots, binds) {
        assert(row[columns[0]] == binds[0]);
        assert(row[columns[1]] == binds[1]);
        assert(row[columns[2]] == BindView::Integer(0));
        assert(row =~= upload_row(uuid, repo, 0));
    }
}

proof fn lemma_put_tag(world: World, repo: Seq<char>, tag: Seq<char>, digest: Seq<char>)
    ensures
        ({
            let query = QueryView::PutTag { repo, tag, digest };
            after(statement(query), db::binds_spec(query), tables_of(world)) == Some(
                tables_of(world::changed(world, query)),
            )
        }),
{
    let query = QueryView::PutTag { repo, tag, digest };
    let changed = world::changed(world, query);
    let before = tables_of(world).tags;
    let columns = seq![Column::Repo, Column::Tag, Column::Digest];
    let slots = seq![Slot::Bound, Slot::Bound, Slot::Bound];
    let binds = db::binds_spec(query);
    lemma_new_tag(repo, tag, digest, tag_row(repo, tag, digest));
    let row = choose|row: Row| is_new_row(row, columns, slots, binds);
    lemma_new_tag(repo, tag, digest, row);
    let kept = before.filter(|old: Row| !same_key(Table::Tags, old, row));
    assert forall|other: Row| #[trigger]
        tables_of(changed).tags.contains(other) <==> kept.insert(row).contains(other) by {
        lemma_tag_key(other, row);
        if tables_of(changed).tags.contains(other) {
            let at = choose|at: (Seq<char>, Seq<char>)|
                changed.tags.dom().contains(at) && other == #[trigger] row_of_tag(changed, at);
            if at != (repo, tag) {
                assert(other == row_of_tag(world, at));
            }
        }
        if kept.contains(other) {
            let at = choose|at: (Seq<char>, Seq<char>)|
                world.tags.dom().contains(at) && other == #[trigger] row_of_tag(world, at);
            assert(at != (repo, tag));
            assert(other == row_of_tag(changed, at));
        }
        if other == row {
            assert(other == row_of_tag(changed, (repo, tag)));
        }
    }
    assert(tables_of(changed).tags =~= kept.insert(row));
    if !(exists|old: Row| #[trigger] before.contains(old) && same_key(Table::Tags, old, row)) {
        assert(kept =~= before);
    }
    lemma_same_rest(world, changed);
    assert(tables_of(changed) =~= with_rows(tables_of(world), Table::Tags, kept.insert(row)));
}

/// Tables that did not change have the same rows.
proof fn lemma_same_rest(world: World, changed: World)
    ensures
        changed.tags == world.tags ==> tables_of(changed).tags == tables_of(world).tags,
        changed.manifests == world.manifests ==> tables_of(changed).manifests == tables_of(
            world,
        ).manifests,
        changed.uploads == world.uploads ==> tables_of(changed).uploads == tables_of(world).uploads,
{
    if changed.tags == world.tags {
        assert forall|row: Row| #[trigger]
            tables_of(changed).tags.contains(row) <==> tables_of(world).tags.contains(row) by {
            if tables_of(changed).tags.contains(row) {
                let at = choose|at: (Seq<char>, Seq<char>)|
                    changed.tags.dom().contains(at) && row == #[trigger] row_of_tag(changed, at);
                assert(row == row_of_tag(world, at));
            }
            if tables_of(world).tags.contains(row) {
                let at = choose|at: (Seq<char>, Seq<char>)|
                    world.tags.dom().contains(at) && row == #[trigger] row_of_tag(world, at);
                assert(row == row_of_tag(changed, at));
            }
        }
        assert(tables_of(changed).tags =~= tables_of(world).tags);
    }
    if changed.manifests == world.manifests {
        assert forall|row: Row| #[trigger]
            tables_of(changed).manifests.contains(row) <==> tables_of(world).manifests.contains(
                row,
            ) by {
            if tables_of(changed).manifests.contains(row) {
                let at = choose|at: (Seq<char>, Seq<char>)|
                    changed.manifests.dom().contains(at) && row == #[trigger] row_of_manifest(
                        changed,
                        at,
                    );
                assert(row == row_of_manifest(world, at));
            }
            if tables_of(world).manifests.contains(row) {
                let at = choose|at: (Seq<char>, Seq<char>)|
                    world.manifests.dom().contains(at) && row == #[trigger] row_of_manifest(
                        world,
                        at,
                    );
                assert(row == row_of_manifest(changed, at));
            }
        }
        assert(tables_of(changed).manifests =~= tables_of(world).manifests);
    }
    if changed.uploads == world.uploads {
        assert forall|row: Row| #[trigger]
            tables_of(changed).uploads.contains(row) <==> tables_of(world).uploads.contains(
                row,
            ) by {
            if tables_of(changed).uploads.contains(row) {
                let uuid = choose|uuid: Seq<char>|
                    changed.uploads.dom().contains(uuid) && row == #[trigger] row_of_upload(
                        changed,
                        uuid,
                    );
                assert(row == row_of_upload(world, uuid));
            }
            if tables_of(world).uploads.contains(row) {
                let uuid = choose|uuid: Seq<char>|
                    world.uploads.dom().contains(uuid) && row == #[trigger] row_of_upload(
                        world,
                        uuid,
                    );
                assert(row == row_of_upload(changed, uuid));
            }
        }
        assert(tables_of(changed).uploads =~= tables_of(world).uploads);
    }
}

proof fn lemma_put_manifest(
    world: World,
    repo: Seq<char>,
    digest: Seq<char>,
    content_type: Seq<char>,
    size: i64,
)
    ensures
        ({
            let query = QueryView::PutManifest { repo, digest, content_type, size };
            after(statement(query), db::binds_spec(query), tables_of(world)) == Some(
                tables_of(world::changed(world, query)),
            )
        }),
{
    let query = QueryView::PutManifest { repo, digest, content_type, size };
    let changed = world::changed(world, query);
    let before = tables_of(world).manifests;
    let columns = seq![Column::Repo, Column::Digest, Column::ContentType, Column::Size];
    let slots = seq![Slot::Bound, Slot::Bound, Slot::Bound, Slot::Bound];
    let binds = db::binds_spec(query);
    let new = manifest_row(repo, digest, content_type, size);
    lemma_new_manifest(repo, digest, content_type, size, new);
    let row = choose|row: Row| is_new_row(row, columns, slots, binds);
    lemma_new_manifest(repo, digest, content_type, size, row);
    let kept = before.filter(|old: Row| !same_key(Table::Manifests, old, row));
    assert forall|other: Row| #[trigger]
        tables_of(changed).manifests.contains(other) <==> kept.insert(row).contains(other) by {
        lemma_manifest_key(other, row);
        if tables_of(changed).manifests.contains(other) {
            let at = choose|at: (Seq<char>, Seq<char>)|
                changed.manifests.dom().contains(at) && other == #[trigger] row_of_manifest(
                    changed,
                    at,
                );
            if at != (repo, digest) {
                assert(other == row_of_manifest(world, at));
            }
        }
        if kept.contains(other) {
            let at = choose|at: (Seq<char>, Seq<char>)|
                world.manifests.dom().contains(at) && other == #[trigger] row_of_manifest(
                    world,
                    at,
                );
            assert(at != (repo, digest));
            assert(other == row_of_manifest(changed, at));
        }
        if other == row {
            assert(other == row_of_manifest(changed, (repo, digest)));
        }
    }
    assert(tables_of(changed).manifests =~= kept.insert(row));
    if !(exists|old: Row| #[trigger]
        before.contains(old) && same_key(Table::Manifests, old, row)) {
        assert(kept =~= before);
    }
    lemma_same_rest(world, changed);
    assert(tables_of(changed) =~= with_rows(
        tables_of(world),
        Table::Manifests,
        kept.insert(row),
    ));
}

proof fn lemma_create_upload(world: World, uuid: Seq<char>, repo: Seq<char>)
    ensures
        ({
            let query = QueryView::CreateUpload { uuid, repo };
            after(statement(query), db::binds_spec(query), tables_of(world)) == if world::refused(
                world,
                query,
            ) {
                None
            } else {
                Some(tables_of(world::changed(world, query)))
            }
        }),
{
    let query = QueryView::CreateUpload { uuid, repo };
    let changed = world::changed(world, query);
    let before = tables_of(world).uploads;
    let columns = seq![Column::Uuid, Column::Repo, Column::Offset];
    let slots = seq![Slot::Bound, Slot::Bound, Slot::Zero];
    let binds = db::binds_spec(query);
    lemma_new_upload(uuid, repo, upload_row(uuid, repo, 0));
    let row = choose|row: Row| is_new_row(row, columns, slots, binds);
    lemma_new_upload(uuid, repo, row);
    if world.uploads.dom().contains(uuid) {
        let old = row_of_upload(world, uuid);
        lemma_upload_key(old, row);
        assert(before.contains(old));
    } else {
        assert forall|old: Row| #[trigger] before.contains(old) implies !same_key(
            Table::Uploads,
            old,
            row,
        ) by {
            lemma_upload_key(old, row);
        }
        assert forall|other: Row| #[trigger]
            tables_of(changed).uploads.contains(other) <==> before.insert(row).contains(other) by {
            if tables_of(changed).uploads.contains(other) {
                let at = choose|at: Seq<char>|
                    changed.uploads.dom().contains(at) && other == #[trigger] row_of_upload(
                        changed,
                        at,
                    );
                if at != uuid {
                    assert(other == row_of_upload(world, at));
                }
            }
            if before.contains(other) {
                let at = choose|at: Seq<char>|
                    world.uploads.dom().contains(at) && other == #[trigger] row_of_upload(
                        world,
                        at,
                    );
                assert(other == row_of_upload(changed, at));
            }
            if other == row {
                assert(other == row_of_upload(changed, uuid));
            }
        }
        assert(tables_of(changed).uploads =~= before.insert(row));
        lemma_same_rest(world, changed);
        assert(tables_of(changed) =~= with_rows(
            tables_of(world),
            Table::Uploads,
            before.insert(row),
        ));
    }
}

proof fn lemma_update_upload(world: World, uuid: Seq<char>, offset: i64)
    ensures
        ({
            let query = QueryView::UpdateUpload { uuid, offset };
            after(statement(query), db::binds_spec(query), tables_of(world)) == Some(
                tables_of(world::changed(world, query)),
            )
        }),
{
    let query = QueryView::UpdateUpload { uuid, offset };
    let changed = world::changed(world, query);
    let before = tables_of(world).uploads;
    let binds = db::binds_spec(query);
    let having = seq![Column::Uuid];
    let update = |row: Row|
        if fits(row, having, binds, 1) {
            row.insert(Column::Offset, binds[0])
        } else {
            row
        };
    assert forall|other: Row| #[trigger]
        tables_of(changed).uploads.contains(other) <==> before.map(update).contains(other) by {
        if tables_of(changed).uploads.contains(other) {
            let at = choose|at: Seq<char>|
                changed.uploads.dom().contains(at) && other == #[trigger] row_of_upload(
                    changed,
                    at,
                );
            let old = row_of_upload(world, at);
            assert(before.contains(old));
            lemma_fits_one(old, Column::Uuid, binds, 1);
            assert(update(old) =~= other);
        }
        if before.map(update).contains(other) {
            let old = choose|old: Row| before.contains(old) && update(old) == other;
            let at = choose|at: Seq<char>|
                world.uploads.dom().contains(at) && old == #[trigger] row_of_upload(world, at);
            lemma_fits_one(old, Column::Uuid, binds, 1);
            assert(other =~= row_of_upload(changed, at));
        }
    }
    assert(tables_of(changed).uploads =~= before.map(update));
    lemma_same_rest(world, changed);
    assert(tables_of(changed) =~= with_rows(
        tables_of(world),
        Table::Uploads,
        before.map(update),
    ));
}

proof fn lemma_delete_tags(world: World, query: QueryView)
    requires
        query is DeleteTag || query is DeleteTagsOf,
    ensures
        after(statement(query), db::binds_spec(query), tables_of(world)) == Some(
            tables_of(world::changed(world, query)),
        ),
{
    let changed = world::changed(world, query);
    let before = tables_of(world).tags;
    let binds = db::binds_spec(query);
    let having = if query is DeleteTag {
        seq![Column::Repo, Column::Tag]
    } else {
        seq![Column::Repo, Column::Digest]
    };
    let kept = before.filter(|row: Row| !fits(row, having, binds, 0));
    assert forall|other: Row| #[trigger]
        tables_of(changed).tags.contains(other) <==> kept.contains(other) by {
        lemma_fits_two(other, Column::Repo, Column::Tag, binds);
        lemma_fits_two(other, Column::Repo, Column::Digest, binds);
        if tables_of(changed).tags.contains(other) {
            let at = choose|at: (Seq<char>, Seq<char>)|
                changed.tags.dom().contains(at) && other == #[trigger] row_of_tag(changed, at);
            assert(other == row_of_tag(world, at));
        }
        if kept.contains(other) {
            let at = choose|at: (Seq<char>, Seq<char>)|
                world.tags.dom().contains(at) && other == #[trigger] row_of_tag(world, at);
            assert(changed.tags.dom().contains(at));
            assert(other == row_of_tag(changed, at));
        }
    }
    assert(tables_of(changed).tags =~= kept);
    lemma_same_rest(world, changed);
    assert(tables_of(changed) =~= with_rows(tables_of(world), Table::Tags, kept));
}

proof fn lemma_delete_manifest(world: World, repo: Seq<char>, digest: Seq<char>)
    ensures
        ({
            let query = QueryView::DeleteManifest { repo, digest };
            after(statement(query), db::binds_spec(query), tables_of(world)) == Some(
                tables_of(world::changed(world, query)),
            )
        }),
{
    let query = QueryView::DeleteManifest { repo, digest };
    let changed = world::changed(world, query);
    let before = tables_of(world).manifests;
    let binds = db::binds_spec(query);
    let having = seq![Column::Repo, Column::Digest];
    let kept = before.filter(|row: Row| !fits(row, having, binds, 0));
    assert forall|other: Row| #[trigger]
        tables_of(changed).manifests.contains(other) <==> kept.contains(other) by {
        lemma_fits_two(other, Column::Repo, Column::Digest, binds);
        if tables_of(changed).manifests.contains(other) {
            let at = choose|at: (Seq<char>, Seq<char>)|
                changed.manifests.dom().contains(at) && other == #[trigger] row_of_manifest(
                    changed,
                    at,
                );
            assert(other == row_of_manifest(world, at));
        }
        if kept.contains(other) {
            let at = choose|at: (Seq<char>, Seq<char>)|
                world.manifests.dom().contains(at) && other == #[trigger] row_of_manifest(
                    world,
                    at,
                );
            assert(changed.manifests.dom().contains(at));
            assert(other == row_of_manifest(changed, at));
        }
    }
    assert(tables_of(changed).manifests =~= kept);
    lemma_same_rest(world, changed);
    assert(tables_of(changed) =~= with_rows(tables_of(world), Table::Manifests, kept));
}

proof fn lemma_delete_upload(world: World, uuid: Seq<char>)
    ensures
        ({
            let query = QueryView::DeleteUpload { uuid };
            after(statement(query), db::binds_spec(query), tables_of(world)) == Some(
                tables_of(world::changed(world, query)),
            )
        }),
{
    let query = QueryView::DeleteUpload { uuid };
    let changed = world::changed(world, query);
    let before = tables_of(world).uploads;
    let binds = db::binds_spec(query);
    let having = seq![Column::Uuid];
    let kept = before.filter(|row: Row| !fits(row, having, binds, 0));
    assert forall|other: Row| #[trigger]
        tables_of(changed).uploads.contains(other) <==> kept.contains(other) by {
        lemma_fits_one(other, Column::Uuid, binds, 0);
        if tables_of(changed).uploads.contains(other) {
            let at = choose|at: Seq<char>|
                changed.uploads.dom().contains(at) && other == #[trigger] row_of_upload(
                    changed,
                    at,
                );
            assert(other == row_of_upload(world, at));
        }
        if kept.contains(other) {
            let at = choose|at: Seq<char>|
                world.uploads.dom().contains(at) && other == #[trigger] row_of_upload(world, at);
            assert(changed.uploads.dom().contains(at));
            assert(other == row_of_upload(changed, at));
        }
    }
    assert(tables_of(changed).uploads =~= kept);
    lemma_same_rest(world, changed);
    assert(tables_of(changed) =~= with_rows(tables_of(world), Table::Uploads, kept));
}

/// Running the statement that the text of a query spells, with its bound values, takes the tables
/// of a world to those of the world that the query leads to; it fails where the query is refused.
pub proof fn law_statements_change_the_tables(world: World, query: QueryView)
    ensures
        exists|statement: Statement| #[trigger]
            spelled(statement) == db::sql_spec(query) && after(
                statement,
                db::binds_spec(query),
                tables_of(world),
            ) == if world::refused(world, query) {
                None
            } else {
                Some(tables_of(world::changed(world, query)))
            },
{
    law_text_spells_statement(query);
    match query {
        QueryView::PutTag { repo, tag, digest } => lemma_put_tag(world, repo, tag, digest),
        QueryView::PutManifest { repo, digest, content_type, size } => lemma_put_manifest(
            world,
            repo,
            digest,
            content_type,
            size,
        ),
        QueryView::DeleteManifest { repo, digest } => lemma_delete_manifest(world, repo, digest),
        QueryView::DeleteTagsOf { .. } => lemma_delete_tags(world, query),
        QueryView::DeleteTag { .. } => lemma_delete_tags(world, query),
        QueryView::CreateUpload { uuid, repo } => lemma_create_upload(world, uuid, repo),
        QueryView::UpdateUpload { uuid, offset } => lemma_update_upload(world, uuid, offset),
        QueryView::DeleteUpload { uuid } => lemma_delete_upload(world, uuid),
        _ => {},
    }
    assert(spelled(statement(query)) == db::sql_spec(query));
}

proof fn lemma_one_picked(picked: Seq<Row>, found: Set<Row>, row: Row)
    requires
        picks(picked, found),
        forall|other: Row| #[trigger] found.contains(other) <==> other == row,
    ensures
        picked == seq![row],
{
    assert(picked.contains(row));
    assert forall|i: int| 0 <= i < picked.len() implies picked[i] == row by {
        assert(picked.contains(picked[i]));
    }
    if picked.len() > 1 {
        assert(picked[0] == picked[1]);
    }
    assert(picked =~= seq![row]);
}

proof fn lemma_none_picked(picked: Seq<Row>, found: Set<Row>)
    requires
        picks(picked, found),
        forall|other: Row| !#[trigger] found.contains(other),
    ensures
        picked.len() == 0,
{
    if picked.len() > 0 {
        assert(picked.contains(picked[0]));
    }
}

/// The entry for a tag that is found.
pub open spec fn tag_entries(answer: Option<Seq<char>>) -> Seq<Seq<BindView>> {
    match answer {
        Some(digest) => seq![seq![BindView::Text(digest)]],
        None => Seq::empty(),
    }
}

/// The entry for a manifest that is found.
pub open spec fn manifest_entries(answer: Option<ManifestRowView>) -> Seq<Seq<BindView>> {
    match answer {
        Some(row) => seq![
            seq![
                BindView::Text(row.digest),
                BindView::Text(row.content_type),
                BindView::Integer(row.size),
            ],
        ],
        None => Seq::empty(),
    }
}

/// The entry for an upload that is found.
pub open spec fn upload_entries(answer: Option<UploadRowView>) -> Seq<Seq<BindView>> {
    match answer {
        Some(row) => seq![seq![BindView::Text(row.repo), BindView::Integer(row.offset)]],
        None => Seq::empty(),
    }
}

proof fn lemma_find_tag(
    world: World,
    repo: Seq<char>,
    tag: Seq<char>,
    list: Seq<Seq<BindView>>,
)
    ensures
        ({
            let query = QueryView::FindTag { repo, tag };
            selects(statement(query), db::binds_spec(query), tables_of(world), list) <==> list
                == tag_entries(world::tag_answer(world, query))
        }),
{
    let query = QueryView::FindTag { repo, tag };
    let binds = db::binds_spec(query);
    let having = seq![Column::Repo, Column::Tag];
    let columns = seq![Column::Digest];
    let found = found_rows(tables_of(world), Table::Tags, having, binds);
    let at = (repo, tag);
    assert forall|other: Row| #[trigger]
        found.contains(other) <==> world.tags.dom().contains(at) && other == row_of_tag(
            world,
            at,
        ) by {
        lemma_fits_two(other, Column::Repo, Column::Tag, binds);
        if found.contains(other) {
            let place = choose|place: (Seq<char>, Seq<char>)|
                world.tags.dom().contains(place) && other == #[trigger] row_of_tag(world, place);
            assert(place == at);
        }
    }
    if selects(statement(query), binds, tables_of(world), list) {
        let picked = choose|picked: Seq<Row>| #[trigger]
            picks(picked, found) && list == entries(picked, columns);
        if world.tags.dom().contains(at) {
            lemma_one_picked(picked, found, row_of_tag(world, at));
            assert(values(picked[0], columns) =~= seq![BindView::Text(world.tags[at])]);
        } else {
            lemma_none_picked(picked, found);
        }
        assert(list =~= tag_entries(world::tag_answer(world, query)));
    }
    if list == tag_entries(world::tag_answer(world, query)) {
        let picked = if world.tags.dom().contains(at) {
            seq![row_of_tag(world, at)]
        } else {
            Seq::<Row>::empty()
        };
        assert forall|row: Row| #[trigger] picked.contains(row) <==> found.contains(row) by {
            if found.contains(row) {
                assert(picked[0] == row);
            }
        }
        assert(picks(picked, found));
        if world.tags.dom().contains(at) {
            assert(values(picked[0], columns) =~= seq![BindView::Text(world.tags[at])]);
        }
        assert(list =~= entries(picked, columns));
        assert(selects(statement(query), binds, tables_of(world), list));
    }
}

proof fn lemma_find_manifest(
    world: World,
    repo: Seq<char>,
    digest: Seq<char>,
    list: Seq<Seq<BindView>>,
)
    requires
        keyed(world),
    ensures
        ({
            let query = QueryView::FindManifest { repo, digest };
            selects(statement(query), db::binds_spec(query), tables_of(world), list) <==> list
                == manifest_entries(world::manifest_answer(world, query))
        }),
{
    let query = QueryView::FindManifest { repo, digest };
    let binds = db::binds_spec(query);
    let having = seq![Column::Repo, Column::Digest];
    let columns = seq![Column::Digest, Column::ContentType, Column::Size];
    let found = found_rows(tables_of(world), Table::Manifests, having, binds);
    let at = (repo, digest);
    assert forall|other: Row| #[trigger]
        found.contains(other) <==> world.manifests.dom().contains(at) && other == row_of_manifest(
            world,
            at,
        ) by {
        lemma_fits_two(other, Column::Repo, Column::Digest, binds);
        if found.contains(other) {
            let place = choose|place: (Seq<char>, Seq<char>)|
                world.manifests.dom().contains(place) && other == #[trigger] row_of_manifest(
                    world,
                    place,
                );
            assert(place == at);
        }
    }
    if selects(statement(query), binds, tables_of(world), list) {
        let picked = choose|picked: Seq<Row>| #[trigger]
            picks(picked, found) && list == entries(picked, columns);
        if world.manifests.dom().contains(at) {
            lemma_one_picked(picked, found, row_of_manifest(world, at));
            let row = world.manifests[at];
            assert(values(picked[0], columns) =~= seq![
                BindView::Text(row.digest),
                BindView::Text(row.content_type),
                BindView::Integer(row.size),
            ]);
        } else {
            lemma_none_picked(picked, found);
        }
        assert(list =~= manifest_entries(world::manifest_answer(world, query)));
    }
    if list == manifest_entries(world::manifest_answer(world, query)) {
        let picked = if world.manifests.dom().contains(at) {
            seq![row_of_manifest(world, at)]
        } else {
            Seq::<Row>::empty()
        };
        assert forall|row: Row| #[trigger] picked.contains(row) <==> found.contains(row) by {
            if found.contains(row) {
                assert(picked[0] == row);
            }
        }
        assert(picks(picked, found));
        if world.manifests.dom().contains(at) {
            assert(values(picked[0], columns) =~= seq![
            BindView::Text(world.manifests[at].digest),
            BindView::Text(world.manifests[at].content_type),
            BindView::Integer(world.manifests[at].size),
        ]);
        }
        assert(list =~= entries(picked, columns));
        assert(selects(statement(query), binds, tables_of(world), list));
    }
}

proof fn lemma_find_upload(world: World, uuid: Seq<char>, list: Seq<Seq<BindView>>)
    ensures
        ({
            let query = QueryView::FindUpload { uuid };
            selects(statement(query), db::binds_spec(query), tables_of(world), list) <==> list
                == upload_entries(world::upload_answer(world, query))
        }),
{
    let query = QueryView::FindUpload { uuid };
    let binds = db::binds_spec(query);
    let having = seq![Column::Uuid];
    let columns = seq![Column::Repo, Column::Offset];
    let found = found_rows(tables_of(world), Table::Uploads, having, binds);
    assert forall|other: Row| #[trigger]
        found.contains(other) <==> world.uploads.dom().contains(uuid) && other == row_of_upload(
            world,
            uuid,
        ) by {
        lemma_fits_one(other, Column::Uuid, binds, 0);
        if found.contains(other) {
            let place = choose|place: Seq<char>|
                world.uploads.dom().contains(place) && other == #[trigger] row_of_upload(
                    world,
                    place,
                );
            assert(place == uuid);
        }
    }
    if selects(statement(query), binds, tables_of(world), list) {
        let picked = choose|picked: Seq<Row>| #[trigger]
            picks(picked, found) && list == entries(picked, columns);
        if world.uploads.dom().contains(uuid) {
            lemma_one_picked(picked, found, row_of_upload(world, uuid));
            let row = world.uploads[uuid];
            assert(values(picked[0], columns) =~= seq![
                BindView::Text(row.repo),
                BindView::Integer(row.offset),
            ]);
        } else {
            lemma_none_picked(picked, found);
        }
        assert(list =~= upload_entries(world::upload_answer(world, query)));
    }
    if list == upload_entries(world::upload_answer(world, query)) {
        let picked = if world.uploads.dom().contains(uuid) {
            seq![row_of_upload(world, uuid)]
        } else {
            Seq::<Row>::empty()
        };
        assert forall|row: Row| #[trigger] picked.contains(row) <==> found.contains(row) by {
            if found.contains(row) {
                assert(picked[0] == row);
            }
        }
        assert(picks(picked, found));
        if world.uploads.dom().contains(uuid) {
            assert(values(picked[0], columns) =~= seq![
            BindView::Text(world.uploads[uuid].repo),
            BindView::Integer(world.uploads[uuid].offset),
        ]);
        }
        assert(list =~= entries(picked, columns));
        assert(selects(statement(query), binds, tables_of(world), list));
    }
}

/// Running the statement that the text of a query for a tag spells, with its bound values, selects
/// the digest of the row with that repository and tag, if there is one.
pub proof fn law_tag_is_selected(
    world: World,
    repo: Seq<char>,
    tag: Seq<char>,
)
    ensures
        ({
            let query = QueryView::FindTag { repo, tag };
            exists|statement: Statement| #[trigger]
                spelled(statement) == db::sql_spec(query) && forall|list: Seq<Seq<BindView>>|
                    #[trigger]
                    selects(statement, db::binds_spec(query), tables_of(world), list) <==> list
                        == tag_entries(world::lookup(world.tags, (repo, tag)))
        }),
{
    let query = QueryView::FindTag { repo, tag };
    law_text_spells_statement(query);
    assert forall|list: Seq<Seq<BindView>>| #[trigger]
        selects(statement(query), db::binds_spec(query), tables_of(world), list) <==> list
        == tag_entries(world::lookup(world.tags, (repo, tag))) by {
        lemma_find_tag(world, repo, tag, list);
    }
    assert(spelled(statement(query)) == db::sql_spec(query));
}

/// Running the statement that the text of a query for a manifest spells, with its bound values,
/// selects the metadata in the row with that repository and digest, if there is one.
pub proof fn law_manifest_is_selected(world: World, repo: Seq<char>, digest: Seq<char>)
    requires
        keyed(world),
    ensures
        ({
            let query = QueryView::FindManifest { repo, digest };
            exists|statement: Statement| #[trigger]
                spelled(statement) == db::sql_spec(query) && forall|list: Seq<Seq<BindView>>|
                    #[trigger]
                    selects(statement, db::binds_spec(query), tables_of(world), list) <==> list
                        == manifest_entries(world::lookup(world.manifests, (repo, digest)))
        }),
{
    let query = QueryView::FindManifest { repo, digest };
    law_text_spells_statement(query);
    assert forall|list: Seq<Seq<BindView>>| #[trigger]
        selects(statement(query), db::binds_spec(query), tables_of(world), list) <==> list
        == manifest_entries(world::lookup(world.manifests, (repo, digest))) by {
        lemma_find_manifest(world, repo, digest, list);
    }
    assert(spelled(statement(query)) == db::sql_spec(query));
}

/// Running the statement that the text of a query for an upload spells, with its bound value,
/// selects the metadata in the row with that identifier, if there is one.
pub proof fn law_upload_is_selected(world: World, uuid: Seq<char>)
    ensures
        ({
            let query = QueryView::FindUpload { uuid };
            exists|statement: Statement| #[trigger]
                spelled(statement) == db::sql_spec(query) && forall|list: Seq<Seq<BindView>>|
                    #[trigger]
                    selects(statement, db::binds_spec(query), tables_of(world), list) <==> list
                        == upload_entries(world::lookup(world.uploads, uuid))
        }),
{
    let query = QueryView::FindUpload { uuid };
    law_text_spells_statement(query);
    assert forall|list: Seq<Seq<BindView>>| #[trigger]
        selects(statement(query), db::binds_spec(query), tables_of(world), list) <==> list
        == upload_entries(world::lookup(world.uploads, uuid)) by {
        lemma_find_upload(world, uuid, list);
    }
    assert(spelled(statement(query)) == db::sql_spec(query));
}

/// Whether a list of one column holds these texts.
pub open spec fn holds_names(list: Seq<Seq<BindView>>, names: Seq<Seq<char>>) -> bool {
    list == Seq::new(names.len(), |i: int| seq![BindView::Text(names[i])])
}

/// The texts in a list of one column.
pub open spec fn names_in(list: Seq<Seq<BindView>>) -> Seq<Seq<char>> {
    Seq::new(list.len(), |i: int| list[i][0]->Text_0)
}

proof fn lemma_sorted_names(list: Seq<Seq<BindView>>, set: Set<Seq<char>>)
    requires
        forall|i: int| 0 <= i < list.len() ==> is_name(#[trigger] list[i]),
        list.no_duplicates(),
        forall|i: int, j: int|
            0 <= i < j < list.len() ==> !text_before(#[trigger] list[j][0], #[trigger] list[i][0]),
        forall|name: Seq<char>| #[trigger]
            set.contains(name) <==> list.contains(seq![BindView::Text(name)]),
    ensures
        order::lists(names_in(list), set),
        holds_names(list, names_in(list)),
{
    let names = names_in(list);
    assert forall|i: int| 0 <= i < list.len() implies #[trigger] list[i] == seq![
        BindView::Text(names[i]),
    ] by {
        assert(is_name(list[i]));
        assert(list[i] =~= seq![BindView::Text(names[i])]);
    }
    assert forall|i: int, j: int| 0 <= i < j < names.len() implies #[trigger] order::before(
        names[i],
        names[j],
    ) by {
        assert(!text_before(list[j][0], list[i][0]));
        assert(list[i] == seq![BindView::Text(names[i])]);
        assert(list[j] == seq![BindView::Text(names[j])]);
        assert(list[i] != list[j]);
        order::law_names_are_ordered(names[i], names[j], names[i]);
    }
    assert forall|name: Seq<char>| #[trigger] names.contains(name) <==> set.contains(name) by {
        let entry = seq![BindView::Text(name)];
        if names.contains(name) {
            let i = choose|i: int| 0 <= i < names.len() && names[i] == name;
            assert(list[i] == entry);
        }
        if set.contains(name) {
            let i = choose|i: int| 0 <= i < list.len() && list[i] == entry;
            assert(entry[0] == BindView::Text(name));
            assert(names[i] == name);
        }
    }
    assert(list =~= Seq::new(names.len(), |i: int| seq![BindView::Text(names[i])]));
}

/// Whether an entry is a single text.
pub open spec fn is_name(entry: Seq<BindView>) -> bool {
    entry.len() == 1 && entry[0] is Text
}

proof fn lemma_list_tags(world: World, repo: Seq<char>, list: Seq<Seq<BindView>>)
    requires
        ({
            let query = QueryView::ListTags { repo };
            selects(statement(query), db::binds_spec(query), tables_of(world), list)
        }),
    ensures
        order::lists(names_in(list), world::tags_of(world, repo)),
        holds_names(list, names_in(list)),
{
    let query = QueryView::ListTags { repo };
    let binds = db::binds_spec(query);
    let having = seq![Column::Repo];
    let columns = seq![Column::Tag];
    let found = found_rows(tables_of(world), Table::Tags, having, binds);
    let picked = choose|picked: Seq<Row>| #[trigger]
        picks(picked, found) && list == entries(picked, columns);
    assert forall|row: Row| #[trigger] found.contains(row) implies exists|tag: Seq<char>|
        world.tags.dom().contains((repo, tag)) && row == #[trigger] row_of_tag(
            world,
            (repo, tag),
        ) && values(row, columns) == seq![BindView::Text(tag)] by {
        lemma_fits_one(row, Column::Repo, binds, 0);
        let at = choose|at: (Seq<char>, Seq<char>)|
            world.tags.dom().contains(at) && row == #[trigger] row_of_tag(world, at);
        assert(at.0 == repo);
        assert(at == (repo, at.1));
        assert(row == row_of_tag(world, (repo, at.1)));
        assert(values(row, columns) =~= seq![BindView::Text(at.1)]);
    }
    assert forall|i: int| 0 <= i < list.len() implies is_name(#[trigger] list[i]) by {
        assert(picked.contains(picked[i]));
        assert(found.contains(picked[i]));
    }
    assert forall|i: int, j: int|
        0 <= i < list.len() && 0 <= j < list.len() && i != j implies list[i] != list[j] by {
        assert(picked.contains(picked[i]) && picked.contains(picked[j]));
        assert(found.contains(picked[i]) && found.contains(picked[j]));
        let a = choose|tag: Seq<char>|
            world.tags.dom().contains((repo, tag)) && picked[i] == #[trigger] row_of_tag(
                world,
                (repo, tag),
            ) && values(picked[i], columns) == seq![BindView::Text(tag)];
        let b = choose|tag: Seq<char>|
            world.tags.dom().contains((repo, tag)) && picked[j] == #[trigger] row_of_tag(
                world,
                (repo, tag),
            ) && values(picked[j], columns) == seq![BindView::Text(tag)];
        if list[i] == list[j] {
            assert(seq![BindView::Text(a)][0] == seq![BindView::Text(b)][0]);
        }
    }
    let set = world::tags_of(world, repo);
    assert forall|name: Seq<char>| #[trigger] set.contains(name) <==> list.contains(
        seq![BindView::Text(name)],
    ) by {
        let entry = seq![BindView::Text(name)];
        if set.contains(name) {
            let row = row_of_tag(world, (repo, name));
            lemma_fits_one(row, Column::Repo, binds, 0);
            assert(tables_of(world).tags.contains(row));
            assert(found.contains(row));
            assert(picked.contains(row));
            let i = choose|i: int| 0 <= i < picked.len() && picked[i] == row;
            assert(values(row, columns) =~= entry);
            assert(list[i] == entry);
        }
        if list.contains(entry) {
            let i = choose|i: int| 0 <= i < list.len() && list[i] == entry;
            assert(picked.contains(picked[i]));
            assert(found.contains(picked[i]));
            let tag = choose|tag: Seq<char>|
                world.tags.dom().contains((repo, tag)) && picked[i] == #[trigger] row_of_tag(
                    world,
                    (repo, tag),
                ) && values(picked[i], columns) == seq![BindView::Text(tag)];
            assert(seq![BindView::Text(tag)][0] == entry[0]);
        }
    }
    lemma_sorted_names(list, set);
}

proof fn lemma_list_repos(world: World, list: Seq<Seq<BindView>>)
    requires
        ({
            let query = QueryView::ListRepos;
            selects(statement(query), db::binds_spec(query), tables_of(world), list)
        }),
    ensures
        order::lists(names_in(list), world::repos_of(world)),
        holds_names(list, names_in(list)),
{
    let query = QueryView::ListRepos;
    let binds = db::binds_spec(query);
    let having = Seq::<Column>::empty();
    let columns = seq![Column::Repo];
    let found = found_rows(tables_of(world), Table::Manifests, having, binds);
    assert forall|row: Row| #[trigger] found.contains(row) implies exists|
        at: (Seq<char>, Seq<char>),
    |
        world.manifests.dom().contains(at) && row == #[trigger] row_of_manifest(world, at)
            && values(row, columns) == seq![BindView::Text(at.0)] by {
        let at = choose|at: (Seq<char>, Seq<char>)|
            world.manifests.dom().contains(at) && row == #[trigger] row_of_manifest(world, at);
        assert(values(row, columns) =~= seq![BindView::Text(at.0)]);
    }
    assert forall|i: int| 0 <= i < list.len() implies is_name(#[trigger] list[i]) by {
        assert(list.contains(list[i]));
        let row = choose|row: Row| #[trigger]
            found.contains(row) && values(row, columns) == list[i];
        assert(found.contains(row));
    }
    let set = world::repos_of(world);
    assert forall|name: Seq<char>| #[trigger] set.contains(name) <==> list.contains(
        seq![BindView::Text(name)],
    ) by {
        let entry = seq![BindView::Text(name)];
        if set.contains(name) {
            let digest = choose|digest: Seq<char>| #[trigger]
                world.manifests.dom().contains((name, digest));
            let row = row_of_manifest(world, (name, digest));
            assert(tables_of(world).manifests.contains(row));
            assert(fits(row, having, binds, 0));
            assert(found.contains(row));
            assert(values(row, columns) =~= entry);
            assert(list.contains(entry));
        }
        if list.contains(entry) {
            let row = choose|row: Row| #[trigger]
                found.contains(row) && values(row, columns) == entry;
            let at = choose|at: (Seq<char>, Seq<char>)|
                world.manifests.dom().contains(at) && row == #[trigger] row_of_manifest(world, at)
                    && values(row, columns) == seq![BindView::Text(at.0)];
            assert(seq![BindView::Text(at.0)][0] == entry[0]);
            assert(at == (name, at.1));
        }
    }
    lemma_sorted_names(list, set);
}

proof fn lemma_names_in_order(list: Seq<Seq<BindView>>, names: Seq<Seq<char>>)
    requires
        order::increasing(names),
        holds_names(list, names),
    ensures
        list.no_duplicates(),
        forall|i: int, j: int|
            0 <= i < j < list.len() ==> !text_before(#[trigger] list[j][0], #[trigger] list[i][0]),
{
    order::law_increasing_lists_hold_each_once(names);
    assert forall|i: int, j: int| 0 <= i < j < list.len() implies !text_before(
        #[trigger] list[j][0],
        #[trigger] list[i][0],
    ) by {
        assert(order::before(names[i], names[j]));
        order::law_names_are_ordered(names[i], names[j], names[i]);
    }
    assert forall|i: int, j: int|
        0 <= i < list.len() && 0 <= j < list.len() && i != j implies list[i] != list[j] by {
        assert(list[i][0] == BindView::Text(names[i]));
        assert(list[j][0] == BindView::Text(names[j]));
    }
}

proof fn lemma_tags_selected(
    world: World,
    repo: Seq<char>,
    list: Seq<Seq<BindView>>,
    names: Seq<Seq<char>>,
)
    requires
        order::lists(names, world::tags_of(world, repo)),
        holds_names(list, names),
    ensures
        ({
            let query = QueryView::ListTags { repo };
            selects(statement(query), db::binds_spec(query), tables_of(world), list)
        }),
{
    let query = QueryView::ListTags { repo };
    let binds = db::binds_spec(query);
    let having = seq![Column::Repo];
    let columns = seq![Column::Tag];
    let found = found_rows(tables_of(world), Table::Tags, having, binds);
    let picked = Seq::new(names.len(), |i: int| row_of_tag(world, (repo, names[i])));
    order::law_increasing_lists_hold_each_once(names);
    assert forall|i: int, j: int|
        0 <= i < picked.len() && 0 <= j < picked.len() && i != j implies picked[i] != picked[j] by {
        assert(picked[i][Column::Tag] == BindView::Text(names[i]));
        assert(picked[j][Column::Tag] == BindView::Text(names[j]));
    }
    assert forall|row: Row| #[trigger] picked.contains(row) <==> found.contains(row) by {
        lemma_fits_one(row, Column::Repo, binds, 0);
        if picked.contains(row) {
            let i = choose|i: int| 0 <= i < picked.len() && picked[i] == row;
            assert(names.contains(names[i]));
            assert(world.tags.dom().contains((repo, names[i])));
            assert(row == row_of_tag(world, (repo, names[i])));
        }
        if found.contains(row) {
            let at = choose|at: (Seq<char>, Seq<char>)|
                world.tags.dom().contains(at) && row == #[trigger] row_of_tag(world, at);
            assert(at == (repo, at.1));
            assert(world::tags_of(world, repo).contains(at.1));
            assert(names.contains(at.1));
            let i = choose|i: int| 0 <= i < names.len() && names[i] == at.1;
            assert(picked[i] == row);
        }
    }
    assert(picks(picked, found));
    assert forall|i: int| 0 <= i < list.len() implies list[i] == values(picked[i], columns) by {
        assert(list[i] =~= values(picked[i], columns));
    }
    assert(list =~= entries(picked, columns));
    lemma_names_in_order(list, names);
    assert(selects(statement(query), binds, tables_of(world), list));
}

proof fn lemma_repos_selected(
    world: World,
    list: Seq<Seq<BindView>>,
    names: Seq<Seq<char>>,
)
    requires
        order::lists(names, world::repos_of(world)),
        holds_names(list, names),
    ensures
        ({
            let query = QueryView::ListRepos;
            selects(statement(query), db::binds_spec(query), tables_of(world), list)
        }),
{
    let query = QueryView::ListRepos;
    let binds = db::binds_spec(query);
    let having = Seq::<Column>::empty();
    let columns = seq![Column::Repo];
    let found = found_rows(tables_of(world), Table::Manifests, having, binds);
    lemma_names_in_order(list, names);
    assert forall|entry: Seq<BindView>| #[trigger]
        list.contains(entry) <==> is_found(entry, columns, found) by {
        if list.contains(entry) {
            let i = choose|i: int| 0 <= i < list.len() && list[i] == entry;
            assert(names.contains(names[i]));
            assert(world::has_manifest(world, names[i]));
            let digest = choose|digest: Seq<char>| #[trigger]
                world.manifests.dom().contains((names[i], digest));
            let row = row_of_manifest(world, (names[i], digest));
            assert(tables_of(world).manifests.contains(row));
            assert(found.contains(row));
            assert(values(row, columns) =~= entry);
        }
        if is_found(entry, columns, found) {
            let row = choose|row: Row| #[trigger]
                found.contains(row) && values(row, columns) == entry;
            let at = choose|at: (Seq<char>, Seq<char>)|
                world.manifests.dom().contains(at) && row == #[trigger] row_of_manifest(world, at);
            assert(world.manifests.dom().contains((at.0, at.1)));
            assert(world::repos_of(world).contains(at.0));
            assert(names.contains(at.0));
            let i = choose|i: int| 0 <= i < names.len() && names[i] == at.0;
            assert(list[i] =~= entry);
        }
    }
    assert(selects(statement(query), binds, tables_of(world), list));
}

/// Running the statement that the text of a query for a list spells, with its bound values,
/// selects the names that the query finds, in their order.
pub proof fn law_names_are_selected(services: Services, world: World, query: QueryView)
    requires
        query is ListTags || query is ListRepos,
        world::lists_in_order(services),
        world::is_finite(world),
    ensures
        exists|statement: Statement| #[trigger]
            spelled(statement) == db::sql_spec(query) && forall|list: Seq<Seq<BindView>>|
                #[trigger]
                selects(statement, db::binds_spec(query), tables_of(world), list) <==> holds_names(
                    list,
                    world::names_answer(services, world, query),
                ),
{
    law_text_spells_statement(query);
    let names = world::names_answer(services, world, query);
    match query {
        QueryView::ListTags { repo } => {
            world::lemma_finite_names(world, repo);
            assert(order::lists(names, world::tags_of(world, repo)));
            assert forall|list: Seq<Seq<BindView>>| #[trigger]
                selects(
                    statement(query),
                    db::binds_spec(query),
                    tables_of(world),
                    list,
                ) <==> holds_names(list, names) by {
                if selects(statement(query), db::binds_spec(query), tables_of(world), list) {
                    lemma_list_tags(world, repo, list);
                    order::law_one_list(names_in(list), names, world::tags_of(world, repo));
                }
                if holds_names(list, names) {
                    lemma_tags_selected(world, repo, list, names);
                }
            }
        },
        _ => {
            world::lemma_finite_names(world, Seq::empty());
            assert(order::lists(names, world::repos_of(world)));
            assert forall|list: Seq<Seq<BindView>>| #[trigger]
                selects(
                    statement(query),
                    db::binds_spec(query),
                    tables_of(world),
                    list,
                ) <==> holds_names(list, names) by {
                if selects(statement(query), db::binds_spec(query), tables_of(world), list) {
                    lemma_list_repos(world, list);
                    order::law_one_list(names_in(list), names, world::repos_of(world));
                }
                if holds_names(list, names) {
                    lemma_repos_selected(world, list, names);
                }
            }
        },
    }
    assert(spelled(statement(query)) == db::sql_spec(query));
}

// ---- The tables ----

/// The statement that creates a table.
pub open spec fn create_text(table: Table) -> Seq<char> {
    match table {
        Table::Tags => db::CREATE_TAGS@,
        Table::Manifests => db::CREATE_MANIFESTS@,
        Table::Uploads => db::CREATE_UPLOADS@,
    }
}

/// The columns of a table, with how each is declared.
pub open spec fn declarations(table: Table) -> Seq<(Column, Seq<char>)> {
    match table {
        Table::Tags => seq![
            (Column::Repo, "    TEXT NOT NULL"@),
            (Column::Tag, "     TEXT NOT NULL"@),
            (Column::Digest, "  TEXT NOT NULL"@),
        ],
        Table::Manifests => seq![
            (Column::Repo, "         TEXT NOT NULL"@),
            (Column::Digest, "       TEXT NOT NULL"@),
            (Column::ContentType, " TEXT NOT NULL"@),
            (Column::Size, "         INTEGER NOT NULL"@),
        ],
        Table::Uploads => seq![
            (Column::Uuid, "    TEXT PRIMARY KEY"@),
            (Column::Repo, "    TEXT NOT NULL"@),
            (Column::Offset, "  INTEGER NOT NULL DEFAULT 0"@),
        ],
    }
}

/// The declaration of a column, on a line of its own.
pub open spec fn declaration_text(declared: (Column, Seq<char>)) -> Seq<char> {
    "    "@ + column_name(declared.0) + declared.1 + ",\n"@
}

/// Declarations of columns, each on a line of its own.
pub open spec fn declarations_text(declared: Seq<(Column, Seq<char>)>) -> Seq<char>
    decreases declared.len(),
{
    if declared.len() == 0 {
        Seq::empty()
    } else {
        declaration_text(declared[0]) + declarations_text(declared.drop_first())
    }
}

/// How the declarations of a table end: with the time of its rows, and with the primary key where
/// that is of more than one column.
pub open spec fn last_declarations(table: Table) -> Seq<char> {
    match table {
        Table::Tags => {
            "    created INTEGER NOT NULL DEFAULT (strftime('%s','now')),\n    PRIMARY KEY ("@
                + columns_text(key_of(table)) + ")\n)"@
        },
        Table::Manifests => {
            "    created      INTEGER NOT NULL DEFAULT (strftime('%s','now')),\n    PRIMARY KEY ("@
                + columns_text(key_of(table)) + ")\n)"@
        },
        Table::Uploads => "    created INTEGER NOT NULL DEFAULT (strftime('%s','now'))\n)"@,
    }
}

/// How a table is declared: its name, its columns, and its primary key.
pub open spec fn declared_text(table: Table) -> Seq<char> {
    "CREATE TABLE IF NOT EXISTS "@ + table_name(table) + " (\n"@ + declarations_text(
        declarations(table),
    ) + last_declarations(table)
}

#[verifier::spinoff_prover]
#[verifier::rlimit(60)]
proof fn lemma_tags_are_created()
    ensures
        create_text(Table::Tags) == declared_text(Table::Tags),
{
    let declared = declarations(Table::Tags);
    reveal_strlit(",\n");
    reveal_strlit("    ");
    let line_0 = "    repo    TEXT NOT NULL,\n"@;
    assert(declaration_text(declared[0]) =~= line_0) by {
        reveal_strlit("    repo    TEXT NOT NULL,\n");
        reveal_strlit("repo");
        reveal_strlit("    TEXT NOT NULL");
    }
    let line_1 = "    tag     TEXT NOT NULL,\n"@;
    assert(declaration_text(declared[1]) =~= line_1) by {
        reveal_strlit("    tag     TEXT NOT NULL,\n");
        reveal_strlit("tag");
        reveal_strlit("     TEXT NOT NULL");
    }
    let line_2 = "    digest  TEXT NOT NULL,\n"@;
    assert(declaration_text(declared[2]) =~= line_2) by {
        reveal_strlit("    digest  TEXT NOT NULL,\n");
        reveal_strlit("digest");
        reveal_strlit("  TEXT NOT NULL");
    }
    let after_0 = declared.drop_first();
    assert(declared[0] == declared[0]);
    assert(declarations_text(declared) == line_0 + declarations_text(after_0));
    let after_1 = after_0.drop_first();
    assert(after_0[0] == declared[1]);
    assert(declarations_text(after_0) == line_1 + declarations_text(after_1));
    let after_2 = after_1.drop_first();
    assert(after_1[0] == declared[2]);
    assert(declarations_text(after_1) == line_2 + declarations_text(after_2));
    assert(declarations_text(after_2) == Seq::<char>::empty());
    let head = "CREATE TABLE IF NOT EXISTS tags (\n"@;
    assert("CREATE TABLE IF NOT EXISTS "@ + table_name(Table::Tags) + " (\n"@ =~= head) by {
        reveal_strlit("CREATE TABLE IF NOT EXISTS tags (\n");
        reveal_strlit("CREATE TABLE IF NOT EXISTS ");
        reveal_strlit("tags");
        reveal_strlit(" (\n");
    }
    let tail = "    created INTEGER NOT NULL DEFAULT (strftime('%s','now')),\n    PRIMARY KEY (repo, tag)\n)"@;
    assert(last_declarations(Table::Tags) =~= tail) by {
        reveal_strlit("    created INTEGER NOT NULL DEFAULT (strftime('%s','now')),\n    PRIMARY KEY (repo, tag)\n)");
        let key = key_of(Table::Tags);
        assert(key.drop_last().len() == 1);
        assert(columns_text(key.drop_last()) == "repo"@);
        reveal_strlit("    created INTEGER NOT NULL DEFAULT (strftime('%s','now')),\n    PRIMARY KEY (");
        reveal_strlit("repo");
        reveal_strlit(", ");
        reveal_strlit("tag");
        reveal_strlit(")\n)");
        assert(columns_text(key) =~= "repo"@ + ", "@ + "tag"@);
    }
    reveal_strlit("CREATE TABLE IF NOT EXISTS tags (\n");
    reveal_strlit("    repo    TEXT NOT NULL,\n");
    reveal_strlit("    tag     TEXT NOT NULL,\n");
    reveal_strlit("    digest  TEXT NOT NULL,\n");
    reveal_strlit("    created INTEGER NOT NULL DEFAULT (strftime('%s','now')),\n    PRIMARY KEY (repo, tag)\n)");
    reveal_strlit("CREATE TABLE IF NOT EXISTS tags (\n    repo    TEXT NOT NULL,\n    tag     TEXT NOT NULL,\n    digest  TEXT NOT NULL,\n    created INTEGER NOT NULL DEFAULT (strftime('%s','now')),\n    PRIMARY KEY (repo, tag)\n)");
    assert(create_text(Table::Tags) =~= head + line_0 + line_1 + line_2 + tail);
    assert(head + line_0 + line_1 + line_2 + tail
        =~= head + declarations_text(declared) + tail);
}

#[verifier::spinoff_prover]
#[verifier::rlimit(60)]
proof fn lemma_manifests_are_created()
    ensures
        create_text(Table::Manifests) == declared_text(Table::Manifests),
{
    let declared = declarations(Table::Manifests);
    reveal_strlit(",\n");
    reveal_strlit("    ");
    let line_0 = "    repo         TEXT NOT NULL,\n"@;
    assert(declaration_text(declared[0]) =~= line_0) by {
        reveal_strlit("    repo         TEXT NOT NULL,\n");
        reveal_strlit("repo");
        reveal_strlit("         TEXT NOT NULL");
    }
    let line_1 = "    digest       TEXT NOT NULL,\n"@;
    assert(declaration_text(declared[1]) =~= line_1) by {
        reveal_strlit("    digest       TEXT NOT NULL,\n");
        reveal_strlit("digest");
        reveal_strlit("       TEXT NOT NULL");
    }
    let line_2 = "    content_type TEXT NOT NULL,\n"@;
    assert(declaration_text(declared[2]) =~= line_2) by {
        reveal_strlit("    content_type TEXT NOT NULL,\n");
        reveal_strlit("content_type");
        reveal_strlit(" TEXT NOT NULL");
    }
    let line_3 = "    size         INTEGER NOT NULL,\n"@;
    assert(declaration_text(declared[3]) =~= line_3) by {
        reveal_strlit("    size         INTEGER NOT NULL,\n");
        reveal_strlit("size");
        reveal_strlit("         INTEGER NOT NULL");
    }
    let after_0 = declared.drop_first();
    assert(declared[0] == declared[0]);
    assert(declarations_text(declared) == line_0 + declarations_text(after_0));
    let after_1 = after_0.drop_first();
    assert(after_0[0] == declared[1]);
    assert(declarations_text(after_0) == line_1 + declarations_text(after_1));
    let after_2 = after_1.drop_first();
    assert(after_1[0] == declared[2]);
    assert(declarations_text(after_1) == line_2 + declarations_text(after_2));
    let after_3 = after_2.drop_first();
    assert(after_2[0] == declared[3]);
    assert(declarations_text(after_2) == line_3 + declarations_text(after_3));
    assert(declarations_text(after_3) == Seq::<char>::empty());
    let head = "CREATE TABLE IF NOT EXISTS manifests (\n"@;
    assert("CREATE TABLE IF NOT EXISTS "@ + table_name(Table::Manifests) + " (\n"@ =~= head) by {
        reveal_strlit("CREATE TABLE IF NOT EXISTS manifests (\n");
        reveal_strlit("CREATE TABLE IF NOT EXISTS ");
        reveal_strlit("manifests");
        reveal_strlit(" (\n");
    }
    let tail = "    created      INTEGER NOT NULL DEFAULT (strftime('%s','now')),\n    PRIMARY KEY (repo, digest)\n)"@;
    assert(last_declarations(Table::Manifests) =~= tail) by {
        reveal_strlit("    created      INTEGER NOT NULL DEFAULT (strftime('%s','now')),\n    PRIMARY KEY (repo, digest)\n)");
        let key = key_of(Table::Manifests);
        assert(key.drop_last().len() == 1);
        assert(columns_text(key.drop_last()) == "repo"@);
        reveal_strlit("    created      INTEGER NOT NULL DEFAULT (strftime('%s','now')),\n    PRIMARY KEY (");
        reveal_strlit("repo");
        reveal_strlit(", ");
        reveal_strlit("digest");
        reveal_strlit(")\n)");
        assert(columns_text(key) =~= "repo"@ + ", "@ + "digest"@);
    }
    reveal_strlit("CREATE TABLE IF NOT EXISTS manifests (\n");
    reveal_strlit("    repo         TEXT NOT NULL,\n");
    reveal_strlit("    digest       TEXT NOT NULL,\n");
    reveal_strlit("    content_type TEXT NOT NULL,\n");
    reveal_strlit("    size         INTEGER NOT NULL,\n");
    reveal_strlit("    created      INTEGER NOT NULL DEFAULT (strftime('%s','now')),\n    PRIMARY KEY (repo, digest)\n)");
    reveal_strlit("CREATE TABLE IF NOT EXISTS manifests (\n    repo         TEXT NOT NULL,\n    digest       TEXT NOT NULL,\n    content_type TEXT NOT NULL,\n    size         INTEGER NOT NULL,\n    created      INTEGER NOT NULL DEFAULT (strftime('%s','now')),\n    PRIMARY KEY (repo, digest)\n)");
    assert(create_text(Table::Manifests) =~= head + line_0 + line_1 + line_2 + line_3 + tail);
    assert(head + line_0 + line_1 + line_2 + line_3 + tail
        =~= head + declarations_text(declared) + tail);
}

#[verifier::spinoff_prover]
#[verifier::rlimit(60)]
proof fn lemma_uploads_are_created()
    ensures
        create_text(Table::Uploads) == declared_text(Table::Uploads),
{
    let declared = declarations(Table::Uploads);
    reveal_strlit(",\n");
    reveal_strlit("    ");
    let line_0 = "    uuid    TEXT PRIMARY KEY,\n"@;
    assert(declaration_text(declared[0]) =~= line_0) by {
        reveal_strlit("    uuid    TEXT PRIMARY KEY,\n");
        reveal_strlit("uuid");
        reveal_strlit("    TEXT PRIMARY KEY");
    }
    let line_1 = "    repo    TEXT NOT NULL,\n"@;
    assert(declaration_text(declared[1]) =~= line_1) by {
        reveal_strlit("    repo    TEXT NOT NULL,\n");
        reveal_strlit("repo");
        reveal_strlit("    TEXT NOT NULL");
    }
    let line_2 = "    offset  INTEGER NOT NULL DEFAULT 0,\n"@;
    assert(declaration_text(declared[2]) =~= line_2) by {
        reveal_strlit("    offset  INTEGER NOT NULL DEFAULT 0,\n");
        reveal_strlit("offset");
        reveal_strlit("  INTEGER NOT NULL DEFAULT 0");
    }
    let after_0 = declared.drop_first();
    assert(declared[0] == declared[0]);
    assert(declarations_text(declared) == line_0 + declarations_text(after_0));
    let after_1 = after_0.drop_first();
    assert(after_0[0] == declared[1]);
    assert(declarations_text(after_0) == line_1 + declarations_text(after_1));
    let after_2 = after_1.drop_first();
    assert(after_1[0] == declared[2]);
    assert(declarations_text(after_1) == line_2 + declarations_text(after_2));
    assert(declarations_text(after_2) == Seq::<char>::empty());
    let head = "CREATE TABLE IF NOT EXISTS uploads (\n"@;
    assert("CREATE TABLE IF NOT EXISTS "@ + table_name(Table::Uploads) + " (\n"@ =~= head) by {
        reveal_strlit("CREATE TABLE IF NOT EXISTS uploads (\n");
        reveal_strlit("CREATE TABLE IF NOT EXISTS ");
        reveal_strlit("uploads");
        reveal_strlit(" (\n");
    }
    let tail = "    created INTEGER NOT NULL DEFAULT (strftime('%s','now'))\n)"@;
    assert(last_declarations(Table::Uploads) =~= tail) by {
        reveal_strlit("    created INTEGER NOT NULL DEFAULT (strftime('%s','now'))\n)");
    }
    reveal_strlit("CREATE TABLE IF NOT EXISTS uploads (\n");
    reveal_strlit("    uuid    TEXT PRIMARY KEY,\n");
    reveal_strlit("    repo    TEXT NOT NULL,\n");
    reveal_strlit("    offset  INTEGER NOT NULL DEFAULT 0,\n");
    reveal_strlit("    created INTEGER NOT NULL DEFAULT (strftime('%s','now'))\n)");
    reveal_strlit("CREATE TABLE IF NOT EXISTS uploads (\n    uuid    TEXT PRIMARY KEY,\n    repo    TEXT NOT NULL,\n    offset  INTEGER NOT NULL DEFAULT 0,\n    created INTEGER NOT NULL DEFAULT (strftime('%s','now'))\n)");
    assert(create_text(Table::Uploads) =~= head + line_0 + line_1 + line_2 + tail);
    assert(head + line_0 + line_1 + line_2 + tail
        =~= head + declarations_text(declared) + tail);
}

/// The tables are created where they are not there yet, each with its columns and the time of its
/// rows, and with the primary key by which rows are told apart.
pub proof fn law_tables_are_created(table: Table)
    ensures
        create_text(table) == declared_text(table),
{
    match table {
        Table::Tags => lemma_tags_are_created(),
        Table::Manifests => lemma_manifests_are_created(),
        Table::Uploads => lemma_uploads_are_created(),
    }
}

} // verus!
