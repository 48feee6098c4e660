//! The database schema of the clipboard store, and how older databases get to it.

use vstd::prelude::*;

verus! {

/// The schema version of databases that are up to date.
pub const SCHEMA_VERSION: i64 = 3;

/// Creates the table of the first version, with its index on the text.
pub const CREATE_TABLE_SQL: &'static str =
    "CREATE TABLE IF NOT EXISTS clipboard_entries (
        id          INTEGER PRIMARY KEY AUTOINCREMENT NOT NULL,
        text        TEXT NOT NULL,
        timestamp   INTEGER NOT NULL DEFAULT 0,
        isPinned    INTEGER NOT NULL DEFAULT 0,
        isQuickSend INTEGER NOT NULL DEFAULT 0
    );
    CREATE INDEX IF NOT EXISTS index_clipboard_entries_text
        ON clipboard_entries(text);";

/// Adds the column of the second version.
pub const ADD_CONSUMED_SQL: &'static str =
    "ALTER TABLE clipboard_entries
     ADD COLUMN consumed INTEGER NOT NULL DEFAULT 0";

/// Adds the column of the third version.
pub const ADD_CODE_SQL: &'static str =
    "ALTER TABLE clipboard_entries
     ADD COLUMN code TEXT NOT NULL DEFAULT ''";

/// Records that the database is up to date.
pub const SET_VERSION_SQL: &'static str = "PRAGMA user_version = 3";

/// A step of a migration.
#[derive(Debug, Clone, Copy, PartialEq, Eq, Structural)]
pub enum MigrationStep {
    CreateTable,
    AddConsumed,
    AddCode,
    SetVersion,
}

impl MigrationStep {
    /// The statement that carries a step out.
    pub open spec fn sql_text(self) -> Seq<char> {
        match self {
            MigrationStep::CreateTable => CREATE_TABLE_SQL@,
            MigrationStep::AddConsumed => ADD_CONSUMED_SQL@,
            MigrationStep::AddCode => ADD_CODE_SQL@,
            MigrationStep::SetVersion => SET_VERSION_SQL@,
        }
    }

    /// The statement that carries a step out.
    pub fn sql(self) -> (sql: &'static str)
        ensures
            sql@ == self.sql_text(),
    {
        match self {
            MigrationStep::CreateTable => CREATE_TABLE_SQL,
            MigrationStep::AddConsumed => ADD_CONSUMED_SQL,
            MigrationStep::AddCode => ADD_CODE_SQL,
            MigrationStep::SetVersion => SET_VERSION_SQL,
        }
    }
}

/// The steps that a database of some version needs. A new database has version
/// zero and gets the table of the first version before the later columns.
pub open spec fn steps_from(version: i64) -> Seq<MigrationStep> {
    let create = if version == 0 {
        seq![MigrationStep::CreateTable]
    } else {
        Seq::empty()
    };
    let consumed = if version < 2 {
        seq![MigrationStep::AddConsumed]
    } else {
        Seq::empty()
    };
    let code = if version < 3 {
        seq![MigrationStep::AddCode]
    } else {
        Seq::empty()
    };
    let set_version = if version != SCHEMA_VERSION {
        seq![MigrationStep::SetVersion]
    } else {
        Seq::empty()
    };
    create + consumed + code + set_version
}

/// Lists the steps that a database of some version needs, in order.
pub fn migrate(version: i64) -> (steps: Vec<MigrationStep>)
    ensures
        steps@ == steps_from(version),
{
    let mut steps: Vec<MigrationStep> = Vec::new();
    if version == 0 {
        steps.push(MigrationStep::CreateTable);
    }
    if version < 2 {
        steps.push(MigrationStep::AddConsumed);
    }
    if version < 3 {
        steps.push(MigrationStep::AddCode);
    }
    if version != SCHEMA_VERSION {
        steps.push(MigrationStep::SetVersion);
    }
    assert(steps@ =~= steps_from(version));
    steps
}

// ── What the steps do to a database ────────────────────────────────────────

/// The columns of the table.
pub enum Column {
    Id,
    Text,
    Timestamp,
    IsPinned,
    IsQuickSend,
    Consumed,
    Code,
}

/// What a row holds in a column.
#[verifier::ext_equal]
pub enum CellView {
    Integer(int),
    Text(Seq<char>),
}

/// A database as far as migrations go: the columns of the table, where there is
/// one, whether its text is indexed, its rows, and the recorded version.
#[verifier::ext_equal]
pub struct SchemaView {
    pub columns: Option<Seq<Column>>,
    pub text_indexed: bool,
    pub rows: Seq<Map<Column, CellView>>,
    pub version: int,
}

/// The columns of the first version.
pub open spec fn first_columns() -> Seq<Column> {
    seq![Column::Id, Column::Text, Column::Timestamp, Column::IsPinned, Column::IsQuickSend]
}

/// The columns of a version's table.
pub open spec fn columns_of(version: int) -> Seq<Column> {
    if version == 1 {
        first_columns()
    } else if version == 2 {
        first_columns().push(Column::Consumed)
    } else {
        first_columns().push(Column::Consumed).push(Column::Code)
    }
}

/// A database of a version: a new one without a table, or one with that version's
/// table, whose rows hold something in each of its columns and in no others.
pub open spec fn is_database(schema: SchemaView, version: int) -> bool {
    &&& schema.version == version
    &&& if version == 0 {
        schema.columns is None && schema.rows.len() == 0
    } else {
        &&& schema.columns == Some(columns_of(version))
        &&& forall|i: int, column: Column|
            #![trigger schema.rows[i].contains_key(column)]
            0 <= i < schema.rows.len() ==> (schema.rows[i].contains_key(column) <==> columns_of(
                version,
            ).contains(column))
    }
}

/// What a step makes of a database. A column can be added once only, to a table
/// that is there; the rows get its default.
pub open spec fn stepped(schema: SchemaView, step: MigrationStep) -> Option<SchemaView> {
    match step {
        MigrationStep::CreateTable => Some(
            SchemaView {
                columns: match schema.columns {
                    Some(columns) => Some(columns),
                    None => Some(first_columns()),
                },
                text_indexed: true,
                ..schema
            },
        ),
        MigrationStep::AddConsumed => with_column(schema, Column::Consumed, CellView::Integer(0)),
        MigrationStep::AddCode => with_column(
            schema,
            Column::Code,
            CellView::Text(Seq::empty()),
        ),
        MigrationStep::SetVersion => Some(SchemaView { version: SCHEMA_VERSION as int, ..schema }),
    }
}

/// A database with one column more, which holds a default in every row.
pub open spec fn with_column(schema: SchemaView, column: Column, default: CellView) -> Option<
    SchemaView,
> {
    match schema.columns {
        Some(columns) => if columns.contains(column) {
            None
        } else {
            Some(
                SchemaView {
                    columns: Some(columns.push(column)),
                    rows: schema.rows.map_values(
                        |row: Map<Column, CellView>| row.insert(column, default),
                    ),
                    ..schema
                },
            )
        },
        None => None,
    }
}

/// What several steps make of a database, where none of them fails.
pub open spec fn all_stepped(schema: SchemaView, steps: Seq<MigrationStep>) -> Option<SchemaView>
    decreases steps.len(),
{
    if steps.len() == 0 {
        Some(schema)
    } else {
        match all_stepped(schema, steps.drop_last()) {
            Some(before) => stepped(before, steps.last()),
            None => None,
        }
    }
}

/// A row of a version after its migration: what it held it still holds, and what
/// it did not hold yet is unconsumed and without a code.
pub open spec fn is_migrated_row(
    before: Map<Column, CellView>,
    after: Map<Column, CellView>,
    version: int,
) -> bool {
    &&& forall|column: Column| #[trigger]
        before.contains_key(column) ==> after.contains_key(column) && after[column]
            == before[column]
    &&& version < 2 ==> after.contains_key(Column::Consumed) && after[Column::Consumed]
        == CellView::Integer(0)
    &&& version < 3 ==> after.contains_key(Column::Code) && after[Column::Code] == CellView::Text(
        Seq::empty(),
    )
}

/// From every known version the steps lead, without failing, to the current
/// schema. Every row is kept, with its values and the defaults of the columns that
/// it did not have. A new database gets the index on the text, others keep what
/// they have.
pub proof fn law_migrations_reach_the_current_schema(schema: SchemaView, version: i64)
    requires
        0 <= version <= SCHEMA_VERSION,
        is_database(schema, version as int),
    ensures
        all_stepped(schema, steps_from(version)) matches Some(after) && {
            &&& is_database(after, SCHEMA_VERSION as int)
            &&& after.text_indexed == (version == 0 || schema.text_indexed)
            &&& after.rows.len() == schema.rows.len()
            &&& forall|i: int|
                0 <= i < schema.rows.len() ==> is_migrated_row(
                    #[trigger] schema.rows[i],
                    after.rows[i],
                    version as int,
                )
        },
{
    let steps = steps_from(version);
    if version == 0 {
        assert(steps =~= Seq::empty().push(MigrationStep::CreateTable).push(
            MigrationStep::AddConsumed,
        ).push(MigrationStep::AddCode).push(MigrationStep::SetVersion));
    } else if version == 1 {
        assert(steps =~= Seq::empty().push(MigrationStep::AddConsumed).push(
            MigrationStep::AddCode,
        ).push(MigrationStep::SetVersion));
    } else if version == 2 {
        assert(steps =~= Seq::empty().push(MigrationStep::AddCode).push(
            MigrationStep::SetVersion,
        ));
    } else {
        assert(steps =~= Seq::empty());
    }
    lemma_all_stepped_push(schema);
    assert(!first_columns().contains(Column::Consumed));
    let second = first_columns().push(Column::Consumed);
    let third = second.push(Column::Code);
    assert(!second.contains(Column::Code));
    lemma_push_contains(first_columns(), Column::Consumed);
    lemma_push_contains(second, Column::Code);
    let after = all_stepped(schema, steps)->0;
    assert(after.columns == Some(third));
    assert forall|i: int, column: Column|
        #![trigger after.rows[i].contains_key(column)]
        0 <= i < after.rows.len() implies (after.rows[i].contains_key(column)
        <==> third.contains(column)) by {
        assert(schema.rows[i].contains_key(column) <==> columns_of(version as int).contains(
            column,
        ));
    }
}

/// A column more.
proof fn lemma_push_contains(columns: Seq<Column>, added: Column)
    ensures
        forall|column: Column| #[trigger]
            columns.push(added).contains(column) <==> columns.contains(column) || column == added,
{
    let longer = columns.push(added);
    assert forall|column: Column| #[trigger] longer.contains(column) <==> columns.contains(column)
        || column == added by {
        if columns.contains(column) {
            let i = choose|i: int| 0 <= i < columns.len() && columns[i] == column;
            assert(longer[i] == column);
        }
        if column == added {
            assert(longer[columns.len() as int] == column);
        }
        if longer.contains(column) {
            let i = choose|i: int| 0 <= i < longer.len() && longer[i] == column;
            if i < columns.len() {
                assert(columns[i] == column);
            }
        }
    }
}

/// No step loses a row or changes what it holds.
pub proof fn law_steps_keep_rows(schema: SchemaView, step: MigrationStep, i: int, column: Column)
    requires
        schema.columns matches Some(columns) && (columns.contains(column)),
        0 <= i < schema.rows.len(),
        schema.rows[i].contains_key(column),
    ensures
        stepped(schema, step) matches Some(after) ==> {
            &&& after.rows.len() == schema.rows.len()
            &&& after.rows[i].contains_key(column)
            &&& after.rows[i][column] == schema.rows[i][column]
        },
{
}

/// One step more.
proof fn lemma_all_stepped_push(schema: SchemaView)
    ensures
        forall|steps: Seq<MigrationStep>, step: MigrationStep|
            #![trigger all_stepped(schema, steps.push(step))]
            all_stepped(schema, steps.push(step)) == match all_stepped(schema, steps) {
                Some(before) => stepped(before, step),
                None => None,
            },
{
    assert forall|steps: Seq<MigrationStep>, step: MigrationStep|
        #![trigger all_stepped(schema, steps.push(step))]
        all_stepped(schema, steps.push(step)) == match all_stepped(schema, steps) {
            Some(before) => stepped(before, step),
            None => None,
        } by {
        assert(steps.push(step).drop_last() =~= steps);
    }
}

/// A database that is up to date is left alone, so a second migration changes
/// nothing.
pub proof fn law_current_databases_are_left_alone(schema: SchemaView)
    ensures
        steps_from(SCHEMA_VERSION).len() == 0,
        all_stepped(schema, steps_from(SCHEMA_VERSION)) == Some(schema),
{
}

/// A database of a version that is not known yet only has its version set back; one of a
/// version below zero is taken for one of the first.
pub proof fn law_other_versions(version: i64)
    ensures
        version > SCHEMA_VERSION ==> steps_from(version) == seq![MigrationStep::SetVersion],
        version < 0 ==> steps_from(version) == steps_from(1),
{
    assert(version > SCHEMA_VERSION ==> steps_from(version) =~= seq![MigrationStep::SetVersion]);
    assert(version < 0 ==> steps_from(version) =~= steps_from(1));
}

/// Each step has its own statement.
pub proof fn law_steps_and_statements()
    ensures
        MigrationStep::CreateTable.sql_text() == CREATE_TABLE_SQL@,
        MigrationStep::AddConsumed.sql_text() == ADD_CONSUMED_SQL@,
        MigrationStep::AddCode.sql_text() == ADD_CODE_SQL@,
        MigrationStep::SetVersion.sql_text() == SET_VERSION_SQL@,
{
}

} // verus!
