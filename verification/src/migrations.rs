use vstd::prelude::*;
use crate::text::{decimal, push_decimal, same_text};

verus! {

/// The schema version that the migrations bring a database to.
pub const LATEST_VERSION: i64 = 3;

/// Table that the migrations change.
pub const NOTES_TABLE: &'static str = "notes";
/// Column added by the version 2 migration.
pub const COLUMN_TITLE: &'static str = "title";
/// Column added by the version 2 migration.
pub const COLUMN_KIND: &'static str = "kind";
/// Column added by the version 2 migration.
pub const COLUMN_SORT_ORDER: &'static str = "sort_order";
/// Column added by the version 3 migration.
pub const COLUMN_NOTE_DATE: &'static str = "note_date";

/// Statement that adds the `title` column.
pub const ADD_TITLE_SQL: &'static str = "ALTER TABLE notes ADD COLUMN title TEXT NOT NULL DEFAULT ''";
/// Statement that adds the `kind` column.
pub const ADD_KIND_SQL: &'static str = "ALTER TABLE notes ADD COLUMN kind TEXT NOT NULL DEFAULT 'memo'";
/// Statement that adds the `sort_order` column.
pub const ADD_SORT_ORDER_SQL: &'static str = "ALTER TABLE notes ADD COLUMN sort_order INTEGER NOT NULL DEFAULT 0";
/// Statements that create the indexes of the version 2 schema.
pub const KIND_INDEXES_SQL: &'static str = "CREATE INDEX IF NOT EXISTS idx_notes_kind ON notes(kind); CREATE INDEX IF NOT EXISTS idx_notes_pinned_upd ON notes(pinned DESC, updated_at DESC);";
/// Statement that adds the `note_date` column.
pub const ADD_NOTE_DATE_SQL: &'static str = "ALTER TABLE notes ADD COLUMN note_date TEXT NULL";
/// Statement that creates the index of the version 3 schema.
pub const NOTE_DATE_INDEX_SQL: &'static str = "CREATE INDEX IF NOT EXISTS idx_notes_note_date ON notes(note_date) WHERE note_date IS NOT NULL;";

/// One step of bringing a database to the latest schema.
pub enum Migration {
    /// Version 2: `title`, `kind` and `sort_order` columns, with indexes.
    ToV2,
    /// Version 3: the `note_date` column, with its index.
    ToV3,
    /// Record the latest version in `PRAGMA user_version`.
    RecordLatestVersion,
}

/// One change made to the schema.
pub enum SchemaChange {
    AddTitle,
    AddKind,
    AddSortOrder,
    CreateKindIndexes,
    AddNoteDate,
    CreateNoteDateIndex,
    SetVersion(i64),
}

/// What the migrations see of a database's schema.
pub struct SchemaModel {
    pub version: i64,
    pub title: bool,
    pub kind: bool,
    pub sort_order: bool,
    pub note_date: bool,
    pub kind_indexes: bool,
    pub note_date_index: bool,
}

/// The schema after one change.
pub open spec fn apply_change(s: SchemaModel, c: SchemaChange) -> SchemaModel {
    match c {
        SchemaChange::AddTitle => SchemaModel { title: true, ..s },
        SchemaChange::AddKind => SchemaModel { kind: true, ..s },
        SchemaChange::AddSortOrder => SchemaModel { sort_order: true, ..s },
        SchemaChange::CreateKindIndexes => SchemaModel { kind_indexes: true, ..s },
        SchemaChange::AddNoteDate => SchemaModel { note_date: true, ..s },
        SchemaChange::CreateNoteDateIndex => SchemaModel { note_date_index: true, ..s },
        SchemaChange::SetVersion(v) => SchemaModel { version: v, ..s },
    }
}

/// The schema after a sequence of changes, applied in order.
pub open spec fn apply_changes(s: SchemaModel, cs: Seq<SchemaChange>) -> SchemaModel
    decreases cs.len(),
{
    if cs.len() == 0 {
        s
    } else {
        apply_changes(apply_change(s, cs[0]), cs.drop_first())
    }
}

/// A change can be made to the schema: a column is only added where it is
/// missing (SQLite refuses to add a column twice).
pub open spec fn applicable(s: SchemaModel, c: SchemaChange) -> bool {
    match c {
        SchemaChange::AddTitle => !s.title,
        SchemaChange::AddKind => !s.kind,
        SchemaChange::AddSortOrder => !s.sort_order,
        SchemaChange::AddNoteDate => !s.note_date,
        _ => true,
    }
}

/// Every change of the sequence can be made where it comes.
pub open spec fn all_applicable(s: SchemaModel, cs: Seq<SchemaChange>) -> bool
    decreases cs.len(),
{
    cs.len() == 0 || (applicable(s, cs[0]) && all_applicable(apply_change(s, cs[0]), cs.drop_first()))
}

/// The steps that a database at `current` goes through.
pub open spec fn spec_migration_steps(current: i64) -> Seq<Migration> {
    if current >= LATEST_VERSION {
        Seq::empty()
    } else if current < 2 {
        seq![Migration::ToV2, Migration::ToV3, Migration::RecordLatestVersion]
    } else {
        seq![Migration::ToV3, Migration::RecordLatestVersion]
    }
}

/// The changes of the version 2 step, given which of its columns exist.
pub open spec fn spec_v2_changes(has_title: bool, has_kind: bool, has_sort_order: bool) -> Seq<
    SchemaChange,
> {
    (if has_title { Seq::empty() } else { seq![SchemaChange::AddTitle] }) + (if has_kind {
        Seq::empty()
    } else {
        seq![SchemaChange::AddKind]
    }) + (if has_sort_order {
        Seq::empty()
    } else {
        seq![SchemaChange::AddSortOrder]
    }) + seq![SchemaChange::CreateKindIndexes]
}

/// The changes of the version 3 step, given whether its column exists.
pub open spec fn spec_v3_changes(has_note_date: bool) -> Seq<SchemaChange> {
    (if has_note_date { Seq::empty() } else { seq![SchemaChange::AddNoteDate] }) + seq![
        SchemaChange::CreateNoteDateIndex,
    ]
}

/// The changes that one step makes to the schema `s`, the columns being
/// looked up right before the step.
pub open spec fn step_changes(s: SchemaModel, m: Migration) -> Seq<SchemaChange> {
    match m {
        Migration::ToV2 => spec_v2_changes(s.title, s.kind, s.sort_order),
        Migration::ToV3 => spec_v3_changes(s.note_date),
        Migration::RecordLatestVersion => seq![SchemaChange::SetVersion(LATEST_VERSION)],
    }
}

/// The schema after the steps, run in order.
pub open spec fn run_steps(s: SchemaModel, ms: Seq<Migration>) -> SchemaModel
    decreases ms.len(),
{
    if ms.len() == 0 {
        s
    } else {
        run_steps(apply_changes(s, step_changes(s, ms[0])), ms.drop_first())
    }
}

/// The schema after a run of the migrations on `s`.
pub open spec fn migrated(s: SchemaModel) -> SchemaModel {
    run_steps(s, spec_migration_steps(s.version))
}

/// Every change that the steps make can be made where it comes.
pub open spec fn steps_applicable(s: SchemaModel, ms: Seq<Migration>) -> bool
    decreases ms.len(),
{
    ms.len() == 0 || (all_applicable(s, step_changes(s, ms[0])) && steps_applicable(
        apply_changes(s, step_changes(s, ms[0])),
        ms.drop_first(),
    ))
}

/// The steps that a database whose `PRAGMA user_version` is `current` goes
/// through, in order: none where it is at the latest version or beyond;
/// else version 2 (where it is below 2), version 3, and recording the
/// latest version.
pub fn migration_steps(current: i64) -> (ms: Vec<Migration>)
    ensures
        ms@ == spec_migration_steps(current),
{
    let mut ms: Vec<Migration> = Vec::new();
    if current >= LATEST_VERSION {
        return ms;
    }
    if current < 2 {
        ms.push(Migration::ToV2);
    }
    ms.push(Migration::ToV3);
    ms.push(Migration::RecordLatestVersion);
    assert(ms@ =~= spec_migration_steps(current));
    ms
}

/// The changes of the version 2 step: each of its columns that does not
/// exist yet is added, then its indexes are created.
pub fn v2_changes(has_title: bool, has_kind: bool, has_sort_order: bool) -> (cs: Vec<SchemaChange>)
    ensures
        cs@ == spec_v2_changes(has_title, has_kind, has_sort_order),
{
    let mut cs: Vec<SchemaChange> = Vec::new();
    if !has_title {
        cs.push(SchemaChange::AddTitle);
    }
    if !has_kind {
        cs.push(SchemaChange::AddKind);
    }
    if !has_sort_order {
        cs.push(SchemaChange::AddSortOrder);
    }
    cs.push(SchemaChange::CreateKindIndexes);
    assert(cs@ =~= spec_v2_changes(has_title, has_kind, has_sort_order));
    cs
}

/// The changes of the version 3 step: the `note_date` column where it does
/// not exist yet, then its index.
pub fn v3_changes(has_note_date: bool) -> (cs: Vec<SchemaChange>)
    ensures
        cs@ == spec_v3_changes(has_note_date),
{
    let mut cs: Vec<SchemaChange> = Vec::new();
    if !has_note_date {
        cs.push(SchemaChange::AddNoteDate);
    }
    cs.push(SchemaChange::CreateNoteDateIndex);
    assert(cs@ =~= spec_v3_changes(has_note_date));
    cs
}

/// The columns whose presence a step looks up before it runs, in order.
pub open spec fn spec_columns_to_check(m: Migration) -> Seq<Seq<char>> {
    match m {
        Migration::ToV2 => seq![COLUMN_TITLE@, COLUMN_KIND@, COLUMN_SORT_ORDER@],
        Migration::ToV3 => seq![COLUMN_NOTE_DATE@],
        Migration::RecordLatestVersion => Seq::empty(),
    }
}

/// The `k`-th looked-up presence flag; a missing flag reads as absent.
pub open spec fn flag_at(present: Seq<bool>, k: int) -> bool {
    0 <= k < present.len() && present[k]
}

/// The changes of a step, given the presence flags of the columns that
/// `spec_columns_to_check` names, in the same order.
pub open spec fn spec_changes_for_step(m: Migration, present: Seq<bool>) -> Seq<SchemaChange> {
    match m {
        Migration::ToV2 => spec_v2_changes(
            flag_at(present, 0),
            flag_at(present, 1),
            flag_at(present, 2),
        ),
        Migration::ToV3 => spec_v3_changes(flag_at(present, 0)),
        Migration::RecordLatestVersion => seq![SchemaChange::SetVersion(LATEST_VERSION)],
    }
}

/// The columns of the `notes` table whose presence a step looks up before
/// it runs.
pub fn columns_to_check(m: &Migration) -> (cols: Vec<&'static str>)
    ensures
        cols@.map_values(|c: &'static str| c@) == spec_columns_to_check(*m),
{
    let mut cols: Vec<&'static str> = Vec::new();
    match m {
        Migration::ToV2 => {
            cols.push(COLUMN_TITLE);
            cols.push(COLUMN_KIND);
            cols.push(COLUMN_SORT_ORDER);
        },
        Migration::ToV3 => {
            cols.push(COLUMN_NOTE_DATE);
        },
        Migration::RecordLatestVersion => {},
    }
    assert(cols@.map_values(|c: &'static str| c@) =~= spec_columns_to_check(*m));
    cols
}

/// The changes that a step makes, given whether each column that
/// `columns_to_check` names exists (in the same order; a missing flag
/// counts as absent).
pub fn changes_for_step(m: &Migration, present: &Vec<bool>) -> (cs: Vec<SchemaChange>)
    ensures
        cs@ == spec_changes_for_step(*m, present@),
{
    let n: usize = present.len();
    match m {
        Migration::ToV2 => {
            let t: bool = n > 0 && present[0];
            let k: bool = n > 1 && present[1];
            let o: bool = n > 2 && present[2];
            v2_changes(t, k, o)
        },
        Migration::ToV3 => {
            let d: bool = n > 0 && present[0];
            v3_changes(d)
        },
        Migration::RecordLatestVersion => {
            let mut cs: Vec<SchemaChange> = Vec::new();
            cs.push(SchemaChange::SetVersion(LATEST_VERSION));
            assert(cs@ =~= seq![SchemaChange::SetVersion(LATEST_VERSION)]);
            cs
        },
    }
}

/// Whether the column names that `PRAGMA table_info` listed hold `column`.
pub fn has_column(names: &Vec<String>, column: &str) -> (r: bool)
    ensures
        r == exists|i: int| 0 <= i < names@.len() && #[trigger] names@[i]@ == column@,
{
    let n: usize = names.len();
    let mut i: usize = 0;
    while i < n
        invariant
            n == names@.len(),
            i <= n,
            forall|j: int| 0 <= j < i ==> #[trigger] names@[j]@ != column@,
        decreases n - i,
    {
        if same_text(names[i].as_str(), column) {
            return true;
        }
        i = i + 1;
    }
    false
}

/// The statement that lists the columns of `table`:
/// `PRAGMA table_info(table)`.
pub fn table_info_sql(table: &str) -> (sql: String)
    ensures
        sql@ == seq!['P', 'R', 'A', 'G', 'M', 'A', ' ', 't', 'a', 'b', 'l', 'e', '_', 'i', 'n', 'f', 'o', '(']
            + table@ + seq![')'],
{
    let mut sql = String::from_str("PRAGMA table_info(");
    proof {
        reveal_strlit("PRAGMA table_info(");
        reveal_strlit(")");
    }
    sql.append(table);
    sql.append(")");
    sql
}

/// The SQL text that records `v` as the schema version.
pub open spec fn set_version_text(v: i64) -> Seq<char> {
    seq!['P', 'R', 'A', 'G', 'M', 'A', ' ', 'u', 's', 'e', 'r', '_', 'v', 'e', 'r', 's', 'i', 'o', 'n', ' ', '=', ' ']
        + decimal(v as int) + seq![';']
}

/// The SQL text that makes a change.
pub open spec fn change_text(c: SchemaChange) -> Seq<char> {
    match c {
        SchemaChange::AddTitle => ADD_TITLE_SQL@,
        SchemaChange::AddKind => ADD_KIND_SQL@,
        SchemaChange::AddSortOrder => ADD_SORT_ORDER_SQL@,
        SchemaChange::CreateKindIndexes => KIND_INDEXES_SQL@,
        SchemaChange::AddNoteDate => ADD_NOTE_DATE_SQL@,
        SchemaChange::CreateNoteDateIndex => NOTE_DATE_INDEX_SQL@,
        SchemaChange::SetVersion(v) => set_version_text(v),
    }
}

/// The SQL text that records `v` as the schema version:
/// `PRAGMA user_version = v;`.
pub fn set_version_sql(v: i64) -> (sql: String)
    ensures
        sql@ == set_version_text(v),
{
    let mut sql = String::from_str("PRAGMA user_version = ");
    proof {
        reveal_strlit("PRAGMA user_version = ");
    }
    push_decimal(&mut sql, v);
    let end = ";";
    proof {
        reveal_strlit(";");
    }
    sql.append(end);
    assert(sql@ =~= set_version_text(v));
    sql
}

/// The SQL text that makes a change.
pub fn change_sql(c: &SchemaChange) -> (sql: String)
    ensures
        sql@ == change_text(*c),
        *c is AddTitle ==> sql@ == "ALTER TABLE notes ADD COLUMN title TEXT NOT NULL DEFAULT ''"@,
        *c is AddKind ==> sql@ == "ALTER TABLE notes ADD COLUMN kind TEXT NOT NULL DEFAULT 'memo'"@,
        *c is AddSortOrder ==> sql@
            == "ALTER TABLE notes ADD COLUMN sort_order INTEGER NOT NULL DEFAULT 0"@,
        *c is CreateKindIndexes ==> sql@
            == "CREATE INDEX IF NOT EXISTS idx_notes_kind ON notes(kind); CREATE INDEX IF NOT EXISTS idx_notes_pinned_upd ON notes(pinned DESC, updated_at DESC);"@,
        *c is AddNoteDate ==> sql@ == "ALTER TABLE notes ADD COLUMN note_date TEXT NULL"@,
        *c is CreateNoteDateIndex ==> sql@
            == "CREATE INDEX IF NOT EXISTS idx_notes_note_date ON notes(note_date) WHERE note_date IS NOT NULL;"@,
        forall|v: i64|
            *c == SchemaChange::SetVersion(v) ==> sql@ == "PRAGMA user_version = "@ + decimal(v as int)
                + ";"@,
{
    match c {
        SchemaChange::AddTitle => String::from_str(ADD_TITLE_SQL),
        SchemaChange::AddKind => String::from_str(ADD_KIND_SQL),
        SchemaChange::AddSortOrder => String::from_str(ADD_SORT_ORDER_SQL),
        SchemaChange::CreateKindIndexes => String::from_str(KIND_INDEXES_SQL),
        SchemaChange::AddNoteDate => String::from_str(ADD_NOTE_DATE_SQL),
        SchemaChange::CreateNoteDateIndex => String::from_str(NOTE_DATE_INDEX_SQL),
        SchemaChange::SetVersion(v) => {
            let sql = set_version_sql(*v);
            proof {
                reveal_strlit("PRAGMA user_version = ");
                reveal_strlit(";");
                assert(sql@ =~= "PRAGMA user_version = "@ + decimal(*v as int) + ";"@);
            }
            sql
        },
    }
}

proof fn lemma_v2_step(s: SchemaModel)
    ensures
        apply_changes(s, spec_v2_changes(s.title, s.kind, s.sort_order)) == (SchemaModel {
            title: true,
            kind: true,
            sort_order: true,
            kind_indexes: true,
            ..s
        }),
        all_applicable(s, spec_v2_changes(s.title, s.kind, s.sort_order)),
{
    reveal_with_fuel(apply_changes, 5);
    reveal_with_fuel(all_applicable, 5);
    let cs = spec_v2_changes(s.title, s.kind, s.sort_order);
    if s.title && s.kind && s.sort_order {
        assert(cs =~= seq![SchemaChange::CreateKindIndexes]);
    } else if s.title && s.kind && !s.sort_order {
        assert(cs =~= seq![SchemaChange::AddSortOrder, SchemaChange::CreateKindIndexes]);
    } else if s.title && !s.kind && s.sort_order {
        assert(cs =~= seq![SchemaChange::AddKind, SchemaChange::CreateKindIndexes]);
    } else if s.title && !s.kind && !s.sort_order {
        assert(cs =~= seq![
            SchemaChange::AddKind,
            SchemaChange::AddSortOrder,
            SchemaChange::CreateKindIndexes,
        ]);
    } else if !s.title && s.kind && s.sort_order {
        assert(cs =~= seq![SchemaChange::AddTitle, SchemaChange::CreateKindIndexes]);
    } else if !s.title && s.kind && !s.sort_order {
        assert(cs =~= seq![
            SchemaChange::AddTitle,
            SchemaChange::AddSortOrder,
            SchemaChange::CreateKindIndexes,
        ]);
    } else if !s.title && !s.kind && s.sort_order {
        assert(cs =~= seq![
            SchemaChange::AddTitle,
            SchemaChange::AddKind,
            SchemaChange::CreateKindIndexes,
        ]);
    } else {
        assert(cs =~= seq![
            SchemaChange::AddTitle,
            SchemaChange::AddKind,
            SchemaChange::AddSortOrder,
            SchemaChange::CreateKindIndexes,
        ]);
    }
}

proof fn lemma_v3_step(s: SchemaModel)
    ensures
        apply_changes(s, spec_v3_changes(s.note_date)) == (SchemaModel {
            note_date: true,
            note_date_index: true,
            ..s
        }),
        all_applicable(s, spec_v3_changes(s.note_date)),
{
    reveal_with_fuel(apply_changes, 3);
    reveal_with_fuel(all_applicable, 3);
    if s.note_date {
        assert(spec_v3_changes(s.note_date) =~= seq![SchemaChange::CreateNoteDateIndex]);
    } else {
        assert(spec_v3_changes(s.note_date) =~= seq![
            SchemaChange::AddNoteDate,
            SchemaChange::CreateNoteDateIndex,
        ]);
    }
}

proof fn lemma_record_step(s: SchemaModel)
    ensures
        apply_changes(s, step_changes(s, Migration::RecordLatestVersion)) == (SchemaModel {
            version: LATEST_VERSION,
            ..s
        }),
        all_applicable(s, step_changes(s, Migration::RecordLatestVersion)),
{
    reveal_with_fuel(apply_changes, 2);
    reveal_with_fuel(all_applicable, 2);
}

/// What a run of the migrations does to a schema: nothing at the latest
/// version or beyond; below it, the version 2 columns and indexes where the
/// version is below 2, the version 3 column and index, and the latest
/// version recorded. Every other part of the schema stays as it was.
pub proof fn lemma_migration_result(s: SchemaModel)
    ensures
        migrated(s) == (if s.version >= LATEST_VERSION {
            s
        } else if s.version < 2 {
            SchemaModel {
                version: LATEST_VERSION,
                title: true,
                kind: true,
                sort_order: true,
                note_date: true,
                kind_indexes: true,
                note_date_index: true,
            }
        } else {
            SchemaModel { version: LATEST_VERSION, note_date: true, note_date_index: true, ..s }
        }),
        steps_applicable(s, spec_migration_steps(s.version)),
{
    reveal_with_fuel(run_steps, 4);
    reveal_with_fuel(steps_applicable, 4);
    let ms = spec_migration_steps(s.version);
    if s.version >= LATEST_VERSION {
    } else if s.version < 2 {
        lemma_v2_step(s);
        let s1 = apply_changes(s, step_changes(s, Migration::ToV2));
        lemma_v3_step(s1);
        let s2 = apply_changes(s1, step_changes(s1, Migration::ToV3));
        lemma_record_step(s2);
        assert(ms.drop_first() =~= seq![Migration::ToV3, Migration::RecordLatestVersion]);
        assert(ms.drop_first().drop_first() =~= seq![Migration::RecordLatestVersion]);
        assert(ms.drop_first().drop_first().drop_first() =~= Seq::<Migration>::empty());
    } else {
        lemma_v3_step(s);
        let s1 = apply_changes(s, step_changes(s, Migration::ToV3));
        lemma_record_step(s1);
        assert(ms.drop_first() =~= seq![Migration::RecordLatestVersion]);
        assert(ms.drop_first().drop_first() =~= Seq::<Migration>::empty());
    }
}

/// Running the migrations a second time changes nothing.
pub proof fn lemma_migration_idempotent(s: SchemaModel)
    ensures
        migrated(migrated(s)) == migrated(s),
{
    lemma_migration_result(s);
    lemma_migration_result(migrated(s));
}

/// A database below the latest version ends at the latest version, with the
/// `note_date` column and its index, and, where it was below version 2, the
/// `title`, `kind` and `sort_order` columns and their indexes.
pub proof fn lemma_migration_reaches_latest(s: SchemaModel)
    requires
        s.version < LATEST_VERSION,
    ensures
        migrated(s).version == LATEST_VERSION,
        migrated(s).note_date,
        migrated(s).note_date_index,
        s.version < 2 ==> migrated(s).title && migrated(s).kind && migrated(s).sort_order
            && migrated(s).kind_indexes,
{
    lemma_migration_result(s);
}

/// The migrations only add: a column or index that exists before a run
/// exists after it.
pub proof fn lemma_migration_only_adds(s: SchemaModel)
    ensures
        s.title ==> migrated(s).title,
        s.kind ==> migrated(s).kind,
        s.sort_order ==> migrated(s).sort_order,
        s.note_date ==> migrated(s).note_date,
        s.kind_indexes ==> migrated(s).kind_indexes,
        s.note_date_index ==> migrated(s).note_date_index,
{
    lemma_migration_result(s);
}

/// A run never adds a column that exists at that point, so no statement it
/// issues is refused for a duplicate column.
pub proof fn lemma_migration_never_adds_twice(s: SchemaModel)
    ensures
        steps_applicable(s, spec_migration_steps(s.version)),
{
    lemma_migration_result(s);
}

/// What the column lookups of a step find on the schema `s`, in the order
/// of `spec_columns_to_check`.
pub open spec fn looked_up(s: SchemaModel, m: Migration) -> Seq<bool> {
    match m {
        Migration::ToV2 => seq![s.title, s.kind, s.sort_order],
        Migration::ToV3 => seq![s.note_date],
        Migration::RecordLatestVersion => Seq::empty(),
    }
}

/// Fed with what its lookups find on a schema, `changes_for_step` plans
/// exactly the changes of that step on that schema, so a run driven by
/// `migration_steps`, `columns_to_check` and `changes_for_step` is the run
/// that `migrated` describes.
pub proof fn lemma_step_plan_matches_model(s: SchemaModel, m: Migration)
    ensures
        looked_up(s, m).len() == spec_columns_to_check(m).len(),
        spec_changes_for_step(m, looked_up(s, m)) == step_changes(s, m),
{
}

/// The statement of each schema change: the version 2 columns are added as
/// NOT NULL with their defaults (`''`, `'memo'`, 0), `note_date` as a
/// nullable text column with no default, the indexes only where missing, and
/// the version recorded as `PRAGMA user_version = v;` in decimal.
pub proof fn lemma_change_statements(v: i64)
    ensures
        change_text(SchemaChange::AddTitle) == "ALTER TABLE notes ADD COLUMN title TEXT NOT NULL DEFAULT ''"@,
        change_text(SchemaChange::AddKind) == "ALTER TABLE notes ADD COLUMN kind TEXT NOT NULL DEFAULT 'memo'"@,
        change_text(SchemaChange::AddSortOrder)
            == "ALTER TABLE notes ADD COLUMN sort_order INTEGER NOT NULL DEFAULT 0"@,
        change_text(SchemaChange::CreateKindIndexes)
            == "CREATE INDEX IF NOT EXISTS idx_notes_kind ON notes(kind); CREATE INDEX IF NOT EXISTS idx_notes_pinned_upd ON notes(pinned DESC, updated_at DESC);"@,
        change_text(SchemaChange::AddNoteDate) == "ALTER TABLE notes ADD COLUMN note_date TEXT NULL"@,
        change_text(SchemaChange::CreateNoteDateIndex)
            == "CREATE INDEX IF NOT EXISTS idx_notes_note_date ON notes(note_date) WHERE note_date IS NOT NULL;"@,
        change_text(SchemaChange::SetVersion(v)) == "PRAGMA user_version = "@ + decimal(v as int)
            + ";"@,
{
    reveal_strlit("PRAGMA user_version = ");
    reveal_strlit(";");
    assert(change_text(SchemaChange::SetVersion(v)) =~= "PRAGMA user_version = "@ + decimal(v as int)
        + ";"@);
}

} // verus!
