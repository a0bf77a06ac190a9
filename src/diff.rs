use vstd::prelude::*;
use crate::json::{Json, find_member, member};
use crate::atom::{DecodeError, DecodeFailure, ErrorKind, bare};
use crate::row::{CellModel, ColumnSpec, RowPart, decode_row_part, row_part_of};

verus! {

/// A table that the caller models, with its columns.
#[derive(Debug)]
pub struct TableSpec {
    pub name: String,
    pub columns: Vec<ColumnSpec>,
}

/// How a row changed in one update.
#[derive(Debug, Clone, Copy, PartialEq, Eq, Structural)]
pub enum ChangeKind {
    /// Only `new` was reported: the row appeared.
    Insert,
    /// Only `old` was reported: the row went away.
    Delete,
    /// Both were reported: the columns in `new` now hold the values given there.
    Modify,
}

/// The change of one row: at least one of `old` and `new` is present.
#[derive(Debug, PartialEq)]
pub struct RowDiff {
    pub uuid: String,
    pub old: Option<RowPart>,
    pub new: Option<RowPart>,
}

pub type PartModel = Seq<(Seq<char>, CellModel)>;

pub struct RowDiffModel {
    pub uuid: Seq<char>,
    pub old: Option<PartModel>,
    pub new: Option<PartModel>,
}

pub open spec fn part_view(p: Option<RowPart>) -> Option<PartModel> {
    match p {
        Some(r) => Some(r@),
        None => None,
    }
}

impl View for RowDiff {
    type V = RowDiffModel;

    open spec fn view(&self) -> RowDiffModel {
        RowDiffModel { uuid: self.uuid@, old: part_view(self.old), new: part_view(self.new) }
    }
}

/// The changed rows of one table in one update.
#[derive(Debug, PartialEq)]
pub struct TableDiff {
    pub name: String,
    pub rows: Vec<RowDiff>,
}

pub struct TableDiffModel {
    pub name: Seq<char>,
    pub rows: Seq<RowDiffModel>,
}

impl View for TableDiff {
    type V = TableDiffModel;

    open spec fn view(&self) -> TableDiffModel {
        TableDiffModel { name: self.name@, rows: self.rows@.map_values(|r: RowDiff| r@) }
    }
}

/// The changes that one monitor result or one update notification carries,
/// for the tables that the caller models.
#[derive(Debug, PartialEq)]
pub struct DatabaseDiff {
    pub tables: Vec<TableDiff>,
}

impl View for DatabaseDiff {
    type V = Seq<TableDiffModel>;

    open spec fn view(&self) -> Seq<TableDiffModel> {
        self.tables@.map_values(|t: TableDiff| t@)
    }
}

/// The classification of a row's change, which follows from which halves are present.
pub open spec fn change_kind(old_present: bool, new_present: bool) -> ChangeKind {
    if !old_present {
        ChangeKind::Insert
    } else if !new_present {
        ChangeKind::Delete
    } else {
        ChangeKind::Modify
    }
}

pub open spec fn old_key() -> Seq<char> {
    "old"@
}

pub open spec fn new_key() -> Seq<char> {
    "new"@
}

/// The member `key` of a row entry; a `null` counts as absent.
pub open spec fn half_of(entries: Seq<(String, Json)>, key: Seq<char>) -> Option<Json> {
    match member(entries, key) {
        Some(Json::Null) => None,
        other => other,
    }
}

pub open spec fn in_row(f: DecodeFailure, uuid: Seq<char>) -> DecodeFailure {
    DecodeFailure { kind: f.kind, table: f.table, row: Some(uuid), column: f.column }
}

pub open spec fn in_table(f: DecodeFailure, name: Seq<char>) -> DecodeFailure {
    DecodeFailure { kind: f.kind, table: Some(name), row: f.row, column: f.column }
}

pub open spec fn half_part_of(h: Option<Json>, cols: Seq<ColumnSpec>) -> Result<Option<PartModel>, DecodeFailure> {
    match h {
        None => Ok(None),
        Some(j) => match row_part_of(j, cols) {
            Ok(p) => Ok(Some(p)),
            Err(f) => Err(f),
        },
    }
}

/// What the entry of row `uuid` decodes to.
pub open spec fn row_diff_of(uuid: Seq<char>, j: Json, cols: Seq<ColumnSpec>) -> Result<RowDiffModel, DecodeFailure> {
    match j {
        Json::Object(entries) => {
            let o = half_of(entries@, old_key());
            let n = half_of(entries@, new_key());
            if o is None && n is None {
                Err(in_row(bare(ErrorKind::MissingRowDiff), uuid))
            } else {
                match half_part_of(o, cols) {
                    Err(f) => Err(in_row(f, uuid)),
                    Ok(op) => match half_part_of(n, cols) {
                        Err(f) => Err(in_row(f, uuid)),
                        Ok(np) => Ok(RowDiffModel { uuid, old: op, new: np }),
                    },
                }
            }
        },
        _ => Err(in_row(bare(ErrorKind::TypeMismatch), uuid)),
    }
}

/// The rows of a table object, decoded in order; the first failure wins.
pub open spec fn rows_of(entries: Seq<(String, Json)>, cols: Seq<ColumnSpec>) -> Result<Seq<RowDiffModel>, DecodeFailure>
    decreases entries.len(),
{
    if entries.len() == 0 {
        Ok(Seq::empty())
    } else {
        match rows_of(entries.drop_last(), cols) {
            Err(f) => Err(f),
            Ok(done) => match row_diff_of(entries.last().0@, entries.last().1, cols) {
                Err(f) => Err(f),
                Ok(r) => Ok(done.push(r)),
            },
        }
    }
}

/// What the entry of table `name` decodes to.
pub open spec fn table_of(name: Seq<char>, j: Json, cols: Seq<ColumnSpec>) -> Result<TableDiffModel, DecodeFailure> {
    match j {
        Json::Object(entries) => match rows_of(entries@, cols) {
            Err(f) => Err(in_table(f, name)),
            Ok(rows) => Ok(TableDiffModel { name, rows }),
        },
        _ => Err(in_table(bare(ErrorKind::TypeMismatch), name)),
    }
}

/// The columns of the first table spec named `name`.
pub open spec fn columns_of(specs: Seq<TableSpec>, name: Seq<char>) -> Option<Seq<ColumnSpec>>
    decreases specs.len(),
{
    if specs.len() == 0 {
        None
    } else if specs[0].name@ == name {
        Some(specs[0].columns@)
    } else {
        columns_of(specs.drop_first(), name)
    }
}

/// The modelled tables of a database diff, decoded in order; tables that no
/// spec names are left out.
pub open spec fn tables_of(entries: Seq<(String, Json)>, specs: Seq<TableSpec>) -> Result<Seq<TableDiffModel>, DecodeFailure>
    decreases entries.len(),
{
    if entries.len() == 0 {
        Ok(Seq::empty())
    } else {
        match tables_of(entries.drop_last(), specs) {
            Err(f) => Err(f),
            Ok(done) => match columns_of(specs, entries.last().0@) {
                None => Ok(done),
                Some(cols) => match table_of(entries.last().0@, entries.last().1, cols) {
                    Err(f) => Err(f),
                    Ok(t) => Ok(done.push(t)),
                },
            },
        }
    }
}

/// What a database diff object decodes to under the given table specs.
pub open spec fn database_of(j: Json, specs: Seq<TableSpec>) -> Result<Seq<TableDiffModel>, DecodeFailure> {
    match j {
        Json::Object(entries) => tables_of(entries@, specs),
        _ => Err(bare(ErrorKind::TypeMismatch)),
    }
}


fn with_row(e: DecodeError, uuid: &String) -> (r: DecodeError)
    ensures
        r@ == in_row(e@, uuid@),
{
    DecodeError { kind: e.kind, table: e.table, row: Some(uuid.clone()), column: e.column }
}

fn with_table(e: DecodeError, name: &String) -> (r: DecodeError)
    ensures
        r@ == in_table(e@, name@),
{
    DecodeError { kind: e.kind, table: Some(name.clone()), row: e.row, column: e.column }
}

/// Index of the member `key`, unless it is absent or `null`.
fn find_half(entries: &Vec<(String, Json)>, key: &str) -> (r: Option<usize>)
    ensures
        match r {
            Some(i) => i < entries.len() && half_of(entries@, key@) == Some(entries@[i as int].1),
            None => half_of(entries@, key@) is None,
        },
{
    match find_member(entries, key) {
        Some(i) => match &entries[i].1 {
            Json::Null => None,
            _ => Some(i),
        },
        None => None,
    }
}

fn decode_half(entries: &Vec<(String, Json)>, at: Option<usize>, cols: &Vec<ColumnSpec>) -> (r: Result<Option<RowPart>, DecodeError>)
    requires
        at matches Some(i) ==> i < entries.len(),
    ensures
        half_part_of(
            match at {
                Some(i) => Some(entries@[i as int].1),
                None => None,
            },
            cols@,
        ) == match r {
            Ok(p) => Ok::<Option<PartModel>, DecodeFailure>(part_view(p)),
            Err(e) => Err::<Option<PartModel>, DecodeFailure>(e@),
        },
{
    match at {
        None => Ok(None),
        Some(i) => match decode_row_part(&entries[i].1, cols) {
            Ok(p) => Ok(Some(p)),
            Err(e) => Err(e),
        },
    }
}

/// Decodes the entry of row `uuid`: an object with an optional `old` and an
/// optional `new` row part, at least one of them present.
pub fn decode_row_diff(uuid: &String, j: &Json, cols: &Vec<ColumnSpec>) -> (r: Result<RowDiff, DecodeError>)
    ensures
        match r {
            Ok(d) => row_diff_of(uuid@, *j, cols@) == Ok::<RowDiffModel, DecodeFailure>(d@),
            Err(e) => row_diff_of(uuid@, *j, cols@) == Err::<RowDiffModel, DecodeFailure>(e@),
        },
{
    let entries = match j {
        Json::Object(entries) => entries,
        _ => return Err(with_row(DecodeError::new(ErrorKind::TypeMismatch), uuid)),
    };
    let o = find_half(entries, "old");
    let n = find_half(entries, "new");
    if o.is_none() && n.is_none() {
        return Err(with_row(DecodeError::new(ErrorKind::MissingRowDiff), uuid));
    }
    let old = match decode_half(entries, o, cols) {
        Ok(p) => p,
        Err(e) => return Err(with_row(e, uuid)),
    };
    let new = match decode_half(entries, n, cols) {
        Ok(p) => p,
        Err(e) => return Err(with_row(e, uuid)),
    };
    Ok(RowDiff { uuid: uuid.clone(), old, new })
}

proof fn lemma_rows_failed(entries: Seq<(String, Json)>, cols: Seq<ColumnSpec>, n: int)
    requires
        0 <= n <= entries.len(),
        rows_of(entries.take(n), cols) is Err,
    ensures
        rows_of(entries, cols) == rows_of(entries.take(n), cols),
    decreases entries.len(),
{
    if entries.len() == n {
        assert(entries.take(n) =~= entries);
    } else {
        assert(entries.drop_last().take(n) =~= entries.take(n));
        lemma_rows_failed(entries.drop_last(), cols, n);
    }
}

proof fn lemma_tables_failed(entries: Seq<(String, Json)>, specs: Seq<TableSpec>, n: int)
    requires
        0 <= n <= entries.len(),
        tables_of(entries.take(n), specs) is Err,
    ensures
        tables_of(entries, specs) == tables_of(entries.take(n), specs),
    decreases entries.len(),
{
    if entries.len() == n {
        assert(entries.take(n) =~= entries);
    } else {
        assert(entries.drop_last().take(n) =~= entries.take(n));
        lemma_tables_failed(entries.drop_last(), specs, n);
    }
}

/// Decodes the entry of table `name`: an object from row UUID to row entry.
pub fn decode_table_diff(name: &String, j: &Json, cols: &Vec<ColumnSpec>) -> (r: Result<TableDiff, DecodeError>)
    ensures
        match r {
            Ok(t) => table_of(name@, *j, cols@) == Ok::<TableDiffModel, DecodeFailure>(t@),
            Err(e) => table_of(name@, *j, cols@) == Err::<TableDiffModel, DecodeFailure>(e@),
        },
{
    let entries = match j {
        Json::Object(entries) => entries,
        _ => return Err(with_table(DecodeError::new(ErrorKind::TypeMismatch), name)),
    };
    let mut rows: Vec<RowDiff> = Vec::new();
    let mut i: usize = 0;
    proof {
        assert(entries@.take(0).len() == 0);
        assert(rows@.map_values(|r: RowDiff| r@) =~= Seq::<RowDiffModel>::empty());
    }
    while i < entries.len()
        invariant
            i <= entries.len(),
            *j == Json::Object(*entries),
            rows_of(entries@.take(i as int), cols@)
                == Ok::<Seq<RowDiffModel>, DecodeFailure>(rows@.map_values(|r: RowDiff| r@)),
        decreases entries.len() - i,
    {
        proof {
            assert(entries@.take(i + 1).drop_last() =~= entries@.take(i as int));
            assert(entries@.take(i + 1).last() == entries@[i as int]);
        }
        match decode_row_diff(&entries[i].0, &entries[i].1, cols) {
            Ok(d) => {
                let ghost prev = rows@;
                let ghost dm = d@;
                rows.push(d);
                proof {
                    assert(rows@.map_values(|r: RowDiff| r@) =~= prev.map_values(|r: RowDiff| r@).push(dm));
                }
            },
            Err(e) => {
                proof {
                    lemma_rows_failed(entries@, cols@, i + 1);
                }
                return Err(with_table(e, name));
            },
        }
        i = i + 1;
    }
    proof {
        assert(entries@.take(entries.len() as int) =~= entries@);
    }
    Ok(TableDiff { name: name.clone(), rows })
}

/// Index of the first table spec named `name`.
fn find_table(specs: &Vec<TableSpec>, name: &String) -> (r: Option<usize>)
    ensures
        match r {
            Some(i) => i < specs.len() && columns_of(specs@, name@) == Some(specs@[i as int].columns@),
            None => columns_of(specs@, name@) is None,
        },
{
    let mut i: usize = 0;
    proof {
        assert(specs@.skip(0) =~= specs@);
    }
    while i < specs.len()
        invariant
            i <= specs.len(),
            columns_of(specs@, name@) == columns_of(specs@.skip(i as int), name@),
        decreases specs.len() - i,
    {
        proof {
            assert(specs@.skip(i as int).drop_first() =~= specs@.skip(i + 1));
        }
        if specs[i].name == *name {
            return Some(i);
        }
        i = i + 1;
    }
    None
}

/// Decodes a database diff: an object from table name to table entry. Tables
/// that no spec names are left out; the others are decoded by their columns.
pub fn decode_database_diff(j: &Json, specs: &Vec<TableSpec>) -> (r: Result<DatabaseDiff, DecodeError>)
    ensures
        match r {
            Ok(d) => database_of(*j, specs@) == Ok::<Seq<TableDiffModel>, DecodeFailure>(d@),
            Err(e) => database_of(*j, specs@) == Err::<Seq<TableDiffModel>, DecodeFailure>(e@),
        },
{
    let entries = match j {
        Json::Object(entries) => entries,
        _ => return Err(DecodeError::new(ErrorKind::TypeMismatch)),
    };
    let mut tables: Vec<TableDiff> = Vec::new();
    let mut i: usize = 0;
    proof {
        assert(entries@.take(0).len() == 0);
        assert(tables@.map_values(|t: TableDiff| t@) =~= Seq::<TableDiffModel>::empty());
    }
    while i < entries.len()
        invariant
            i <= entries.len(),
            *j == Json::Object(*entries),
            tables_of(entries@.take(i as int), specs@)
                == Ok::<Seq<TableDiffModel>, DecodeFailure>(tables@.map_values(|t: TableDiff| t@)),
        decreases entries.len() - i,
    {
        proof {
            assert(entries@.take(i + 1).drop_last() =~= entries@.take(i as int));
            assert(entries@.take(i + 1).last() == entries@[i as int]);
        }
        match find_table(specs, &entries[i].0) {
            None => {},
            Some(k) => match decode_table_diff(&entries[i].0, &entries[i].1, &specs[k].columns) {
                Ok(t) => {
                    let ghost prev = tables@;
                    let ghost tm = t@;
                    tables.push(t);
                    proof {
                        assert(tables@.map_values(|t: TableDiff| t@) =~= prev.map_values(|t: TableDiff| t@).push(tm));
                    }
                },
                Err(e) => {
                    proof {
                        lemma_tables_failed(entries@, specs@, i + 1);
                    }
                    return Err(e);
                },
            },
        }
        i = i + 1;
    }
    proof {
        assert(entries@.take(entries.len() as int) =~= entries@);
    }
    Ok(DatabaseDiff { tables })
}

impl RowDiff {
    /// Whether the row was inserted, deleted or modified.
    pub fn kind(&self) -> (r: ChangeKind)
        requires
            self.old is Some || self.new is Some,
        ensures
            r == change_kind(self.old is Some, self.new is Some),
    {
        if self.old.is_none() {
            ChangeKind::Insert
        } else if self.new.is_none() {
            ChangeKind::Delete
        } else {
            ChangeKind::Modify
        }
    }
}

} // verus!

