use vstd::prelude::*;
use crate::json::{Json, JsonModel};
use crate::atom::{
    Atom, AtomModel, DecodeError, DecodeFailure, ErrorKind, Scalar, ScalarModel, atom_of,
    decode_atom_kind,
};

verus! {

/// How the values of a column are to be decoded.
#[derive(Debug, Clone, Copy, PartialEq, Eq, Structural)]
pub enum ColumnShape {
    /// Any OVSDB value.
    Atom,
    /// One row reference, unwrapped to its UUID string.
    UuidRef,
    /// A set of row references; a single bare reference counts as a set of one.
    UuidSet,
    /// Passed through as the JSON value it is.
    Raw,
}

/// A column that the caller models, and its shape.
#[derive(Debug)]
pub struct ColumnSpec {
    pub name: String,
    pub shape: ColumnShape,
}

/// A decoded cell, in the form that its column's shape asks for.
#[derive(Debug, PartialEq)]
pub enum Cell {
    Atom(Atom),
    UuidRef(String),
    UuidSet(Vec<String>),
    Raw(Json),
}

pub enum CellModel {
    Atom(AtomModel),
    UuidRef(Seq<char>),
    UuidSet(Seq<Seq<char>>),
    Raw(JsonModel),
}

impl View for Cell {
    type V = CellModel;

    open spec fn view(&self) -> CellModel {
        match self {
            Cell::Atom(a) => CellModel::Atom(a@),
            Cell::UuidRef(s) => CellModel::UuidRef(s@),
            Cell::UuidSet(v) => CellModel::UuidSet(v@.map_values(|s: String| s@)),
            Cell::Raw(j) => CellModel::Raw(j@),
        }
    }
}

/// The reported columns of one half (old or new) of a row's change, in the
/// order in which they came. Columns that were not reported are absent.
#[derive(Debug, PartialEq)]
pub struct RowPart {
    pub columns: Vec<(String, Cell)>,
}

pub open spec fn cells_view(v: Seq<(String, Cell)>) -> Seq<(Seq<char>, CellModel)> {
    v.map_values(|c: (String, Cell)| (c.0@, c.1@))
}

impl View for RowPart {
    type V = Seq<(Seq<char>, CellModel)>;

    open spec fn view(&self) -> Seq<(Seq<char>, CellModel)> {
        cells_view(self.columns@)
    }
}

/// The shape of the first spec named `name`.
pub open spec fn shape_of(specs: Seq<ColumnSpec>, name: Seq<char>) -> Option<ColumnShape>
    decreases specs.len(),
{
    if specs.len() == 0 {
        None
    } else if specs[0].name@ == name {
        Some(specs[0].shape)
    } else {
        shape_of(specs.drop_first(), name)
    }
}

/// The value of the first column named `name`.
pub open spec fn cell_named(cells: Seq<(Seq<char>, CellModel)>, name: Seq<char>) -> Option<CellModel>
    decreases cells.len(),
{
    if cells.len() == 0 {
        None
    } else if cells[0].0 == name {
        Some(cells[0].1)
    } else {
        cell_named(cells.drop_first(), name)
    }
}

pub open spec fn is_ref(s: ScalarModel) -> bool {
    s is Uuid || s is NamedUuid
}

pub open spec fn ref_text(s: ScalarModel) -> Seq<char> {
    match s {
        ScalarModel::Uuid(t) => t,
        ScalarModel::NamedUuid(t) => t,
        _ => Seq::empty(),
    }
}

/// What a JSON value decodes to in a column of the given shape.
pub open spec fn cell_of(shape: ColumnShape, j: Json) -> Result<CellModel, ErrorKind> {
    match shape {
        ColumnShape::Raw => Ok(CellModel::Raw(j@)),
        ColumnShape::Atom => match atom_of(j) {
            Ok(a) => Ok(CellModel::Atom(a)),
            Err(e) => Err(e),
        },
        ColumnShape::UuidRef => match atom_of(j) {
            Ok(AtomModel::Scalar(s)) => if is_ref(s) {
                Ok(CellModel::UuidRef(ref_text(s)))
            } else {
                Err(ErrorKind::TypeMismatch)
            },
            Ok(_) => Err(ErrorKind::TypeMismatch),
            Err(e) => Err(e),
        },
        ColumnShape::UuidSet => match atom_of(j) {
            Ok(AtomModel::Scalar(s)) => if is_ref(s) {
                Ok(CellModel::UuidSet(seq![ref_text(s)]))
            } else {
                Err(ErrorKind::TypeMismatch)
            },
            Ok(AtomModel::SetOf(m)) => if forall|i: int| 0 <= i < m.len() ==> is_ref(#[trigger] m[i]) {
                Ok(CellModel::UuidSet(m.map_values(|s: ScalarModel| ref_text(s))))
            } else {
                Err(ErrorKind::TypeMismatch)
            },
            Ok(_) => Err(ErrorKind::TypeMismatch),
            Err(e) => Err(e),
        },
    }
}

/// The modelled members of a row object, decoded in order; members that no
/// spec names are left out. A failure carries the column's name.
pub open spec fn cells_of(entries: Seq<(String, Json)>, specs: Seq<ColumnSpec>) -> Result<
    Seq<(Seq<char>, CellModel)>,
    (Seq<char>, ErrorKind),
>
    decreases entries.len(),
{
    if entries.len() == 0 {
        Ok(Seq::empty())
    } else {
        match cells_of(entries.drop_last(), specs) {
            Err(e) => Err(e),
            Ok(done) => {
                let (name, value) = entries.last();
                match shape_of(specs, name@) {
                    None => Ok(done),
                    Some(shape) => match cell_of(shape, value) {
                        Err(e) => Err((name@, e)),
                        Ok(c) => Ok(done.push((name@, c))),
                    },
                }
            },
        }
    }
}

/// What a JSON value decodes to as a row part under the given column specs.
pub open spec fn row_part_of(j: Json, specs: Seq<ColumnSpec>) -> Result<
    Seq<(Seq<char>, CellModel)>,
    DecodeFailure,
> {
    match j {
        Json::Object(entries) => match cells_of(entries@, specs) {
            Ok(c) => Ok(c),
            Err((name, kind)) => Err(DecodeFailure { kind, table: None, row: None, column: Some(name) }),
        },
        _ => Err(DecodeFailure { kind: ErrorKind::TypeMismatch, table: None, row: None, column: None }),
    }
}

/// The shape of the first spec named `name`.
pub fn find_shape(specs: &Vec<ColumnSpec>, name: &String) -> (r: Option<ColumnShape>)
    ensures
        r == shape_of(specs@, name@),
{
    let mut i: usize = 0;
    proof {
        assert(specs@.skip(0) =~= specs@);
    }
    while i < specs.len()
        invariant
            i <= specs.len(),
            shape_of(specs@, name@) == shape_of(specs@.skip(i as int), name@),
        decreases specs.len() - i,
    {
        proof {
            assert(specs@.skip(i as int).drop_first() =~= specs@.skip(i + 1));
        }
        if specs[i].name == *name {
            return Some(specs[i].shape);
        }
        i = i + 1;
    }
    None
}


fn ref_string(s: &Scalar) -> (r: Option<String>)
    ensures
        match r {
            Some(t) => is_ref(s@) && t@ == ref_text(s@),
            None => !is_ref(s@),
        },
{
    match s {
        Scalar::Uuid(t) => Some(t.clone()),
        Scalar::NamedUuid(t) => Some(t.clone()),
        _ => None,
    }
}

fn ref_strings(m: &Vec<Scalar>) -> (r: Option<Vec<String>>)
    ensures
        match r {
            Some(v) => (forall|i: int| 0 <= i < m@.len() ==> is_ref(#[trigger] m@[i]@))
                && v@.map_values(|s: String| s@) == m@.map_values(|x: Scalar| x@).map_values(|s: ScalarModel| ref_text(s)),
            None => !(forall|i: int| 0 <= i < m@.len() ==> is_ref(#[trigger] m@[i]@)),
        },
{
    let mut out: Vec<String> = Vec::new();
    let mut i: usize = 0;
    while i < m.len()
        invariant
            i <= m.len(),
            out@.len() == i,
            forall|k: int| 0 <= k < i ==> is_ref(#[trigger] m@[k]@),
            forall|k: int| 0 <= k < i ==> (#[trigger] out@[k])@ == ref_text(m@[k]@),
        decreases m.len() - i,
    {
        match ref_string(&m[i]) {
            Some(t) => out.push(t),
            None => return None,
        }
        i = i + 1;
    }
    proof {
        assert(out@.map_values(|s: String| s@) =~= m@.map_values(|x: Scalar| x@).map_values(|s: ScalarModel| ref_text(s)));
    }
    Some(out)
}

/// Decodes a JSON value as a cell of a column of the given shape.
pub fn decode_cell(shape: ColumnShape, j: &Json) -> (r: Result<Cell, ErrorKind>)
    ensures
        match r {
            Ok(c) => cell_of(shape, *j) == Ok::<CellModel, ErrorKind>(c@),
            Err(e) => cell_of(shape, *j) == Err::<CellModel, ErrorKind>(e),
        },
{
    match shape {
        ColumnShape::Raw => Ok(Cell::Raw(j.copy())),
        ColumnShape::Atom => match decode_atom_kind(j) {
            Ok(a) => Ok(Cell::Atom(a)),
            Err(e) => Err(e),
        },
        ColumnShape::UuidRef => match decode_atom_kind(j) {
            Ok(Atom::Scalar(s)) => match ref_string(&s) {
                Some(t) => Ok(Cell::UuidRef(t)),
                None => Err(ErrorKind::TypeMismatch),
            },
            Ok(_) => Err(ErrorKind::TypeMismatch),
            Err(e) => Err(e),
        },
        ColumnShape::UuidSet => match decode_atom_kind(j) {
            Ok(Atom::Scalar(s)) => match ref_string(&s) {
                Some(t) => {
                    let ghost tv = t@;
                    let v = vec![t];
                    proof {
                        assert(v@.map_values(|s: String| s@) =~= seq![tv]);
                    }
                    Ok(Cell::UuidSet(v))
                },
                None => Err(ErrorKind::TypeMismatch),
            },
            Ok(Atom::SetOf(m)) => {
                let ghost mm = m@.map_values(|x: Scalar| x@);
                proof {
                    assert(forall|i: int| 0 <= i < m@.len() ==> mm[i] == (#[trigger] m@[i])@);
                    assert((forall|i: int| 0 <= i < m@.len() ==> is_ref(#[trigger] m@[i]@))
                        == (forall|i: int| 0 <= i < mm.len() ==> is_ref(#[trigger] mm[i])));
                }
                match ref_strings(&m) {
                    Some(v) => Ok(Cell::UuidSet(v)),
                    None => Err(ErrorKind::TypeMismatch),
                }
            },
            Ok(_) => Err(ErrorKind::TypeMismatch),
            Err(e) => Err(e),
        },
    }
}

proof fn lemma_cells_failed(entries: Seq<(String, Json)>, specs: Seq<ColumnSpec>, n: int)
    requires
        0 <= n <= entries.len(),
        cells_of(entries.take(n), specs) is Err,
    ensures
        cells_of(entries, specs) == cells_of(entries.take(n), specs),
    decreases entries.len(),
{
    if entries.len() == n {
        assert(entries.take(n) =~= entries);
    } else {
        assert(entries.drop_last().take(n) =~= entries.take(n));
        lemma_cells_failed(entries.drop_last(), specs, n);
    }
}

/// Decodes one half (old or new) of a row's change: a JSON object whose members
/// named in `specs` are decoded by their shapes. Other members are ignored, and
/// columns not reported stay absent. A failure names its column.
pub fn decode_row_part(j: &Json, specs: &Vec<ColumnSpec>) -> (r: Result<RowPart, DecodeError>)
    ensures
        match r {
            Ok(p) => row_part_of(*j, specs@) == Ok::<Seq<(Seq<char>, CellModel)>, DecodeFailure>(p@),
            Err(e) => row_part_of(*j, specs@) == Err::<Seq<(Seq<char>, CellModel)>, DecodeFailure>(e@),
        },
{
    let entries = match j {
        Json::Object(entries) => entries,
        _ => return Err(DecodeError::new(ErrorKind::TypeMismatch)),
    };
    let mut out: Vec<(String, Cell)> = Vec::new();
    let mut i: usize = 0;
    proof {
        assert(entries@.take(0).len() == 0);
        assert(cells_view(out@) =~= Seq::<(Seq<char>, CellModel)>::empty());
    }
    while i < entries.len()
        invariant
            i <= entries.len(),
            *j == Json::Object(*entries),
            cells_of(entries@.take(i as int), specs@)
                == Ok::<Seq<(Seq<char>, CellModel)>, (Seq<char>, ErrorKind)>(cells_view(out@)),
        decreases entries.len() - i,
    {
        proof {
            assert(entries@.take(i + 1).drop_last() =~= entries@.take(i as int));
            assert(entries@.take(i + 1).last() == entries@[i as int]);
        }
        let name = &entries[i].0;
        match find_shape(specs, name) {
            None => {},
            Some(shape) => match decode_cell(shape, &entries[i].1) {
                Ok(c) => {
                    let ghost prev = out@;
                    let n = name.clone();
                    let ghost item = (n@, c@);
                    out.push((n, c));
                    proof {
                        assert(cells_view(out@) =~= cells_view(prev).push(item));
                    }
                },
                Err(kind) => {
                    proof {
                        lemma_cells_failed(entries@, specs@, i + 1);
                    }
                    return Err(DecodeError { kind, table: None, row: None, column: Some(name.clone()) });
                },
            },
        }
        i = i + 1;
    }
    proof {
        assert(entries@.take(entries.len() as int) =~= entries@);
    }
    Ok(RowPart { columns: out })
}

impl RowPart {
    /// The value reported for the column `name`, if it was reported.
    pub fn get(&self, name: &str) -> (r: Option<&Cell>)
        ensures
            match r {
                Some(c) => cell_named(self@, name@) == Some(c@),
                None => cell_named(self@, name@) is None,
            },
    {
        let k = String::from_str(name);
        let mut i: usize = 0;
        proof {
            assert(self@.skip(0) =~= self@);
        }
        while i < self.columns.len()
            invariant
                i <= self.columns.len(),
                k@ == name@,
                cell_named(self@, name@) == cell_named(self@.skip(i as int), name@),
            decreases self.columns.len() - i,
        {
            proof {
                assert(self@.skip(i as int).drop_first() =~= self@.skip(i + 1));
            }
            if self.columns[i].0 == k {
                return Some(&self.columns[i].1);
            }
            i = i + 1;
        }
        None
    }
}

} // verus!

