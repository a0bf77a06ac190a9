use vstd::prelude::*;
use crate::json::{Json, is_str, str_is};

verus! {

/// Why a value could not be decoded.
#[derive(Debug, Clone, Copy, PartialEq, Eq, Structural)]
pub enum ErrorKind {
    /// A tagged pair, a map entry or a notification had the wrong element count.
    InvalidLength,
    /// A two-element array whose first element is none of the reserved tags.
    UnknownEncoding,
    /// A `uuid` or `named-uuid` pair whose second element is not a string.
    MalformedUuid,
    /// A value of a shape other than the one expected where it stands.
    TypeMismatch,
    /// A notification for a subscription other than the active one.
    UnknownSubscription,
    /// A row entry with neither `old` nor `new`.
    MissingRowDiff,
}

/// A decoding failure, with the table, row and column where it happened, where known.
#[derive(Debug, PartialEq)]
pub struct DecodeError {
    pub kind: ErrorKind,
    pub table: Option<String>,
    pub row: Option<String>,
    pub column: Option<String>,
}

pub struct DecodeFailure {
    pub kind: ErrorKind,
    pub table: Option<Seq<char>>,
    pub row: Option<Seq<char>>,
    pub column: Option<Seq<char>>,
}

pub open spec fn opt_text(o: Option<String>) -> Option<Seq<char>> {
    match o {
        Some(s) => Some(s@),
        None => None,
    }
}

impl View for DecodeError {
    type V = DecodeFailure;

    open spec fn view(&self) -> DecodeFailure {
        DecodeFailure {
            kind: self.kind,
            table: opt_text(self.table),
            row: opt_text(self.row),
            column: opt_text(self.column),
        }
    }
}

/// A failure with no context.
pub open spec fn bare(kind: ErrorKind) -> DecodeFailure {
    DecodeFailure { kind, table: None, row: None, column: None }
}

impl DecodeError {
    /// A failure of the given kind, with no context yet.
    pub fn new(kind: ErrorKind) -> (r: DecodeError)
        ensures
            r@ == bare(kind),
    {
        DecodeError { kind, table: None, row: None, column: None }
    }
}

/// A single OVSDB value: never a set or a map.
#[derive(Debug, PartialEq)]
pub enum Scalar {
    Bool(bool),
    /// A number, as its decimal text.
    Number(String),
    Text(String),
    Uuid(String),
    NamedUuid(String),
}

/// A decoded OVSDB value. Sets and maps hold scalars only: OVSDB values are shallow.
#[derive(Debug, PartialEq)]
pub enum Atom {
    Scalar(Scalar),
    SetOf(Vec<Scalar>),
    MapOf(Vec<(Scalar, Scalar)>),
}

pub enum ScalarModel {
    Bool(bool),
    Number(Seq<char>),
    Text(Seq<char>),
    Uuid(Seq<char>),
    NamedUuid(Seq<char>),
}

pub enum AtomModel {
    Scalar(ScalarModel),
    SetOf(Seq<ScalarModel>),
    MapOf(Seq<(ScalarModel, ScalarModel)>),
}

impl View for Scalar {
    type V = ScalarModel;

    open spec fn view(&self) -> ScalarModel {
        match self {
            Scalar::Bool(b) => ScalarModel::Bool(*b),
            Scalar::Number(n) => ScalarModel::Number(n@),
            Scalar::Text(s) => ScalarModel::Text(s@),
            Scalar::Uuid(s) => ScalarModel::Uuid(s@),
            Scalar::NamedUuid(s) => ScalarModel::NamedUuid(s@),
        }
    }
}

impl View for Atom {
    type V = AtomModel;

    open spec fn view(&self) -> AtomModel {
        match self {
            Atom::Scalar(s) => AtomModel::Scalar(s@),
            Atom::SetOf(items) => AtomModel::SetOf(items@.map_values(|x: Scalar| x@)),
            Atom::MapOf(pairs) => AtomModel::MapOf(
                pairs@.map_values(|p: (Scalar, Scalar)| (p.0@, p.1@)),
            ),
        }
    }
}

pub open spec fn uuid_tag() -> Seq<char> {
    "uuid"@
}

pub open spec fn named_uuid_tag() -> Seq<char> {
    "named-uuid"@
}

pub open spec fn set_tag() -> Seq<char> {
    "set"@
}

pub open spec fn map_tag() -> Seq<char> {
    "map"@
}

/// `j` is `"uuid"` or `"named-uuid"`.
pub open spec fn is_ref_tag(j: Json) -> bool {
    is_str(j, uuid_tag()) || is_str(j, named_uuid_tag())
}

/// A tagged pair `[tag, payload]` in a position where only a scalar may stand.
pub open spec fn scalar_pair_of(tag: Json, payload: Json) -> Result<ScalarModel, ErrorKind> {
    if is_str(tag, uuid_tag()) {
        match payload {
            Json::Str(s) => Ok(ScalarModel::Uuid(s@)),
            _ => Err(ErrorKind::MalformedUuid),
        }
    } else if is_str(tag, named_uuid_tag()) {
        match payload {
            Json::Str(s) => Ok(ScalarModel::NamedUuid(s@)),
            _ => Err(ErrorKind::MalformedUuid),
        }
    } else if is_str(tag, set_tag()) || is_str(tag, map_tag()) {
        Err(ErrorKind::TypeMismatch)
    } else {
        Err(ErrorKind::UnknownEncoding)
    }
}

/// What a JSON value decodes to where only a scalar may stand.
pub open spec fn scalar_of(j: Json) -> Result<ScalarModel, ErrorKind> {
    match j {
        Json::Bool(b) => Ok(ScalarModel::Bool(b)),
        Json::Number(n) => Ok(ScalarModel::Number(n@)),
        Json::Str(s) => Ok(ScalarModel::Text(s@)),
        Json::Array(v) => if v@.len() != 2 {
            Err(ErrorKind::InvalidLength)
        } else {
            scalar_pair_of(v@[0], v@[1])
        },
        _ => Err(ErrorKind::TypeMismatch),
    }
}

/// The members of a set, each a scalar; the first failure in order wins.
pub open spec fn members_of(items: Seq<Json>) -> Result<Seq<ScalarModel>, ErrorKind>
    decreases items.len(),
{
    if items.len() == 0 {
        Ok(Seq::empty())
    } else {
        match members_of(items.drop_last()) {
            Err(e) => Err(e),
            Ok(done) => match scalar_of(items.last()) {
                Err(e) => Err(e),
                Ok(s) => Ok(done.push(s)),
            },
        }
    }
}

/// One `[key, value]` entry of a map.
pub open spec fn entry_of(j: Json) -> Result<(ScalarModel, ScalarModel), ErrorKind> {
    match j {
        Json::Array(kv) => if kv@.len() != 2 {
            Err(ErrorKind::InvalidLength)
        } else {
            match scalar_of(kv@[0]) {
                Err(e) => Err(e),
                Ok(k) => match scalar_of(kv@[1]) {
                    Err(e) => Err(e),
                    Ok(v) => Ok((k, v)),
                },
            }
        },
        _ => Err(ErrorKind::TypeMismatch),
    }
}

/// The entries of a map, in order; the first failure wins.
pub open spec fn entries_of(items: Seq<Json>) -> Result<Seq<(ScalarModel, ScalarModel)>, ErrorKind>
    decreases items.len(),
{
    if items.len() == 0 {
        Ok(Seq::empty())
    } else {
        match entries_of(items.drop_last()) {
            Err(e) => Err(e),
            Ok(done) => match entry_of(items.last()) {
                Err(e) => Err(e),
                Ok(p) => Ok(done.push(p)),
            },
        }
    }
}

/// The payload of a `set` pair. A bare `uuid` or `named-uuid` pair in its place
/// stands for the set of that one reference.
pub open spec fn set_payload_of(payload: Json) -> Result<AtomModel, ErrorKind> {
    match payload {
        Json::Array(items) => if items@.len() == 2 && is_ref_tag(items@[0]) {
            match scalar_pair_of(items@[0], items@[1]) {
                Err(e) => Err(e),
                Ok(s) => Ok(AtomModel::SetOf(seq![s])),
            }
        } else {
            match members_of(items@) {
                Err(e) => Err(e),
                Ok(m) => Ok(AtomModel::SetOf(m)),
            }
        },
        _ => Err(ErrorKind::TypeMismatch),
    }
}

/// The payload of a `map` pair.
pub open spec fn map_payload_of(payload: Json) -> Result<AtomModel, ErrorKind> {
    match payload {
        Json::Array(items) => match entries_of(items@) {
            Err(e) => Err(e),
            Ok(m) => Ok(AtomModel::MapOf(m)),
        },
        _ => Err(ErrorKind::TypeMismatch),
    }
}

/// What a JSON value decodes to as an OVSDB value.
pub open spec fn atom_of(j: Json) -> Result<AtomModel, ErrorKind> {
    match j {
        Json::Array(v) => if v@.len() == 2 && is_str(v@[0], set_tag()) {
            set_payload_of(v@[1])
        } else if v@.len() == 2 && is_str(v@[0], map_tag()) {
            map_payload_of(v@[1])
        } else {
            match scalar_of(j) {
                Err(e) => Err(e),
                Ok(s) => Ok(AtomModel::Scalar(s)),
            }
        },
        _ => match scalar_of(j) {
            Err(e) => Err(e),
            Ok(s) => Ok(AtomModel::Scalar(s)),
        },
    }
}

pub open spec fn scalar_result(r: Result<Scalar, ErrorKind>) -> Result<ScalarModel, ErrorKind> {
    match r {
        Ok(s) => Ok(s@),
        Err(e) => Err(e),
    }
}

pub open spec fn atom_result(r: Result<Atom, ErrorKind>) -> Result<AtomModel, ErrorKind> {
    match r {
        Ok(a) => Ok(a@),
        Err(e) => Err(e),
    }
}

fn decode_scalar_pair(tag: &Json, payload: &Json) -> (r: Result<Scalar, ErrorKind>)
    ensures
        scalar_result(r) == scalar_pair_of(*tag, *payload),
{
    if str_is(tag, "uuid") {
        match payload {
            Json::Str(s) => Ok(Scalar::Uuid(s.clone())),
            _ => Err(ErrorKind::MalformedUuid),
        }
    } else if str_is(tag, "named-uuid") {
        match payload {
            Json::Str(s) => Ok(Scalar::NamedUuid(s.clone())),
            _ => Err(ErrorKind::MalformedUuid),
        }
    } else if str_is(tag, "set") || str_is(tag, "map") {
        Err(ErrorKind::TypeMismatch)
    } else {
        Err(ErrorKind::UnknownEncoding)
    }
}

/// Decodes a value that must be a scalar: a bare boolean, number or string,
/// or a `uuid` / `named-uuid` pair.
pub fn decode_scalar(j: &Json) -> (r: Result<Scalar, ErrorKind>)
    ensures
        scalar_result(r) == scalar_of(*j),
{
    match j {
        Json::Bool(b) => Ok(Scalar::Bool(*b)),
        Json::Number(n) => Ok(Scalar::Number(n.clone())),
        Json::Str(s) => Ok(Scalar::Text(s.clone())),
        Json::Array(v) => {
            if v.len() != 2 {
                Err(ErrorKind::InvalidLength)
            } else {
                decode_scalar_pair(&v[0], &v[1])
            }
        },
        _ => Err(ErrorKind::TypeMismatch),
    }
}


proof fn lemma_members_failed(items: Seq<Json>, n: int)
    requires
        0 <= n <= items.len(),
        members_of(items.take(n)) is Err,
    ensures
        members_of(items) == members_of(items.take(n)),
    decreases items.len(),
{
    if items.len() == n {
        assert(items.take(n) =~= items);
    } else {
        assert(items.drop_last().take(n) =~= items.take(n));
        lemma_members_failed(items.drop_last(), n);
    }
}

proof fn lemma_entries_failed(items: Seq<Json>, n: int)
    requires
        0 <= n <= items.len(),
        entries_of(items.take(n)) is Err,
    ensures
        entries_of(items) == entries_of(items.take(n)),
    decreases items.len(),
{
    if items.len() == n {
        assert(items.take(n) =~= items);
    } else {
        assert(items.drop_last().take(n) =~= items.take(n));
        lemma_entries_failed(items.drop_last(), n);
    }
}

fn decode_members(items: &Vec<Json>) -> (r: Result<Vec<Scalar>, ErrorKind>)
    ensures
        match r {
            Ok(v) => members_of(items@) == Ok::<Seq<ScalarModel>, ErrorKind>(v@.map_values(|x: Scalar| x@)),
            Err(e) => members_of(items@) == Err::<Seq<ScalarModel>, ErrorKind>(e),
        },
{
    let mut out: Vec<Scalar> = Vec::new();
    let mut i: usize = 0;
    proof {
        assert(items@.take(0).len() == 0);
        assert(out@.map_values(|x: Scalar| x@) =~= Seq::<ScalarModel>::empty());
    }
    while i < items.len()
        invariant
            i <= items.len(),
            members_of(items@.take(i as int)) == Ok::<Seq<ScalarModel>, ErrorKind>(out@.map_values(|x: Scalar| x@)),
        decreases items.len() - i,
    {
        proof {
            assert(items@.take(i + 1).drop_last() =~= items@.take(i as int));
        }
        match decode_scalar(&items[i]) {
            Ok(s) => {
                let ghost prev = out@;
                out.push(s);
                proof {
                    assert(out@.map_values(|x: Scalar| x@) =~= prev.map_values(|x: Scalar| x@).push(s@));
                }
            },
            Err(e) => {
                proof {
                    lemma_members_failed(items@, i + 1);
                }
                return Err(e);
            },
        }
        i = i + 1;
    }
    proof {
        assert(items@.take(items.len() as int) =~= items@);
    }
    Ok(out)
}


fn decode_entry(j: &Json) -> (r: Result<(Scalar, Scalar), ErrorKind>)
    ensures
        match r {
            Ok(p) => entry_of(*j) == Ok::<(ScalarModel, ScalarModel), ErrorKind>((p.0@, p.1@)),
            Err(e) => entry_of(*j) == Err::<(ScalarModel, ScalarModel), ErrorKind>(e),
        },
{
    match j {
        Json::Array(kv) => {
            if kv.len() != 2 {
                return Err(ErrorKind::InvalidLength);
            }
            let k = match decode_scalar(&kv[0]) {
                Ok(k) => k,
                Err(e) => return Err(e),
            };
            let v = match decode_scalar(&kv[1]) {
                Ok(v) => v,
                Err(e) => return Err(e),
            };
            Ok((k, v))
        },
        _ => Err(ErrorKind::TypeMismatch),
    }
}

fn decode_entries(items: &Vec<Json>) -> (r: Result<Vec<(Scalar, Scalar)>, ErrorKind>)
    ensures
        match r {
            Ok(v) => entries_of(items@) == Ok::<Seq<(ScalarModel, ScalarModel)>, ErrorKind>(
                v@.map_values(|p: (Scalar, Scalar)| (p.0@, p.1@)),
            ),
            Err(e) => entries_of(items@) == Err::<Seq<(ScalarModel, ScalarModel)>, ErrorKind>(e),
        },
{
    let mut out: Vec<(Scalar, Scalar)> = Vec::new();
    let mut i: usize = 0;
    proof {
        assert(items@.take(0).len() == 0);
        assert(out@.map_values(|p: (Scalar, Scalar)| (p.0@, p.1@)) =~= Seq::<(ScalarModel, ScalarModel)>::empty());
    }
    while i < items.len()
        invariant
            i <= items.len(),
            entries_of(items@.take(i as int)) == Ok::<Seq<(ScalarModel, ScalarModel)>, ErrorKind>(
                out@.map_values(|p: (Scalar, Scalar)| (p.0@, p.1@)),
            ),
        decreases items.len() - i,
    {
        proof {
            assert(items@.take(i + 1).drop_last() =~= items@.take(i as int));
        }
        match decode_entry(&items[i]) {
            Ok(p) => {
                let ghost prev = out@;
                let ghost pm = (p.0@, p.1@);
                out.push(p);
                proof {
                    assert(out@.map_values(|p: (Scalar, Scalar)| (p.0@, p.1@))
                        =~= prev.map_values(|p: (Scalar, Scalar)| (p.0@, p.1@)).push(pm));
                }
            },
            Err(e) => {
                proof {
                    lemma_entries_failed(items@, i + 1);
                }
                return Err(e);
            },
        }
        i = i + 1;
    }
    proof {
        assert(items@.take(items.len() as int) =~= items@);
    }
    Ok(out)
}

fn decode_set_payload(payload: &Json) -> (r: Result<Atom, ErrorKind>)
    ensures
        atom_result(r) == set_payload_of(*payload),
{
    match payload {
        Json::Array(items) => {
            if items.len() == 2 && (str_is(&items[0], "uuid") || str_is(&items[0], "named-uuid")) {
                match decode_scalar_pair(&items[0], &items[1]) {
                    Ok(s) => {
                        let ghost sm = s@;
                        let v = vec![s];
                        let r = Atom::SetOf(v);
                        proof {
                            assert(r@->SetOf_0 =~= seq![sm]);
                        }
                        Ok(r)
                    },
                    Err(e) => Err(e),
                }
            } else {
                match decode_members(items) {
                    Ok(m) => Ok(Atom::SetOf(m)),
                    Err(e) => Err(e),
                }
            }
        },
        _ => Err(ErrorKind::TypeMismatch),
    }
}

fn decode_map_payload(payload: &Json) -> (r: Result<Atom, ErrorKind>)
    ensures
        atom_result(r) == map_payload_of(*payload),
{
    match payload {
        Json::Array(items) => match decode_entries(items) {
            Ok(m) => Ok(Atom::MapOf(m)),
            Err(e) => Err(e),
        },
        _ => Err(ErrorKind::TypeMismatch),
    }
}

/// Decodes an OVSDB-encoded value, reporting only why it failed.
pub fn decode_atom_kind(j: &Json) -> (r: Result<Atom, ErrorKind>)
    ensures
        atom_result(r) == atom_of(*j),
{
    if let Json::Array(v) = j {
        if v.len() == 2 && str_is(&v[0], "set") {
            return decode_set_payload(&v[1]);
        } else if v.len() == 2 && str_is(&v[0], "map") {
            return decode_map_payload(&v[1]);
        }
    }
    match decode_scalar(j) {
        Ok(s) => Ok(Atom::Scalar(s)),
        Err(e) => Err(e),
    }
}


/// Decodes an OVSDB-encoded value: a bare boolean, number or string, or a
/// `["uuid", _]`, `["named-uuid", _]`, `["set", [...]]` or `["map", [[k, v], ...]]` pair.
pub fn decode_atom(j: &Json) -> (r: Result<Atom, DecodeError>)
    ensures
        match r {
            Ok(a) => atom_of(*j) == Ok::<AtomModel, ErrorKind>(a@),
            Err(e) => atom_of(*j) == Err::<AtomModel, ErrorKind>(e.kind) && e@ == bare(e.kind),
        },
{
    match decode_atom_kind(j) {
        Ok(a) => Ok(a),
        Err(k) => Err(DecodeError::new(k)),
    }
}

} // verus!



