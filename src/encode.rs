use vstd::prelude::*;
use crate::json::{Json, JsonModel};
use crate::atom::{Atom, AtomModel, Scalar, ScalarModel};

verus! {

/// The wire form of a scalar.
pub open spec fn scalar_encoding(s: ScalarModel) -> JsonModel {
    match s {
        ScalarModel::Bool(b) => JsonModel::Bool(b),
        ScalarModel::Number(n) => JsonModel::Number(n),
        ScalarModel::Text(t) => JsonModel::Str(t),
        ScalarModel::Uuid(u) => JsonModel::Array(seq![JsonModel::Str("uuid"@), JsonModel::Str(u)]),
        ScalarModel::NamedUuid(u) => JsonModel::Array(seq![JsonModel::Str("named-uuid"@), JsonModel::Str(u)]),
    }
}

pub open spec fn pair_encoding(p: (ScalarModel, ScalarModel)) -> JsonModel {
    JsonModel::Array(seq![scalar_encoding(p.0), scalar_encoding(p.1)])
}

/// The wire form of a value: sets and maps always as tagged pairs.
pub open spec fn atom_encoding(a: AtomModel) -> JsonModel {
    match a {
        AtomModel::Scalar(s) => scalar_encoding(s),
        AtomModel::SetOf(m) => JsonModel::Array(
            seq![JsonModel::Str("set"@), JsonModel::Array(m.map_values(|s: ScalarModel| scalar_encoding(s)))],
        ),
        AtomModel::MapOf(p) => JsonModel::Array(
            seq![JsonModel::Str("map"@), JsonModel::Array(p.map_values(|q: (ScalarModel, ScalarModel)| pair_encoding(q)))],
        ),
    }
}

fn tagged(tag: &str, payload: Json) -> (r: Json)
    ensures
        r@ == JsonModel::Array(seq![JsonModel::Str(tag@), payload@]),
{
    let ghost pm = payload@;
    let t = Json::Str(String::from_str(tag));
    let items = vec![t, payload];
    proof {
        assert(items@[0]@ == JsonModel::Str(tag@));
        assert(items@[1]@ == pm);
    }
    let r = Json::Array(items);
    proof {
        assert(r@->Array_0 =~= seq![JsonModel::Str(tag@), pm]);
    }
    r
}

/// The wire form of a scalar.
pub fn encode_scalar(s: &Scalar) -> (r: Json)
    ensures
        r@ == scalar_encoding(s@),
{
    match s {
        Scalar::Bool(b) => Json::Bool(*b),
        Scalar::Number(n) => Json::Number(n.clone()),
        Scalar::Text(t) => Json::Str(t.clone()),
        Scalar::Uuid(u) => tagged("uuid", Json::Str(u.clone())),
        Scalar::NamedUuid(u) => tagged("named-uuid", Json::Str(u.clone())),
    }
}

/// The wire form of a value, as OVSDB writes it.
pub fn encode_atom(a: &Atom) -> (r: Json)
    ensures
        r@ == atom_encoding(a@),
{
    match a {
        Atom::Scalar(s) => encode_scalar(s),
        Atom::SetOf(m) => {
            let mut out: Vec<Json> = Vec::new();
            let mut i: usize = 0;
            while i < m.len()
                invariant
                    i <= m.len(),
                    out@.len() == i,
                    forall|k: int| 0 <= k < i ==> (#[trigger] out@[k])@ == scalar_encoding(m@[k]@),
                decreases m.len() - i,
            {
                out.push(encode_scalar(&m[i]));
                i = i + 1;
            }
            let list = Json::Array(out);
            proof {
                assert(list@->Array_0 =~= m@.map_values(|x: Scalar| x@).map_values(|s: ScalarModel| scalar_encoding(s)));
            }
            tagged("set", list)
        },
        Atom::MapOf(p) => {
            let mut out: Vec<Json> = Vec::new();
            let mut i: usize = 0;
            while i < p.len()
                invariant
                    i <= p.len(),
                    out@.len() == i,
                    forall|k: int| 0 <= k < i ==> (#[trigger] out@[k])@ == pair_encoding((p@[k].0@, p@[k].1@)),
                decreases p.len() - i,
            {
                let k = encode_scalar(&p[i].0);
                let v = encode_scalar(&p[i].1);
                let ghost km = k@;
                let ghost vm = v@;
                let kv = vec![k, v];
                proof {
                    assert(kv@[0]@ == km);
                    assert(kv@[1]@ == vm);
                }
                let e = Json::Array(kv);
                proof {
                    assert(e@->Array_0 =~= seq![km, vm]);
                }
                out.push(e);
                i = i + 1;
            }
            let list = Json::Array(out);
            proof {
                assert(list@->Array_0 =~= p@.map_values(|q: (Scalar, Scalar)| (q.0@, q.1@)).map_values(
                    |q: (ScalarModel, ScalarModel)| pair_encoding(q),
                ));
            }
            tagged("map", list)
        },
    }
}

} // verus!
