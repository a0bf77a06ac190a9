use vstd::prelude::*;
use crate::json::{Json, JsonModel, is_str};
use crate::atom::{
    AtomModel, ScalarModel, atom_of, entries_of, entry_of, members_of, scalar_of,
};
use crate::encode::{atom_encoding, pair_encoding, scalar_encoding};
use crate::diff::{TableSpec, columns_of, tables_of};

verus! {

proof fn lemma_tags_differ()
    ensures
        "uuid"@ != "named-uuid"@,
        "uuid"@ != "set"@,
        "uuid"@ != "map"@,
        "named-uuid"@ != "set"@,
        "named-uuid"@ != "map"@,
        "set"@ != "map"@,
{
    reveal_strlit("uuid");
    reveal_strlit("named-uuid");
    reveal_strlit("set");
    reveal_strlit("map");
    assert("uuid"@[0] != "named-uuid"@[0]);
    assert("uuid"@[0] != "set"@[0]);
    assert("uuid"@[0] != "map"@[0]);
    assert("named-uuid"@[0] != "set"@[0]);
    assert("named-uuid"@[0] != "map"@[0]);
    assert("set"@[0] != "map"@[0]);
}

proof fn lemma_str_view(j: Json, t: Seq<char>)
    requires
        j@ == JsonModel::Str(t),
    ensures
        is_str(j, t),
{
    match j {
        Json::Str(s) => {},
        Json::Array(v) => {},
        Json::Object(e) => {},
        _ => {},
    }
}

proof fn lemma_array_view(j: Json, s: Seq<JsonModel>)
    requires
        j@ == JsonModel::Array(s),
    ensures
        j is Array,
        j->Array_0@.len() == s.len(),
        forall|i: int| 0 <= i < s.len() ==> (#[trigger] j->Array_0@[i])@ == s[i],
{
    match j {
        Json::Array(v) => {
            assert forall|i: int| 0 <= i < s.len() implies (#[trigger] v@[i])@ == s[i] by {
                assert(j@->Array_0[i] == s[i]);
            }
        },
        Json::Object(e) => {},
        _ => {},
    }
}

proof fn lemma_scalar_round_trip(j: Json, s: ScalarModel)
    requires
        j@ == scalar_encoding(s),
    ensures
        scalar_of(j) == Ok::<ScalarModel, crate::atom::ErrorKind>(s),
{
    lemma_tags_differ();
    match s {
        ScalarModel::Uuid(u) => {
            lemma_array_view(j, seq![JsonModel::Str("uuid"@), JsonModel::Str(u)]);
            let v = j->Array_0;
            lemma_str_view(v@[0], "uuid"@);
            lemma_str_view(v@[1], u);
        },
        ScalarModel::NamedUuid(u) => {
            lemma_array_view(j, seq![JsonModel::Str("named-uuid"@), JsonModel::Str(u)]);
            let v = j->Array_0;
            lemma_str_view(v@[0], "named-uuid"@);
            lemma_str_view(v@[1], u);
        },
        _ => {},
    }
}

proof fn lemma_members_round_trip(items: Seq<Json>, m: Seq<ScalarModel>)
    requires
        items.len() == m.len(),
        forall|i: int| 0 <= i < items.len() ==> (#[trigger] items[i])@ == scalar_encoding(m[i]),
    ensures
        members_of(items) == Ok::<Seq<ScalarModel>, crate::atom::ErrorKind>(m),
    decreases items.len(),
{
    if items.len() > 0 {
        let n = items.len() - 1;
        assert(items[n]@ == scalar_encoding(m[n]));
        lemma_members_round_trip(items.drop_last(), m.drop_last());
        lemma_scalar_round_trip(items.last(), m.last());
        assert(m.drop_last().push(m.last()) =~= m);
    } else {
        assert(m =~= Seq::<ScalarModel>::empty());
    }
}

proof fn lemma_entries_round_trip(items: Seq<Json>, p: Seq<(ScalarModel, ScalarModel)>)
    requires
        items.len() == p.len(),
        forall|i: int| 0 <= i < items.len() ==> (#[trigger] items[i])@ == pair_encoding(p[i]),
    ensures
        entries_of(items) == Ok::<Seq<(ScalarModel, ScalarModel)>, crate::atom::ErrorKind>(p),
    decreases items.len(),
{
    if items.len() > 0 {
        let n = items.len() - 1;
        assert(items[n]@ == pair_encoding(p[n]));
        lemma_entries_round_trip(items.drop_last(), p.drop_last());
        lemma_array_view(items.last(), seq![scalar_encoding(p.last().0), scalar_encoding(p.last().1)]);
        let kv = items.last()->Array_0;
        lemma_scalar_round_trip(kv@[0], p.last().0);
        lemma_scalar_round_trip(kv@[1], p.last().1);
        assert(entry_of(items.last()) == Ok::<(ScalarModel, ScalarModel), crate::atom::ErrorKind>(p.last()));
        assert(p.drop_last().push(p.last()) =~= p);
    } else {
        assert(p =~= Seq::<(ScalarModel, ScalarModel)>::empty());
    }
}

/// A set whose wire form reads as the one-reference shorthand: two members,
/// the first of them the text `uuid` or `named-uuid`.
pub open spec fn reads_as_shorthand(a: AtomModel) -> bool {
    a is SetOf && a->SetOf_0.len() == 2 && (a->SetOf_0[0] == ScalarModel::Text("uuid"@)
        || a->SetOf_0[0] == ScalarModel::Text("named-uuid"@))
}

/// Decoding the wire form of a value gives the value back, for every value
/// whose wire form does not read as the one-reference set shorthand.
pub proof fn lemma_round_trip(a: AtomModel, j: Json)
    requires
        j@ == atom_encoding(a),
        !reads_as_shorthand(a),
    ensures
        atom_of(j) == Ok::<AtomModel, crate::atom::ErrorKind>(a),
{
    lemma_tags_differ();
    match a {
        AtomModel::Scalar(s) => {
            lemma_scalar_round_trip(j, s);
            match s {
                ScalarModel::Uuid(u) => {
                    lemma_array_view(j, seq![JsonModel::Str("uuid"@), JsonModel::Str(u)]);
                    lemma_str_view(j->Array_0@[0], "uuid"@);
                },
                ScalarModel::NamedUuid(u) => {
                    lemma_array_view(j, seq![JsonModel::Str("named-uuid"@), JsonModel::Str(u)]);
                    lemma_str_view(j->Array_0@[0], "named-uuid"@);
                },
                _ => {},
            }
        },
        AtomModel::SetOf(m) => {
            let enc = m.map_values(|s: ScalarModel| scalar_encoding(s));
            lemma_array_view(j, seq![JsonModel::Str("set"@), JsonModel::Array(enc)]);
            let v = j->Array_0;
            lemma_str_view(v@[0], "set"@);
            lemma_array_view(v@[1], enc);
            let items = v@[1]->Array_0;
            assert forall|i: int| 0 <= i < items@.len() implies (#[trigger] items@[i])@ == scalar_encoding(m[i]) by {
                assert(items@[i]@ == enc[i]);
            }
            if items@.len() == 2 {
                assert(items@[0]@ == scalar_encoding(m[0]));
                match items@[0] {
                    Json::Str(t) => {
                        assert(m[0] == ScalarModel::Text(t@));
                    },
                    _ => {},
                }
            }
            lemma_members_round_trip(items@, m);
        },
        AtomModel::MapOf(p) => {
            let enc = p.map_values(|q: (ScalarModel, ScalarModel)| pair_encoding(q));
            lemma_array_view(j, seq![JsonModel::Str("map"@), JsonModel::Array(enc)]);
            let v = j->Array_0;
            lemma_str_view(v@[0], "map"@);
            lemma_array_view(v@[1], enc);
            let items = v@[1]->Array_0;
            assert forall|i: int| 0 <= i < items@.len() implies (#[trigger] items@[i])@ == pair_encoding(p[i]) by {
                assert(items@[i]@ == enc[i]);
            }
            lemma_entries_round_trip(items@, p);
        },
    }
}

/// A set written as a bare `uuid` pair decodes as the set that holds that one
/// reference written out in full.
pub proof fn lemma_set_shorthand(short: Json, long: Json, x: Seq<char>)
    requires
        short@ == JsonModel::Array(
            seq![JsonModel::Str("set"@), JsonModel::Array(seq![JsonModel::Str("uuid"@), JsonModel::Str(x)])],
        ),
        long@ == JsonModel::Array(
            seq![
                JsonModel::Str("set"@),
                JsonModel::Array(seq![JsonModel::Array(seq![JsonModel::Str("uuid"@), JsonModel::Str(x)])]),
            ],
        ),
    ensures
        atom_of(short) == atom_of(long),
        atom_of(short) == Ok::<AtomModel, crate::atom::ErrorKind>(AtomModel::SetOf(seq![ScalarModel::Uuid(x)])),
{
    lemma_tags_differ();
    let a = AtomModel::SetOf(seq![ScalarModel::Uuid(x)]);
    let enc = seq![ScalarModel::Uuid(x)].map_values(|s: ScalarModel| scalar_encoding(s));
    assert(enc =~= seq![JsonModel::Array(seq![JsonModel::Str("uuid"@), JsonModel::Str(x)])]);
    lemma_round_trip(a, long);
    let pair = seq![JsonModel::Str("uuid"@), JsonModel::Str(x)];
    lemma_array_view(short, seq![JsonModel::Str("set"@), JsonModel::Array(pair)]);
    let v = short->Array_0;
    lemma_str_view(v@[0], "set"@);
    lemma_array_view(v@[1], pair);
    let items = v@[1]->Array_0;
    lemma_str_view(items@[0], "uuid"@);
    lemma_str_view(items@[1], x);
}

/// A table that no spec names, wherever it stands among the tables of a
/// database diff, changes nothing in what the diff decodes to.
pub proof fn lemma_unmodeled_table_ignored(
    entries: Seq<(String, Json)>,
    at: int,
    name: String,
    body: Json,
    specs: Seq<TableSpec>,
)
    requires
        0 <= at <= entries.len(),
        columns_of(specs, name@) is None,
    ensures
        tables_of(entries.insert(at, (name, body)), specs) == tables_of(entries, specs),
    decreases entries.len(),
{
    let longer = entries.insert(at, (name, body));
    if at == entries.len() {
        assert(longer.drop_last() =~= entries);
    } else {
        assert(longer.drop_last() =~= entries.drop_last().insert(at, (name, body)));
        assert(longer.last() == entries.last());
        lemma_unmodeled_table_ignored(entries.drop_last(), at, name, body, specs);
    }
}

} // verus!
