use vstd::prelude::*;
use crate::json::{Json, JsonModel, is_str};
use crate::atom::{DecodeError, DecodeFailure, ErrorKind, bare};
use crate::row::ColumnSpec;
use crate::diff::{DatabaseDiff, TableDiffModel, TableSpec, database_of, decode_database_diff};

verus! {

pub open spec fn columns_key() -> Seq<char> {
    "columns"@
}

/// The request for one table: `{"columns": [<name>, ...]}`.
pub open spec fn table_request(cols: Seq<ColumnSpec>) -> JsonModel {
    JsonModel::Object(
        seq![(columns_key(), JsonModel::Array(cols.map_values(|c: ColumnSpec| JsonModel::Str(c.name@))))],
    )
}

/// The parameters of a `monitor` request: `[<db>, <key>, {<table>: {"columns": [...]}, ...}]`.
pub open spec fn monitor_params_model(db: Seq<char>, key: Seq<char>, tables: Seq<TableSpec>) -> JsonModel {
    JsonModel::Array(
        seq![
            JsonModel::Str(db),
            JsonModel::Str(key),
            JsonModel::Object(tables.map_values(|t: TableSpec| (t.name@, table_request(t.columns@)))),
        ],
    )
}

/// What the parameters of an `update` notification decode to while `key` is
/// the active subscription.
pub open spec fn update_of(params: Json, key: Seq<char>, specs: Seq<TableSpec>) -> Result<Seq<TableDiffModel>, DecodeFailure> {
    match params {
        Json::Array(v) => if v@.len() != 2 {
            Err(bare(ErrorKind::InvalidLength))
        } else if !is_str(v@[0], key) {
            Err(bare(ErrorKind::UnknownSubscription))
        } else {
            database_of(v@[1], specs)
        },
        _ => Err(bare(ErrorKind::TypeMismatch)),
    }
}

fn table_request_json(cols: &Vec<ColumnSpec>) -> (r: Json)
    ensures
        r@ == table_request(cols@),
{
    let mut names: Vec<Json> = Vec::new();
    let mut i: usize = 0;
    while i < cols.len()
        invariant
            i <= cols.len(),
            names@.len() == i,
            forall|k: int| 0 <= k < i ==> (#[trigger] names@[k])@ == JsonModel::Str(cols@[k].name@),
        decreases cols.len() - i,
    {
        names.push(Json::Str(cols[i].name.clone()));
        i = i + 1;
    }
    let list = Json::Array(names);
    proof {
        assert(list@->Array_0 =~= cols@.map_values(|c: ColumnSpec| JsonModel::Str(c.name@)));
    }
    let r = Json::Object(vec![(String::from_str("columns"), list)]);
    proof {
        assert(r@->Object_0 =~= table_request(cols@)->Object_0);
    }
    r
}

/// Builds the parameters of a `monitor` request on database `db` under the
/// subscription key `key`, asking for the columns of each table spec.
pub fn monitor_params(db: &String, key: &String, tables: &Vec<TableSpec>) -> (r: Json)
    ensures
        r@ == monitor_params_model(db@, key@, tables@),
{
    let mut entries: Vec<(String, Json)> = Vec::new();
    let mut i: usize = 0;
    while i < tables.len()
        invariant
            i <= tables.len(),
            entries@.len() == i,
            forall|k: int| 0 <= k < i ==> (#[trigger] entries@[k]).0@ == tables@[k].name@
                && entries@[k].1@ == table_request(tables@[k].columns@),
        decreases tables.len() - i,
    {
        let req = table_request_json(&tables[i].columns);
        entries.push((tables[i].name.clone(), req));
        i = i + 1;
    }
    let body = Json::Object(entries);
    proof {
        assert(body@->Object_0 =~= tables@.map_values(|t: TableSpec| (t.name@, table_request(t.columns@))));
    }
    let ghost bm = body@;
    let items = vec![Json::Str(db.clone()), Json::Str(key.clone()), body];
    proof {
        assert(items@[0]@ == JsonModel::Str(db@));
        assert(items@[1]@ == JsonModel::Str(key@));
        assert(items@[2]@ == bm);
        assert(items@.len() == 3);
    }
    let r = Json::Array(items);
    proof {
        assert(r@->Array_0 =~= monitor_params_model(db@, key@, tables@)->Array_0);
    }
    r
}

/// Decodes the parameters `[<key>, <database diff>]` of an `update`
/// notification, provided that `<key>` is the active subscription key.
pub fn decode_update(params: &Json, active_key: &String, specs: &Vec<TableSpec>) -> (r: Result<DatabaseDiff, DecodeError>)
    ensures
        match r {
            Ok(d) => update_of(*params, active_key@, specs@) == Ok::<Seq<TableDiffModel>, DecodeFailure>(d@),
            Err(e) => update_of(*params, active_key@, specs@) == Err::<Seq<TableDiffModel>, DecodeFailure>(e@),
        },
{
    match params {
        Json::Array(v) => {
            if v.len() != 2 {
                return Err(DecodeError::new(ErrorKind::InvalidLength));
            }
            let matches_key = match &v[0] {
                Json::Str(k) => *k == *active_key,
                _ => false,
            };
            if !matches_key {
                return Err(DecodeError::new(ErrorKind::UnknownSubscription));
            }
            decode_database_diff(&v[1], specs)
        },
        _ => Err(DecodeError::new(ErrorKind::TypeMismatch)),
    }
}

} // verus!
