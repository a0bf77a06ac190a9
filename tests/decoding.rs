use ovsdb_monitor::atom::{decode_atom, Atom, ErrorKind, Scalar};
use ovsdb_monitor::diff::{decode_database_diff, decode_row_diff, ChangeKind, TableSpec};
use ovsdb_monitor::encode::encode_atom;
use ovsdb_monitor::json::Json;
use ovsdb_monitor::row::{decode_row_part, Cell, ColumnShape, ColumnSpec};
use ovsdb_monitor::rpc::{jsonrpc_result, JsonRpcError, JsonRpcResult, RpcFailure};
use ovsdb_monitor::session::{decode_update, monitor_params};

fn s(t: &str) -> Json {
    Json::Str(t.to_string())
}

fn arr(items: Vec<Json>) -> Json {
    Json::Array(items)
}

fn obj(entries: Vec<(&str, Json)>) -> Json {
    Json::Object(entries.into_iter().map(|(k, v)| (k.to_string(), v)).collect())
}

fn num(n: &str) -> Json {
    Json::Number(n.to_string())
}

fn col(name: &str, shape: ColumnShape) -> ColumnSpec {
    ColumnSpec { name: name.to_string(), shape }
}

fn switch_columns() -> Vec<ColumnSpec> {
    vec![
        col("name", ColumnShape::Atom),
        col("ports", ColumnShape::UuidSet),
        col("tunnel_ips", ColumnShape::Atom),
        col("tunnels", ColumnShape::UuidSet),
    ]
}

fn vtep_specs() -> Vec<TableSpec> {
    vec![
        TableSpec { name: "Physical_Switch".to_string(), columns: switch_columns() },
        TableSpec {
            name: "Tunnel".to_string(),
            columns: vec![col("local", ColumnShape::UuidRef), col("remote", ColumnShape::UuidRef)],
        },
    ]
}

fn text(t: &str) -> Atom {
    Atom::Scalar(Scalar::Text(t.to_string()))
}

#[test]
fn round_trip_of_every_shape() {
    let atoms = vec![
        Atom::Scalar(Scalar::Bool(true)),
        Atom::Scalar(Scalar::Number("42".to_string())),
        text("sw1"),
        Atom::Scalar(Scalar::Uuid("u-1".to_string())),
        Atom::Scalar(Scalar::NamedUuid("row1".to_string())),
        Atom::SetOf(vec![]),
        Atom::SetOf(vec![Scalar::Uuid("a".to_string()), Scalar::Uuid("b".to_string())]),
        Atom::SetOf(vec![Scalar::Text("x".to_string())]),
        Atom::MapOf(vec![
            (Scalar::Text("k".to_string()), Scalar::Number("1".to_string())),
            (Scalar::Text("k".to_string()), Scalar::Uuid("u".to_string())),
        ]),
    ];
    for a in atoms {
        let j = encode_atom(&a);
        assert_eq!(decode_atom(&j), Ok(a));
    }
}

#[test]
fn encoding_of_uuid_is_tagged_pair() {
    let j = encode_atom(&Atom::Scalar(Scalar::Uuid("x".to_string())));
    assert_eq!(j, arr(vec![s("uuid"), s("x")]));
    let m = encode_atom(&Atom::MapOf(vec![(Scalar::Text("a".to_string()), Scalar::Bool(false))]));
    assert_eq!(m, arr(vec![s("map"), arr(vec![arr(vec![s("a"), Json::Bool(false)])])]));
}

#[test]
fn empty_set_is_empty_sequence() {
    let j = arr(vec![s("set"), arr(vec![])]);
    assert_eq!(decode_atom(&j), Ok(Atom::SetOf(vec![])));
}

#[test]
fn singleton_set_shorthand() {
    let short = arr(vec![s("set"), arr(vec![s("uuid"), s("x")])]);
    let long = arr(vec![s("set"), arr(vec![arr(vec![s("uuid"), s("x")])])]);
    let a = decode_atom(&short);
    assert_eq!(a, decode_atom(&long));
    assert_eq!(a, Ok(Atom::SetOf(vec![Scalar::Uuid("x".to_string())])));
}

#[test]
fn unknown_tag_and_bad_length() {
    let bogus = arr(vec![s("bogus"), num("1")]);
    assert_eq!(decode_atom(&bogus).unwrap_err().kind, ErrorKind::UnknownEncoding);
    let three = arr(vec![num("1"), num("2"), num("3")]);
    assert_eq!(decode_atom(&three).unwrap_err().kind, ErrorKind::InvalidLength);
}

#[test]
fn malformed_uuid_and_mismatches() {
    let bad = arr(vec![s("uuid"), num("5")]);
    assert_eq!(decode_atom(&bad).unwrap_err().kind, ErrorKind::MalformedUuid);
    let named = arr(vec![s("named-uuid"), Json::Bool(true)]);
    assert_eq!(decode_atom(&named).unwrap_err().kind, ErrorKind::MalformedUuid);
    assert_eq!(decode_atom(&Json::Null).unwrap_err().kind, ErrorKind::TypeMismatch);
    let set_of_scalar = arr(vec![s("set"), s("x")]);
    assert_eq!(decode_atom(&set_of_scalar).unwrap_err().kind, ErrorKind::TypeMismatch);
    let nested = arr(vec![s("set"), arr(vec![arr(vec![s("set"), arr(vec![])])])]);
    assert_eq!(decode_atom(&nested).unwrap_err().kind, ErrorKind::TypeMismatch);
    let short_entry = arr(vec![s("map"), arr(vec![arr(vec![s("k")])])]);
    assert_eq!(decode_atom(&short_entry).unwrap_err().kind, ErrorKind::InvalidLength);
}

#[test]
fn named_uuid_is_tolerated() {
    let j = arr(vec![s("named-uuid"), s("row7")]);
    assert_eq!(decode_atom(&j), Ok(Atom::Scalar(Scalar::NamedUuid("row7".to_string()))));
}

#[test]
fn row_part_ignores_unknown_columns() {
    let j = obj(vec![("name", s("sw1")), ("description", s("d")), ("ports", arr(vec![s("uuid"), s("p1")]))]);
    let part = decode_row_part(&j, &switch_columns()).unwrap();
    assert_eq!(part.columns.len(), 2);
    assert_eq!(part.get("name"), Some(&Cell::Atom(text("sw1"))));
    assert_eq!(part.get("ports"), Some(&Cell::UuidSet(vec!["p1".to_string()])));
    assert_eq!(part.get("description"), None);
    assert_eq!(part.get("tunnels"), None);
}

#[test]
fn row_part_failure_names_column() {
    let j = obj(vec![("name", s("sw1")), ("ports", s("not-a-set"))]);
    let e = decode_row_part(&j, &switch_columns()).unwrap_err();
    assert_eq!(e.kind, ErrorKind::TypeMismatch);
    assert_eq!(e.column, Some("ports".to_string()));
}

#[test]
fn uuid_ref_and_raw_columns() {
    let cols = vec![col("local", ColumnShape::UuidRef), col("extra", ColumnShape::Raw)];
    let j = obj(vec![("local", arr(vec![s("uuid"), s("l1")])), ("extra", arr(vec![num("1"), num("2"), num("3")]))]);
    let part = decode_row_part(&j, &cols).unwrap();
    assert_eq!(part.get("local"), Some(&Cell::UuidRef("l1".to_string())));
    assert_eq!(part.get("extra"), Some(&Cell::Raw(arr(vec![num("1"), num("2"), num("3")]))));
    let bad = obj(vec![("local", s("l1"))]);
    assert_eq!(decode_row_part(&bad, &cols).unwrap_err().kind, ErrorKind::TypeMismatch);
}

#[test]
fn modify_keeps_new_values() {
    let j = obj(vec![
        ("old", obj(vec![("name", s("sw1"))])),
        ("new", obj(vec![("name", s("sw1")), ("tunnel_ips", s("10.0.0.1"))])),
    ]);
    let d = decode_row_diff(&"r1".to_string(), &j, &switch_columns()).unwrap();
    assert_eq!(d.kind(), ChangeKind::Modify);
    let new = d.new.as_ref().unwrap();
    assert_eq!(new.get("name"), Some(&Cell::Atom(text("sw1"))));
    assert_eq!(new.get("tunnel_ips"), Some(&Cell::Atom(text("10.0.0.1"))));
}

#[test]
fn insert_and_delete() {
    let ins = obj(vec![("new", obj(vec![("name", s("sw2"))]))]);
    let d = decode_row_diff(&"r2".to_string(), &ins, &switch_columns()).unwrap();
    assert_eq!(d.kind(), ChangeKind::Insert);
    let del = obj(vec![("old", obj(vec![("name", s("sw2"))]))]);
    let d = decode_row_diff(&"r2".to_string(), &del, &switch_columns()).unwrap();
    assert_eq!(d.kind(), ChangeKind::Delete);
}

#[test]
fn neither_old_nor_new() {
    let e = decode_row_diff(&"r3".to_string(), &obj(vec![]), &switch_columns()).unwrap_err();
    assert_eq!(e.kind, ErrorKind::MissingRowDiff);
    assert_eq!(e.row, Some("r3".to_string()));
    let nulls = obj(vec![("old", Json::Null), ("new", Json::Null)]);
    let e = decode_row_diff(&"r3".to_string(), &nulls, &switch_columns()).unwrap_err();
    assert_eq!(e.kind, ErrorKind::MissingRowDiff);
}

#[test]
fn unmodeled_table_is_omitted() {
    let j = obj(vec![
        ("Interface", obj(vec![("i1", obj(vec![("new", obj(vec![("name", s("eth0"))]))]))])),
        ("Physical_Switch", obj(vec![("r1", obj(vec![("new", obj(vec![("name", s("sw1"))]))]))])),
    ]);
    let d = decode_database_diff(&j, &vtep_specs()).unwrap();
    assert_eq!(d.tables.len(), 1);
    assert_eq!(d.tables[0].name, "Physical_Switch");
    assert_eq!(d.tables[0].rows.len(), 1);
    assert_eq!(d.tables[0].rows[0].uuid, "r1");
}

#[test]
fn table_failure_names_table_and_row() {
    let j = obj(vec![("Tunnel", obj(vec![("t1", obj(vec![("new", obj(vec![("local", s("x"))]))]))]))]);
    let e = decode_database_diff(&j, &vtep_specs()).unwrap_err();
    assert_eq!(e.kind, ErrorKind::TypeMismatch);
    assert_eq!(e.table, Some("Tunnel".to_string()));
    assert_eq!(e.row, Some("t1".to_string()));
    assert_eq!(e.column, Some("local".to_string()));
}

#[test]
fn notification_for_other_subscription() {
    let params = arr(vec![s("Open_vSwitch"), obj(vec![])]);
    let e = decode_update(&params, &"hardware_vtep".to_string(), &vtep_specs()).unwrap_err();
    assert_eq!(e.kind, ErrorKind::UnknownSubscription);
    let ok = arr(vec![s("hardware_vtep"), obj(vec![])]);
    let d = decode_update(&ok, &"hardware_vtep".to_string(), &vtep_specs()).unwrap();
    assert_eq!(d.tables.len(), 0);
    let short = arr(vec![s("hardware_vtep")]);
    let e = decode_update(&short, &"hardware_vtep".to_string(), &vtep_specs()).unwrap_err();
    assert_eq!(e.kind, ErrorKind::InvalidLength);
}

#[test]
fn monitor_request_lists_columns() {
    let specs = vec![TableSpec {
        name: "Tunnel".to_string(),
        columns: vec![col("local", ColumnShape::UuidRef), col("remote", ColumnShape::UuidRef)],
    }];
    let p = monitor_params(&"hardware_vtep".to_string(), &"hardware_vtep".to_string(), &specs);
    let expected = arr(vec![
        s("hardware_vtep"),
        s("hardware_vtep"),
        obj(vec![("Tunnel", obj(vec![("columns", arr(vec![s("local"), s("remote")]))]))]),
    ]);
    assert_eq!(p, expected);
}

#[test]
fn rpc_result_cases() {
    let ok = JsonRpcResult { id: 0, result: Some(s("r")), error: None };
    assert_eq!(jsonrpc_result(0, ok), Ok(s("r")));
    let err = JsonRpcResult {
        id: 0,
        result: Some(s("r")),
        error: Some(JsonRpcError { error: "e".to_string(), details: "d".to_string() }),
    };
    assert_eq!(
        jsonrpc_result(0, err),
        Err(RpcFailure::Remote { error: "e".to_string(), details: "d".to_string() })
    );
    let other = JsonRpcResult { id: 3, result: Some(s("r")), error: None };
    assert_eq!(jsonrpc_result(0, other), Err(RpcFailure::IdMismatch { expected: 0, got: 3 }));
    let none = JsonRpcResult { id: 0, result: None, error: None };
    assert_eq!(jsonrpc_result(0, none), Err(RpcFailure::NoResult));
}
