use postgresql_trino_gateway::catalog::pg_class::{
    BASE_TABLE_OID, PUBLIC_NAMESPACE_OID, namespace_oid, relkind, table_oid,
};

#[test]
fn attrelid_matches_pg_class_oid() {
    let class_oid = table_oid("public", "orders");
    let attr_oid = table_oid("public", "orders");
    assert_eq!(class_oid, attr_oid);
}

#[test]
fn table_oid_is_deterministic() {
    let oid1 = table_oid("public", "users");
    let oid2 = table_oid("public", "users");
    assert_eq!(oid1, oid2);
}

#[test]
fn table_oid_differs_for_different_tables() {
    let oid1 = table_oid("public", "users");
    let oid2 = table_oid("public", "orders");
    assert_ne!(oid1, oid2);
}

#[test]
fn table_oid_differs_across_schemas() {
    let oid1 = table_oid("public", "users");
    let oid2 = table_oid("sales", "users");
    assert_ne!(oid1, oid2);
}

#[test]
fn table_oid_above_base() {
    let oid = table_oid("public", "users");
    assert!(oid >= BASE_TABLE_OID);
}

#[test]
fn namespace_oid_public() {
    assert_eq!(namespace_oid("public"), PUBLIC_NAMESPACE_OID);
}

#[test]
fn namespace_oid_deterministic() {
    assert_eq!(namespace_oid("sales"), namespace_oid("sales"));
}

#[test]
fn namespace_oid_differs() {
    assert_ne!(namespace_oid("sales"), namespace_oid("marketing"));
}

#[test]
fn relkind_base_table() {
    assert_eq!(relkind("BASE TABLE"), "r");
}

#[test]
fn relkind_view() {
    assert_eq!(relkind("VIEW"), "v");
}

#[test]
fn relkind_default() {
    assert_eq!(relkind("MATERIALIZED VIEW"), "r");
}
