use request_capture::db::{DuckdbStorage, DUCKDB_PATH};

#[test]
fn duckdb_store_lives_in_storage_duckdb() {
    let s = DuckdbStorage::new();
    assert_eq!(s.path(), "storage.duckdb");
    assert_eq!(DUCKDB_PATH, "storage.duckdb");
}
