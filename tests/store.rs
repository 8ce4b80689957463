use void_index::store::{SearchPlan, StoreError, VectorStore, TABLE_NAME};

#[test]
fn first_insert_creates_table() {
    let mut s = VectorStore::new("/w/.void/index.lance", None);
    let untouched = s.insert("a.rs", "x", 1, 1, "function", 4);
    assert!(untouched.is_ok());
    assert_eq!(s.dimension(), None);
    assert_eq!(s.table_name(), "code_chunks");
    assert_eq!(TABLE_NAME, "code_chunks");
    assert_eq!(s.db_path(), "/w/.void/index.lance");
    let row = match s.insert("a.rs", "fn add(a,b)", 1, 3, "function", 4) {
        Ok(r) => r,
        Err(_) => panic!("insert"),
    };
    assert!(row.create_table);
    assert_eq!(row.id.len(), 36);
    assert_eq!(row.path, "a.rs");
    assert_eq!(row.content, "fn add(a,b)");
    assert_eq!(row.start_line, 1);
    assert_eq!(row.end_line, 3);
    assert_eq!(row.chunk_type, "function");
    assert_eq!(row.dimension, 4);
    assert!(s.can_write(&row));
    s.record_written(&row);
    assert_eq!(s.dimension(), Some(4));
    let second = match s.insert("a.rs", "class Dog", 5, 9, "class", 4) {
        Ok(r) => r,
        Err(_) => panic!("insert"),
    };
    assert!(!second.create_table);
    assert_ne!(row.id, second.id);
    assert!(!s.can_write(&row));
    assert!(s.can_write(&second));
}

#[test]
fn dimension_mismatch_is_schema_error() {
    let s = VectorStore::new("db", Some(768));
    match s.insert("a.rs", "x", 1, 1, "function", 384) {
        Err(StoreError::Schema { expected, found }) => {
            assert_eq!(expected, 768);
            assert_eq!(found, 384);
        }
        _ => panic!("expected a schema error"),
    }
    assert_eq!(s.dimension(), Some(768));
    assert!(s.insert("a.rs", "x", 1, 1, "function", 768).is_ok());
}

#[test]
fn delete_without_table_is_noop() {
    let mut s = VectorStore::new("db", None);
    assert_eq!(s.delete_by_path("missing.rs"), None);
    s.record_deleted("missing.rs");
    assert_eq!(s.dimension(), None);
}

#[test]
fn delete_with_table_gives_filter() {
    let mut s = VectorStore::new("db", Some(3));
    assert_eq!(s.delete_by_path("o'brien.rs"), Some("path = 'o''brien.rs'".to_string()));
    s.record_deleted("o'brien.rs");
    assert_eq!(s.dimension(), Some(3));
}

#[test]
fn search_checks_limit_and_table() {
    let empty = VectorStore::new("db", None);
    assert!(matches!(empty.search(0), Err(StoreError::InvalidArgument { .. })));
    assert!(matches!(empty.search(10), Ok(SearchPlan::NoTable)));
    let full = VectorStore::new("db", Some(2));
    assert!(matches!(full.search(0), Err(StoreError::InvalidArgument { .. })));
    assert!(matches!(full.search(5), Ok(SearchPlan::Nearest { limit: 5 })));
}
