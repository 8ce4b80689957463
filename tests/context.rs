use void_index::context::{
    join, search_limit, ContextCell, DaemonError, IndexingContext, InitializeParams,
};
use void_index::provider::OllamaClient;
use void_index::store::VectorStore;

fn params(ws: &str) -> InitializeParams {
    InitializeParams {
        workspace_path: ws.to_string(),
        ollama_url: None,
        ollama_model: None,
        db_path: None,
    }
}

#[test]
fn defaults_are_filled_in() {
    let s = params("/home/u/proj").resolve();
    assert_eq!(s.workspace_path, "/home/u/proj");
    assert_eq!(s.ollama_url, "http://localhost:11434");
    assert_eq!(s.ollama_model, "nomic-embed-text");
    assert_eq!(s.db_path, "/home/u/proj/.void/index.lance");
    assert_eq!(s.concurrency, 10);
    let c = OllamaClient::new(&s.ollama_url, &s.ollama_model).ok().unwrap();
    assert_eq!(c.timeout_secs(), 60);
}

#[test]
fn overrides_are_kept() {
    let p = InitializeParams {
        workspace_path: "/w".to_string(),
        ollama_url: Some("http://gpu:1234".to_string()),
        ollama_model: Some("mxbai".to_string()),
        db_path: Some("/tmp/db".to_string()),
    };
    let s = p.resolve();
    assert_eq!(s.ollama_url, "http://gpu:1234");
    assert_eq!(s.ollama_model, "mxbai");
    assert_eq!(s.db_path, "/tmp/db");
}

#[test]
fn join_uses_one_separator() {
    assert_eq!(join("/w/", ".void"), "/w/.void");
    assert_eq!(join("/w", ".void"), "/w/.void");
    assert_eq!(join("", ".void"), ".void");
}

#[test]
fn default_search_limit_is_ten() {
    assert_eq!(search_limit(None), 10);
    assert_eq!(search_limit(Some(3)), 3);
    assert_eq!(search_limit(Some(0)), 0);
}

fn context(ws: &str) -> IndexingContext {
    let settings = params(ws).resolve();
    let store = VectorStore::new(&settings.db_path, None);
    let client = match OllamaClient::new(&settings.ollama_url, &settings.ollama_model) {
        Ok(c) => c,
        Err(_) => panic!("client"),
    };
    IndexingContext { settings, store, client }
}

#[test]
fn cell_starts_uninitialized() {
    let cell = ContextCell::new();
    assert!(!cell.is_initialized());
    assert!(matches!(cell.get(), Err(DaemonError::NotInitialized)));
}

#[test]
fn reinitialize_replaces_context() {
    let mut cell = ContextCell::new();
    assert_eq!(cell.install(context("/w")), "initialized");
    {
        let c = match cell.get_mut() {
            Ok(c) => c,
            Err(_) => panic!("initialized"),
        };
        let row = match c.store.insert("a.rs", "x", 1, 1, "function", 2) {
            Ok(r) => r,
            Err(_) => panic!("insert"),
        };
        c.store.record_written(&row);
        assert_eq!(c.store.dimension(), Some(2));
    }
    assert_eq!(cell.install(context("/w")), "initialized");
    let c = match cell.get() {
        Ok(c) => c,
        Err(_) => panic!("initialized"),
    };
    assert_eq!(c.store.dimension(), None);
    assert_eq!(c.settings.db_path, "/w/.void/index.lance");
}
