use void_index::predicate::{delete_predicate, escape_single_quotes};
use void_index::provider::{check_status, trim_slashes, OllamaClient, ProviderError};

#[test]
fn escape_doubles_quotes() {
    assert_eq!(escape_single_quotes("it's"), "it''s");
    assert_eq!(escape_single_quotes("''"), "''''");
    assert_eq!(escape_single_quotes("plain.rs"), "plain.rs");
    assert_eq!(escape_single_quotes(""), "");
}

#[test]
fn delete_predicate_quotes_path() {
    assert_eq!(delete_predicate("src/a.rs"), "path = 'src/a.rs'");
    assert_eq!(
        delete_predicate("x' OR '1'='1"),
        "path = 'x'' OR ''1''=''1'"
    );
}

#[test]
fn trailing_slashes_are_trimmed() {
    assert_eq!(trim_slashes("http://localhost:11434/"), "http://localhost:11434");
    assert_eq!(trim_slashes("http://h//"), "http://h");
    assert_eq!(trim_slashes("http://h"), "http://h");
    assert_eq!(trim_slashes("///"), "");
}

#[test]
fn client_urls_and_body() {
    let c = match OllamaClient::new("http://localhost:11434/", "nomic-embed-text") {
        Ok(c) => c,
        Err(_) => panic!("client"),
    };
    assert_eq!(c.base_url(), "http://localhost:11434");
    assert_eq!(c.model(), "nomic-embed-text");
    assert_eq!(c.embeddings_url(), "http://localhost:11434/api/embeddings");
    assert_eq!(c.tags_url(), "http://localhost:11434/api/tags");
    assert_eq!(
        c.embed_request_body("fn add(a,b)"),
        "{\"prompt\":\"fn add(a,b)\",\"model\":\"nomic-embed-text\"}"
    );
    assert_eq!(
        c.embed_request_body("say \"hi\"\n"),
        "{\"prompt\":\"say \\\"hi\\\"\\n\",\"model\":\"nomic-embed-text\"}"
    );
}

#[test]
fn status_success_range() {
    assert!(check_status(200, String::new()).is_ok());
    assert!(check_status(299, String::new()).is_ok());
    match check_status(500, "model not found".to_string()) {
        Err(ProviderError::Provider { status, body }) => {
            assert_eq!(status, 500);
            assert_eq!(body, "model not found");
        }
        _ => panic!("expected a provider error"),
    }
    assert!(matches!(check_status(199, String::new()), Err(ProviderError::Provider { .. })));
    assert!(matches!(check_status(404, String::new()), Err(ProviderError::Provider { .. })));
}

#[test]
fn control_characters_are_escaped() {
    let c = OllamaClient::new("http://h", "m").ok().unwrap();
    assert_eq!(
        c.embed_request_body("\u{1}\u{8}\u{c}\r\t\\é"),
        "{\"prompt\":\"\\u0001\\b\\f\\r\\t\\\\é\",\"model\":\"m\"}"
    );
}
