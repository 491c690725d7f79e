use captioner::proxy::{
    anthropic_outcome, is_success_status, ollama_outcome, plan_ollama_request,
    send_failure_message, HttpMethod,
};

#[test]
fn tags_is_a_get_without_body() {
    let c = plan_ollama_request("tags", "{}".to_string());
    assert_eq!(c.method, HttpMethod::Get);
    assert_eq!(c.url, "http://127.0.0.1:11434/api/tags");
    assert_eq!(c.body, None);
}

#[test]
fn other_endpoints_post_the_body() {
    let c = plan_ollama_request("generate", "{\"model\":\"m\"}".to_string());
    assert_eq!(c.method, HttpMethod::Post);
    assert_eq!(c.url, "http://127.0.0.1:11434/api/generate");
    assert_eq!(c.body, Some("{\"model\":\"m\"}".to_string()));
}

#[test]
fn success_class() {
    assert!(is_success_status(200));
    assert!(is_success_status(299));
    assert!(!is_success_status(199));
    assert!(!is_success_status(300));
    assert!(!is_success_status(404));
}

#[test]
fn response_outcomes() {
    assert_eq!(ollama_outcome(200, "200 OK", "body".to_string()), Ok("body".to_string()));
    assert_eq!(
        ollama_outcome(404, "404 Not Found", "missing".to_string()),
        Err("Ollama API request failed with status 404 Not Found: missing".to_string())
    );
    assert_eq!(anthropic_outcome(201, "201 Created", "{}".to_string()), Ok("{}".to_string()));
    assert_eq!(
        anthropic_outcome(401, "401 Unauthorized", "no".to_string()),
        Err("API request failed with status 401 Unauthorized: no".to_string())
    );
}

#[test]
fn send_failures() {
    assert_eq!(send_failure_message(true, true, "x"), "Request timed out: x");
    assert_eq!(send_failure_message(false, true, "x"), "Connection error: x");
    assert_eq!(send_failure_message(false, false, "x"), "Request failed: x");
}

use captioner::appdir::{create_outcome, parent_outcome, CreateDirResult};

#[test]
fn app_dir_outcomes() {
    assert_eq!(parent_outcome(None), None);
    assert_eq!(
        parent_outcome(Some("denied".to_string())),
        Some(Err("Failed to create parent directory: denied".to_string()))
    );
    assert_eq!(create_outcome(CreateDirResult::Created), Ok(true));
    assert_eq!(create_outcome(CreateDirResult::AlreadyExists), Ok(true));
    assert_eq!(
        create_outcome(CreateDirResult::Failed("denied".to_string())),
        Err("Failed to create directory: denied".to_string())
    );
}
