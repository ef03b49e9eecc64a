use chat_rs::config::Environment;
use chat_rs::routing::{classify_argument, router_name, ArgumentAnnotation, Extractor, HttpMethod};

#[test]
fn http_methods_ignore_case() {
    assert_eq!(HttpMethod::try_from("post"), Ok(HttpMethod::Post));
    assert_eq!(HttpMethod::try_from("Get"), Ok(HttpMethod::Get));
    assert_eq!(HttpMethod::try_from("DELETE"), Ok(HttpMethod::Delete));
    assert_eq!(HttpMethod::try_from("put"), Ok(HttpMethod::Put));
    assert_eq!(HttpMethod::try_from("pAtCh"), Ok(HttpMethod::Patch));
    assert_eq!(
        HttpMethod::try_from("fetch"),
        Err("unknown HTTP method `fetch`, expected get, post, put, delete, or patch".to_string())
    );
    assert_eq!(HttpMethod::Patch.as_axum_fn(), "axum::routing::patch");
    assert_eq!(HttpMethod::Get.as_axum_fn(), "axum::routing::get");
}

#[test]
fn extractors_ignore_case() {
    assert_eq!(Extractor::try_from("json"), Ok(Extractor::Json));
    assert_eq!(Extractor::try_from("Query"), Ok(Extractor::Query));
    assert_eq!(
        Extractor::try_from("form"),
        Err("unknown extractor `form`, expected json, query, etc...".to_string())
    );
}

#[test]
fn router_names_are_snake_case() {
    assert_eq!(router_name("ChatApi"), "chat_api_handler");
    assert_eq!(router_name("Auth"), "auth_handler");
    assert_eq!(router_name("HTTPServer"), "h_t_t_p_server_handler");
}

#[test]
fn argument_annotations() {
    assert_eq!(classify_argument(0), ArgumentAnnotation::Plain);
    assert_eq!(classify_argument(1), ArgumentAnnotation::Extracted);
    assert_eq!(classify_argument(3), ArgumentAnnotation::TooMany);
}

#[test]
fn environments_ignore_case() {
    assert_eq!(Environment::from_str("dev"), Ok(Environment::Dev));
    assert_eq!(Environment::from_str("Staging"), Ok(Environment::Staging));
    assert_eq!(Environment::from_str("PROD"), Ok(Environment::Prod));
    assert_eq!(
        Environment::from_str("qa"),
        Err("Unknown environment qa. Valid envs: DEV, STAGING, PROD (capital insensitive)".to_string())
    );
    assert_eq!(Environment::Staging.as_str(), "STAGING");
}
