use paddler::url_util::format_api_url;
use paddler::url_util::inference_socket_url;

#[test]
fn test_formats_valid_url() {
    assert_eq!(
        format_api_url("http://localhost:8080", "/api/v1/health").unwrap(),
        "http://localhost:8080/api/v1/health"
    );
}

#[test]
fn test_rejects_path_without_leading_slash() {
    let result = format_api_url("http://localhost:8080", "api/v1/health");

    assert!(result.is_err());
}

#[test]
fn test_formats_url_with_trailing_slash() {
    assert_eq!(
        format_api_url("http://localhost:8080/", "/api/v1/health").unwrap(),
        "http://localhost:8080/api/v1/health"
    );
}

#[test]
fn test_rejects_empty_path() {
    assert!(format_api_url("http://localhost:8080", "").is_err());
}

#[test]
fn test_http_becomes_ws() {
    let result = inference_socket_url("http://localhost:8080/some/path").unwrap();

    assert_eq!(result.scheme, "ws");
    assert_eq!(result.path, "/api/v1/inference_socket");
    assert_eq!(result.host.as_deref(), Some("localhost"));
    assert_eq!(result.port, Some(8080));
}

#[test]
fn test_https_becomes_wss() {
    let result = inference_socket_url("https://example.com/ignored").unwrap();

    assert_eq!(result.scheme, "wss");
    assert_eq!(result.path, "/api/v1/inference_socket");
}

#[test]
fn test_ws_scheme_preserved() {
    let result = inference_socket_url("ws://localhost:9090").unwrap();

    assert_eq!(result.scheme, "ws");
    assert_eq!(result.path, "/api/v1/inference_socket");
}

#[test]
fn test_original_path_replaced() {
    let result = inference_socket_url("http://host/deeply/nested/path?query=1").unwrap();

    assert_eq!(result.path, "/api/v1/inference_socket");
}

#[test]
fn test_socket_url_rewrite_keeps_query() {
    let result = inference_socket_url("http://host/foo?q=1").unwrap();

    assert_eq!(result.scheme, "ws");
    assert_eq!(result.path, "/api/v1/inference_socket");
    assert_eq!(result.query.as_deref(), Some("q=1"));
}

#[test]
fn test_socket_url_rejects_invalid_input() {
    assert!(inference_socket_url("not a url").is_err());
}
