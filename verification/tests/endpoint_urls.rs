use snake_arena::snake_url::build_endpoint_url;
use url::Url;

#[test]
fn test_build_endpoint_url_simple() {
    let url = build_endpoint_url("https://example.com", "move");
    assert_eq!(url, "https://example.com/move");
}

#[test]
fn test_build_endpoint_url_with_trailing_slash() {
    let url = build_endpoint_url("https://example.com/", "move");
    assert_eq!(url, "https://example.com/move");
}

#[test]
fn test_build_endpoint_url_with_path() {
    let url = build_endpoint_url("https://example.com/api/v1", "move");
    assert_eq!(url, "https://example.com/api/v1/move");
}

#[test]
fn test_build_endpoint_url_with_query_params() {
    let url = build_endpoint_url("https://example.com?token=secret", "move");
    assert_eq!(url, "https://example.com/move?token=secret");
}

#[test]
fn test_build_endpoint_url_with_path_and_query_params() {
    let url = build_endpoint_url("https://example.com/api?token=secret&version=2", "move");
    assert_eq!(url, "https://example.com/api/move?token=secret&version=2");
}

#[test]
fn test_build_endpoint_url_with_trailing_slash_and_query_params() {
    let url = build_endpoint_url("https://example.com/api/?token=secret", "start");
    assert_eq!(url, "https://example.com/api/start?token=secret");
}

#[test]
fn test_build_endpoint_url_all_endpoints() {
    let base = "https://snake.example.com?auth=abc123";
    assert_eq!(
        build_endpoint_url(base, "move"),
        "https://snake.example.com/move?auth=abc123"
    );
    assert_eq!(
        build_endpoint_url(base, "start"),
        "https://snake.example.com/start?auth=abc123"
    );
    assert_eq!(
        build_endpoint_url(base, "end"),
        "https://snake.example.com/end?auth=abc123"
    );
}

#[test]
fn test_url_with_query_string() {
    let url = build_endpoint_url("https://example.com/api?token=secret", "move");
    assert_eq!(url, "https://example.com/api/move?token=secret");
}

#[test]
fn test_endpoint_url_preserves_parse_components() {
    let bases = [
        "http://example.com",
        "https://snake.io/",
        "http://localhost:8080/api",
        "https://192.168.1.1:3000/api/v1/",
        "https://example.com/snakes/my-snake?token=abc&version=2",
    ];
    for base in bases {
        for endpoint in ["start", "move", "end"] {
            let result = build_endpoint_url(base, endpoint);
            let parsed_base = Url::parse(base).unwrap();
            let parsed = Url::parse(&result)
                .unwrap_or_else(|_| panic!("result {result} should be a valid URL"));
            assert_eq!(parsed.scheme(), parsed_base.scheme());
            assert_eq!(parsed.host_str(), parsed_base.host_str());
            assert_eq!(parsed.port(), parsed_base.port());
            assert_eq!(parsed.query(), parsed_base.query());
            assert!(parsed.path().ends_with(&format!("/{endpoint}")));
            assert!(!parsed.path().contains("//"));
        }
    }
}

#[test]
fn test_build_endpoint_url_unparseable_base_falls_back() {
    let url = build_endpoint_url("not a url//", "move");
    assert_eq!(url, "not a url/move");
}
