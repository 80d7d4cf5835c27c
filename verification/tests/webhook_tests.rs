use cloudflare_access_webhook_redirect::config::AllowedMethod;
use cloudflare_access_webhook_redirect::config::Method;
use cloudflare_access_webhook_redirect::data::AllowedPath;
use cloudflare_access_webhook_redirect::data::AllowedPaths;
use cloudflare_access_webhook_redirect::data::WebHookData;

const ALL_HTTP_METHODS: [Method; 9] = [
    Method::GET,
    Method::POST,
    Method::PUT,
    Method::DELETE,
    Method::HEAD,
    Method::CONNECT,
    Method::OPTIONS,
    Method::TRACE,
    Method::PATCH,
];

fn make_web_hook_data(target_host: &str, paths: Vec<(&str, Vec<AllowedMethod>)>) -> WebHookData {
    let paths: Vec<(String, Vec<AllowedMethod>)> = paths
        .into_iter()
        .map(|(path, methods)| (path.to_string(), methods))
        .collect();
    let allowed_paths = AllowedPaths::try_from(paths).unwrap();
    WebHookData::new(
        target_host.to_string(),
        allowed_paths,
        "test id".to_string(),
        "test secret".to_string(),
    )
    .unwrap()
}

fn default_paths() -> Vec<(&'static str, Vec<AllowedMethod>)> {
    vec![("/test", vec![AllowedMethod::GET, AllowedMethod::POST])]
}

#[test]
fn test_get_target_url() {
    let web_hook_data = make_web_hook_data("https://example.com", default_paths());

    let target_url = web_hook_data.get_target_url("/test").unwrap();
    assert_eq!(target_url, "https://example.com/test");
}

#[test]
fn test_get_target_url_trailing_slash() {
    let web_hook_data = make_web_hook_data("https://example.com/", default_paths());

    let target_url = web_hook_data.get_target_url("/test").unwrap();
    assert_eq!(target_url, "https://example.com/test");
}

#[test]
fn test_new_rejects_invalid_credentials() {
    let allowed_paths = AllowedPaths::try_from(Vec::new()).unwrap();
    let result = WebHookData::new(
        "https://example.com".to_string(),
        allowed_paths,
        "bad\nvalue".to_string(),
        "secret".to_string(),
    );
    assert!(result.is_err());
}

#[test]
fn test_is_allowed_path_invalid_empty() {
    let web_hook_data = make_web_hook_data("https://example.com", Vec::new());

    // Invalid paths
    ALL_HTTP_METHODS.iter().for_each(|method| {
        assert!(!web_hook_data.is_allowed_path("", method));
        assert!(!web_hook_data.is_allowed_path("/", method));
        assert!(!web_hook_data.is_allowed_path("/test", method));
        assert!(!web_hook_data.is_allowed_path("/test/", method));
        assert!(!web_hook_data.is_allowed_path("/test/123", method));
    });
}

#[test]
fn test_is_allowed_path_no_regex() {
    let paths = vec![
        ("/test/", vec![AllowedMethod::ALL]),
        ("/data/123", vec![AllowedMethod::ALL]),
    ];

    let web_hook_data = make_web_hook_data("https://example.com", paths);

    // Invalid paths
    ALL_HTTP_METHODS.iter().for_each(|method| {
        assert!(!web_hook_data.is_allowed_path("", method));
        assert!(!web_hook_data.is_allowed_path("/", method));
        assert!(!web_hook_data.is_allowed_path("/api", method));
        assert!(!web_hook_data.is_allowed_path("/test/access", method));
        assert!(!web_hook_data.is_allowed_path("/data", method));
    });

    // Valid paths
    ALL_HTTP_METHODS.iter().for_each(|method| {
        assert!(web_hook_data.is_allowed_path("/test/", method));
        assert!(web_hook_data.is_allowed_path("/data/123", method));
    });
}

#[test]
fn test_is_allowed_path_regex() {
    let paths = vec![
        ("/test/", vec![AllowedMethod::GET, AllowedMethod::POST]),
        (r"/data/\d*/private", vec![AllowedMethod::ALL]),
    ];

    let web_hook_data = make_web_hook_data("https://example.com", paths);

    // Invalid paths
    ALL_HTTP_METHODS.iter().for_each(|method| {
        assert!(!web_hook_data.is_allowed_path("", method));
        assert!(!web_hook_data.is_allowed_path("/", method));
        assert!(!web_hook_data.is_allowed_path("/api", method));
        assert!(!web_hook_data.is_allowed_path("/data", method));
        assert!(!web_hook_data.is_allowed_path("/data/123/", method));
        assert!(!web_hook_data.is_allowed_path("/data/123/test", method));
        assert!(!web_hook_data.is_allowed_path("/data/abc/private", method));
    });

    // Check /test/ path
    ALL_HTTP_METHODS.iter().for_each(|method| {
        if method == &Method::GET || method == &Method::POST {
            assert!(web_hook_data.is_allowed_path("/test/", method));
        } else {
            assert!(!web_hook_data.is_allowed_path("/test/", method));
        }
    });

    // Check /data/123/private path
    ALL_HTTP_METHODS.iter().for_each(|method| {
        assert!(web_hook_data.is_allowed_path("/data/123/private", method));
    });
}

#[test]
fn test_is_allowed_path_correctness() {
    let paths = vec![("/test/", vec![AllowedMethod::GET])];

    let web_hook_data = make_web_hook_data("https://example.com", paths);

    // Invalid paths
    assert!(!web_hook_data.is_allowed_path("/d/test/", &Method::GET));
    assert!(!web_hook_data.is_allowed_path("/d/test/d", &Method::GET));
}

#[test]
fn test_is_allowed_path_pre_anchored_pattern() {
    let paths = vec![("^/test/$", vec![AllowedMethod::ALL])];

    let web_hook_data = make_web_hook_data("https://example.com", paths);

    assert!(web_hook_data.is_allowed_path("/test/", &Method::GET));
    assert!(!web_hook_data.is_allowed_path("/d/test/", &Method::GET));
    assert!(!web_hook_data.is_allowed_path("/test/d", &Method::GET));
}

#[test]
fn test_invalid_pattern_is_rejected() {
    let paths = vec![("[".to_string(), vec![AllowedMethod::ALL])];
    let result = AllowedPaths::try_from(paths);
    assert!(result.is_err());
}

fn create_paths(paths: Vec<&str>) -> Vec<(String, AllowedPath)> {
    paths
        .into_iter()
        .map(|path| {
            (
                path.to_string(),
                AllowedPath::new(false, vec![Method::GET]),
            )
        })
        .collect()
}

fn verify_escaped(paths: Vec<(String, AllowedPath)>) {
    for (key, _) in paths {
        // Assert correct ends and starts
        assert!(key.starts_with('^'));
        assert!(key.ends_with('$'));

        // Make sure that we don't add an extra ^ or $ to the regex
        assert!(!key.starts_with("^^"));
        assert!(!key.ends_with("$$"));
    }
}

fn verify_paths(paths: Vec<&str>) {
    let input = create_paths(paths);
    let converted = AllowedPaths::escape_regexes(input);
    verify_escaped(converted);
}

#[test]
fn test_escape_regexes_empty() {
    verify_paths(vec![r"/test/", "", r"/data/\d*/private"]);
}

#[test]
fn test_escape_regexes_escaped_start() {
    verify_paths(vec![r"^/test/", "^", r"^/data/\d*/private"]);
}

#[test]
fn test_escape_regexes_escaped_end() {
    verify_paths(vec![r"/test/$", "$", r"/data/\d*/private$"]);
}

#[test]
fn test_escape_regexes_escaped() {
    verify_paths(vec![r"^/test/$", "^$", r"^/data/\d*/private$"]);
}

#[test]
fn test_escape_regexes_exact() {
    let input = create_paths(vec![r"/test/"]);
    let converted = AllowedPaths::escape_regexes(input);
    assert_eq!(converted.len(), 1);
    assert_eq!(converted[0].0, "^/test/$");
}

#[test]
fn test_escape_regexes_twice_is_same() {
    let input = create_paths(vec![r"/test/", "^$", r"/data/\d*/private$"]);
    let once = AllowedPaths::escape_regexes(input);
    let keys_once: Vec<String> = once.iter().map(|(k, _)| k.clone()).collect();
    let twice = AllowedPaths::escape_regexes(once);
    let keys_twice: Vec<String> = twice.iter().map(|(k, _)| k.clone()).collect();
    assert_eq!(keys_once, keys_twice);
}
