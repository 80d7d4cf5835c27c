use cloudflare_access_webhook_redirect::config::AllowedMethod;
use cloudflare_access_webhook_redirect::config::Method;
use cloudflare_access_webhook_redirect::config::parse_paths;
use cloudflare_access_webhook_redirect::data::AllowedPath;
use cloudflare_access_webhook_redirect::error::Error;

fn compare_option_with_result<T>(expected: Option<T>, result: Result<T, Error>)
where
    T: std::fmt::Debug + std::cmp::PartialEq,
{
    match expected {
        Some(expected) => {
            assert!(result.is_ok());
            assert_eq!(result.unwrap(), expected);
        }
        None => {
            assert!(result.is_err(), "Expected error, got: {:?}", result);
        }
    }
}

fn test_string_to_allowed_method(input: &String, expected: Option<AllowedMethod>) {
    let method = AllowedMethod::try_from(input);
    compare_option_with_result(expected, method);
}

fn test_allowed_method_to_http_method(allowed_method: AllowedMethod, http_method: Option<Method>) {
    let method = Method::try_from(allowed_method);
    compare_option_with_result(http_method, method);
}

#[test]
fn test_string_to_allowed_method_upper_case() {
    test_string_to_allowed_method(&"ALL".to_string(), Some(AllowedMethod::ALL));
    test_string_to_allowed_method(&"GET".to_string(), Some(AllowedMethod::GET));
    test_string_to_allowed_method(&"POST".to_string(), Some(AllowedMethod::POST));
    test_string_to_allowed_method(&"PUT".to_string(), Some(AllowedMethod::PUT));
    test_string_to_allowed_method(&"PATCH".to_string(), Some(AllowedMethod::PATCH));
    test_string_to_allowed_method(&"DELETE".to_string(), Some(AllowedMethod::DELETE));
}

#[test]
fn test_string_to_allowed_method_lower_case() {
    test_string_to_allowed_method(&"all".to_string(), Some(AllowedMethod::ALL));
    test_string_to_allowed_method(&"get".to_string(), Some(AllowedMethod::GET));
    test_string_to_allowed_method(&"post".to_string(), Some(AllowedMethod::POST));
    test_string_to_allowed_method(&"put".to_string(), Some(AllowedMethod::PUT));
    test_string_to_allowed_method(&"patch".to_string(), Some(AllowedMethod::PATCH));
    test_string_to_allowed_method(&"delete".to_string(), Some(AllowedMethod::DELETE));
}

#[test]
fn test_string_to_allowed_method_invalid() {
    test_string_to_allowed_method(&"test".to_string(), None);
    test_string_to_allowed_method(&"GETT".to_string(), None);
    test_string_to_allowed_method(&"gett".to_string(), None);
}

#[test]
fn test_string_to_allowed_method_mixed_case() {
    test_string_to_allowed_method(&"All".to_string(), Some(AllowedMethod::ALL));
    test_string_to_allowed_method(&"gEt".to_string(), Some(AllowedMethod::GET));
}

#[test]
fn test_allowed_method_name() {
    assert_eq!(AllowedMethod::ALL.name(), "ALL");
    assert_eq!(AllowedMethod::GET.name(), "GET");
    assert_eq!(AllowedMethod::POST.name(), "POST");
    assert_eq!(AllowedMethod::PUT.name(), "PUT");
    assert_eq!(AllowedMethod::PATCH.name(), "PATCH");
    assert_eq!(AllowedMethod::DELETE.name(), "DELETE");
}

#[test]
fn test_allowed_method_try_into() {
    test_allowed_method_to_http_method(AllowedMethod::ALL, None);
    test_allowed_method_to_http_method(AllowedMethod::GET, Some(Method::GET));
    test_allowed_method_to_http_method(AllowedMethod::POST, Some(Method::POST));
    test_allowed_method_to_http_method(AllowedMethod::PUT, Some(Method::PUT));
    test_allowed_method_to_http_method(AllowedMethod::PATCH, Some(Method::PATCH));
    test_allowed_method_to_http_method(AllowedMethod::DELETE, Some(Method::DELETE));
}

#[test]
fn test_set_allowed_method_try_into_minimal_no_all() {
    let set = vec![AllowedMethod::GET];

    let allowed_path: AllowedPath = AllowedPath::try_from(set).unwrap();
    assert!(!allowed_path.all());
    assert_eq!(allowed_path.methods().len(), 1);
    assert!(allowed_path.methods().contains(&Method::GET));
}

#[test]
fn test_set_allowed_method_try_into_minimal_with_all() {
    let set = vec![AllowedMethod::ALL];

    let allowed_path: AllowedPath = AllowedPath::try_from(set).unwrap();
    assert!(allowed_path.all());
    assert_eq!(allowed_path.methods().len(), 0);
}

#[test]
fn test_set_allowed_method_try_into_discards_explicit_with_all() {
    // ALL makes the explicit methods redundant, so they are discarded
    let set = vec![
        AllowedMethod::GET,
        AllowedMethod::ALL,
        AllowedMethod::POST,
        AllowedMethod::PUT,
        AllowedMethod::PATCH,
        AllowedMethod::DELETE,
    ];

    let allowed_path: AllowedPath = AllowedPath::try_from(set).unwrap();
    assert!(allowed_path.all());
    assert_eq!(allowed_path.methods().len(), 0);
}

#[test]
fn test_set_allowed_method_try_into_deduplicates() {
    let set = vec![AllowedMethod::GET, AllowedMethod::POST, AllowedMethod::GET];

    let allowed_path: AllowedPath = AllowedPath::try_from(set).unwrap();
    assert!(!allowed_path.all());
    assert_eq!(allowed_path.methods().len(), 2);
    assert!(allowed_path.methods().contains(&Method::GET));
    assert!(allowed_path.methods().contains(&Method::POST));
}

#[test]
fn test_parse_paths_full() {
    let parsed = parse_paths(r"/test:All; /test2:GET; /test\d*:POST,PUT").unwrap();

    assert_eq!(parsed.len(), 3);
    assert_eq!(parsed[0].0, "/test");
    assert_eq!(parsed[0].1, vec![AllowedMethod::ALL]);
    assert_eq!(parsed[1].0, "/test2");
    assert_eq!(parsed[1].1, vec![AllowedMethod::GET]);
    assert_eq!(parsed[2].0, r"/test\d*");
    assert_eq!(parsed[2].1, vec![AllowedMethod::POST, AllowedMethod::PUT]);
}

#[test]
fn test_parse_paths_single() {
    let parsed = parse_paths("/test:ALL").unwrap();

    assert_eq!(parsed.len(), 1);
    assert_eq!(parsed[0].0, "/test");
    assert_eq!(parsed[0].1, vec![AllowedMethod::ALL]);
}

#[test]
fn test_parse_paths_duplicate_path_last_wins() {
    let parsed = parse_paths("/test:GET; /test:POST").unwrap();

    assert_eq!(parsed.len(), 1);
    assert_eq!(parsed[0].0, "/test");
    assert_eq!(parsed[0].1, vec![AllowedMethod::POST]);
}

#[test]
fn test_parse_paths_unknown_method() {
    let parsed = parse_paths("/test:NONE");
    assert!(parsed.is_err());
}

#[test]
fn test_parse_paths_missing_methods() {
    let parsed = parse_paths("/test");
    assert!(parsed.is_err());
}

#[test]
fn test_parse_paths_empty_string() {
    let parsed = parse_paths("");
    assert!(parsed.is_err());
}
