use minimal_api::request::{PathParams, Request};

#[test]
fn new_request_should_assign_inputs_as_members() {
    let path = "path";
    let method = "method";

    let request = Request::new(path, method, None, PathParams::new());

    assert_eq!(path, request.path);
    assert_eq!(method, request.method);
}

#[test]
fn new_request_should_have_no_body_content() {
    let request = Request::new("", "", None, PathParams::new());

    assert_eq!(None, request.body_content);
}

#[test]
fn get_request_should_have_valid_http_get_header() {
    let path = "path";
    let get_request = Request::get(path);

    assert!(get_request.contains(minimal_api::methods::GET));
    assert!(get_request.contains(path));
    assert!(get_request.contains("HTTP/"));
}

#[test]
fn post_request_should_have_valid_http_post_header() {
    let path = "path";
    let post_request = Request::post(path);

    assert!(post_request.contains(minimal_api::methods::POST));
    assert!(post_request.contains(path));
    assert!(post_request.contains("HTTP/"));
}

#[test]
fn put_request_should_have_valid_http_put_header() {
    let path = "path";
    let put_request = Request::put(path);

    assert!(put_request.contains(minimal_api::methods::PUT));
    assert!(put_request.contains(path));
    assert!(put_request.contains("HTTP/"));
}

#[test]
fn delete_request_should_have_valid_http_delete_header() {
    let path = "path";
    let delete_request = Request::delete(path);

    assert!(delete_request.contains(minimal_api::methods::DELETE));
    assert!(delete_request.contains(path));
    assert!(delete_request.contains("HTTP/"));
}

#[test]
fn query_param_should_return_none_without_any_query() {
    let request = Request::new("", "", None, PathParams::new());

    let result = request.query_param("fake-key");

    assert_eq!(None, result);
}

#[test]
fn query_param_should_return_none_without_query_match() {
    let request = Request::new("?key=value", "", None, PathParams::new());

    let result = request.query_param("other-key");

    assert_eq!(None, result);
}

#[test]
fn query_param_should_return_value_with_valid_query() {
    let key = "key";
    let expected = "value";
    let request = Request::new(&format!("?{key}={expected}"), "", None, PathParams::new());

    let result = request.query_param(key);

    assert!(result.is_some());
    assert_eq!(expected, result.unwrap());
}

#[test]
fn body_as_string_should_error_without_request_body() {
    let request = Request::new("", "", None, PathParams::new());

    let result = request.body_as_string();

    assert!(result.is_err());
}

#[test]
fn body_as_string_should_return_body_content_with_request_body() {
    let expected = "body content";
    let mut request = Request::new("", "", None, PathParams::new());
    request.body_content = Some(expected.to_string());

    let result = request.body_as_string();

    assert!(result.is_ok());
    assert_eq!(expected, result.unwrap());
}

#[test]
fn request_lines_are_exact() {
    assert_eq!("GET /a?b=c HTTP/1.1", Request::get("/a?b=c"));
    assert_eq!("POST /submit HTTP/1.1", Request::post("/submit"));
    assert_eq!("PUT  HTTP/1.1", Request::put(""));
    assert_eq!("DELETE /x/1 HTTP/1.1", Request::delete("/x/1"));
}

#[test]
fn body_as_string_error_has_fixed_text() {
    let request = Request::new("/", "GET", None, PathParams::new());

    assert_eq!(Err("Request body not available".to_string()), request.body_as_string());
}

#[test]
fn query_param_finds_each_key_of_the_query() {
    let request = Request::new("p?x=1&y=2", "GET", None, PathParams::new());

    assert_eq!(Some("1"), request.query_param("x"));
    assert_eq!(Some("2"), request.query_param("y"));
    assert_eq!(None, request.query_param("z"));
}

#[test]
fn query_param_without_question_mark_finds_nothing() {
    let request = Request::new("p/x=1&y=2", "GET", None, PathParams::new());

    assert_eq!(None, request.query_param("x"));
    assert_eq!(None, request.query_param("y"));
    assert_eq!(None, request.query_param("p/x"));
    assert_eq!(None, request.query_param(""));
}

#[test]
fn query_param_takes_the_first_of_duplicate_keys() {
    let request = Request::new("/p?k=first&k=second", "GET", None, PathParams::new());

    assert_eq!(Some("first"), request.query_param("k"));
}

#[test]
fn query_param_parts_key_and_value_at_the_first_equals_sign() {
    let request = Request::new("/p?a=b=c&novalue&=empty&e=", "GET", None, PathParams::new());

    assert_eq!(Some("b=c"), request.query_param("a"));
    assert_eq!(None, request.query_param("novalue"));
    assert_eq!(Some("empty"), request.query_param(""));
    assert_eq!(Some(""), request.query_param("e"));
}

#[test]
fn query_param_reads_only_what_follows_the_first_question_mark() {
    let request = Request::new("/p?a=1?b=2&c=3", "GET", None, PathParams::new());

    assert_eq!(Some("1?b=2"), request.query_param("a"));
    assert_eq!(Some("3"), request.query_param("c"));
    assert_eq!(None, request.query_param("b"));
}

#[test]
fn query_param_handles_text_beyond_ascii() {
    let request = Request::new("/grüße?näme=Zoë&x=1", "GET", None, PathParams::new());

    assert_eq!(Some("Zoë"), request.query_param("näme"));
    assert_eq!(Some("1"), request.query_param("x"));
}

#[test]
fn path_params_give_the_latest_binding_of_a_name() {
    let mut params = PathParams::new();
    assert!(params.is_empty());
    params.insert("id".to_string(), "1".to_string());
    params.insert("name".to_string(), "ada".to_string());
    params.insert("id".to_string(), "2".to_string());

    assert_eq!(3, params.len());
    assert_eq!(Some("2"), params.get("id"));
    assert_eq!(Some("ada"), params.get("name"));
    assert_eq!(None, params.get("other"));
}

#[test]
fn path_params_from_pairs_keep_every_pair() {
    let params = PathParams::from_pairs(vec![
        ("a".to_string(), "1".to_string()),
        ("b".to_string(), "2".to_string()),
    ]);

    assert_eq!(2, params.len());
    assert_eq!(Some("1"), params.get("a"));
    assert_eq!(Some("2"), params.get("b"));
}
