use minimal_api::binding::bind_arguments;
use minimal_api::request::{PathParams, Request};
use minimal_api::response::Response;
use minimal_api::route::Route;

type Handler = Box<dyn Fn(Request) -> Response>;

// ==================
// common test values
// ==================
const TEST_PUT_ENDPOINT: &str = "put/test";
const TEST_PUT_BODY_CONTENT: &str = "Hello!";
const TEST_PUT_ID: &str = "PUT-ID";

// =================
// endpoints to test
// =================
fn test_put_content(content: String) -> String {
    content
}

fn test_put() -> Route<Handler> {
    Route::put(
        "put/test",
        Box::new(|request: Request| {
            let arguments = bind_arguments(&request, "PUT", "put/test", &["content"])
                .expect("a request that feeds every argument");
            let content = test_put_content(arguments[0].clone());
            Response::ok(&content, false)
        }),
    )
}

fn test_put_dynamic_content(content: String, id: String) -> String {
    format!("{content} {id}")
}

fn test_put_dynamic() -> Route<Handler> {
    Route::put(
        "put/test/{id}",
        Box::new(|request: Request| {
            let arguments = bind_arguments(&request, "PUT", "put/test/{id}", &["content", "id"])
                .expect("a request that feeds every argument");
            let content = test_put_dynamic_content(arguments[0].clone(), arguments[1].clone());
            Response::ok(&content, false)
        }),
    )
}

fn test_raw_put_content(content: String) -> String {
    content
}

fn test_raw_put() -> Route<Handler> {
    Route::put(
        "put/test",
        Box::new(|request: Request| {
            let arguments = bind_arguments(&request, "PUT", "put/test", &["content"])
                .expect("a request that feeds every argument");
            let content = test_raw_put_content(arguments[0].clone());
            Response::ok(&content, true)
        }),
    )
}

fn test_raw_put_dynamic_content(content: String, id: String) -> String {
    format!("{content} {id}")
}

fn test_raw_put_dynamic() -> Route<Handler> {
    Route::put(
        "put/test/{id}",
        Box::new(|request: Request| {
            let arguments = bind_arguments(&request, "PUT", "put/test/{id}", &["content", "id"])
                .expect("a request that feeds every argument");
            let content = test_raw_put_dynamic_content(arguments[0].clone(), arguments[1].clone());
            Response::ok(&content, true)
        }),
    )
}

// ===============
// http_put tests
// ===============
#[test]
fn http_put_request_pattern_should_return_expected_endpoint() {
    assert_eq!(TEST_PUT_ENDPOINT, test_put().request_pattern);
}

#[test]
fn http_put_handler_should_return_expected_request() {
    let expected = Response::ok(TEST_PUT_BODY_CONTENT, false);
    let request = Request::new(
        TEST_PUT_ENDPOINT,
        minimal_api::methods::PUT,
        Some(TEST_PUT_BODY_CONTENT.to_string()),
        PathParams::new(),
    );

    let result = (test_put().handler)(request);

    assert_eq!(expected, result);
}

#[test]
fn http_put_handler_should_return_dynamic_route_value() {
    let expected = Response::ok(&format!("{TEST_PUT_BODY_CONTENT} {TEST_PUT_ID}"), false);
    let request = Request::new(
        TEST_PUT_ENDPOINT,
        minimal_api::methods::PUT,
        Some(TEST_PUT_BODY_CONTENT.to_string()),
        PathParams::from_pairs(vec![("id".to_string(), TEST_PUT_ID.to_string())]),
    );

    let result = (test_put_dynamic().handler)(request);

    assert_eq!(expected, result);
}

// ===================
// http_raw_put tests
// ===================
#[test]
fn http_raw_put_request_pattern_should_return_expected_endpoint() {
    assert_eq!(TEST_PUT_ENDPOINT, test_raw_put().request_pattern);
}

#[test]
fn http_raw_put_handler_should_return_expected_raw_response() {
    let expected = Response::ok(TEST_PUT_BODY_CONTENT, true);
    let request = Request::new(
        TEST_PUT_ENDPOINT,
        minimal_api::methods::PUT,
        Some(TEST_PUT_BODY_CONTENT.to_string()),
        PathParams::new(),
    );

    let result = (test_raw_put().handler)(request);

    assert_eq!(expected, result);
}

#[test]
fn http_raw_put_handler_should_return_dynamic_route_value() {
    let expected = Response::ok(&format!("{TEST_PUT_BODY_CONTENT} {TEST_PUT_ID}"), true);
    let request = Request::new(
        TEST_PUT_ENDPOINT,
        minimal_api::methods::PUT,
        Some(TEST_PUT_BODY_CONTENT.to_string()),
        PathParams::from_pairs(vec![("id".to_string(), TEST_PUT_ID.to_string())]),
    );

    let result = (test_raw_put_dynamic().handler)(request);

    assert_eq!(expected, result);
}
