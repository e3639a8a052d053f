use minimal_api::date::Date;
use minimal_api::response::Response;
use minimal_api::status::Status;

#[test]
fn ok_response_should_assign_contents_and_have_ok_status() {
    let expected = "ok";

    let result = Response::ok(expected, false);

    assert_eq!(expected, result.content);
    assert_eq!(Status::OK, result.status);
}

#[test]
fn not_found_response_should_have_not_found_status() {
    let result = Response::not_found();

    assert_eq!(Status::NotFound, result.status);
}

#[test]
fn bad_request_response_should_have_bad_request_status() {
    let result = Response::bad_request();

    assert_eq!(Status::BadRequest, result.status);
}

#[test]
fn unprocessable_entity_response_should_have_unprocessable_entity_status() {
    let result = Response::unprocessable_entity();

    assert_eq!(Status::UnprocessableEntity, result.status);
}

#[test]
fn server_error_response_should_have_server_error_status() {
    let result = Response::server_error();

    assert_eq!(Status::ServerError, result.status);
}

#[test]
fn status_texts_are_exact() {
    assert_eq!("200 OK", Status::OK.as_str());
    assert_eq!("400 BAD REQUEST", Status::BadRequest.as_str());
    assert_eq!("404 NOT FOUND", Status::NotFound.as_str());
    assert_eq!("422 UNPROCESSABLE ENTITY", Status::UnprocessableEntity.as_str());
    assert_eq!("500 INTERNAL SERVER ERROR", Status::ServerError.as_str());
}

#[test]
fn fixed_contents_are_exact() {
    assert_eq!("\"That doesn't exist on the menu\"", Response::not_found().content);
    assert_eq!("\"Are you sure about that?\"", Response::bad_request().content);
    assert_eq!(
        "\"I don't know how to handle those inputs, Hal.\"",
        Response::unprocessable_entity().content
    );
    assert_eq!("\"The server did not like that one\"", Response::server_error().content);
    assert!(!Response::not_found().raw);
    assert!(!Response::bad_request().raw);
    assert!(!Response::unprocessable_entity().raw);
    assert!(!Response::server_error().raw);
}

#[test]
fn enveloped_body_is_exact() {
    let response = Response::at(Status::OK, "\"Hello, Ada!\"", false, Date::from_timestamp(0));

    assert_eq!(
        "{\"content\":\"Hello, Ada!\",\"status\":\"200 OK\",\"time\":\"1970-01-01T00:00:00\"}",
        response.render_body(false)
    );
    assert_eq!("\"Hello, Ada!\"", response.render_body(true));
}

#[test]
fn wire_text_is_exact() {
    let response = Response::at(Status::NotFound, "1", false, Date::from_timestamp(86_400));

    let body = "{\"content\":1,\"status\":\"404 NOT FOUND\",\"time\":\"1970-01-02T00:00:00\"}";
    assert_eq!(
        format!(
            "HTTP/1.1 404 NOT FOUND\r\nContent-Length: {}\r\nContent-Type: application/json\r\n\r\n{}",
            body.len(),
            body
        ),
        response.to_string()
    );
    assert_eq!(response.header, response.to_string());
    assert_eq!(
        format!(
            "HTTP/1.1 404 NOT FOUND\r\nContent-Length: {}\r\nContent-Type: application/json\r\n\r\n",
            body.len()
        ),
        response.head(false)
    );
}

#[test]
fn raw_wire_text_is_the_content_behind_the_head() {
    let response = Response::at(Status::OK, "plain", true, Date::from_timestamp(0));

    assert_eq!(
        "HTTP/1.1 200 OK\r\nContent-Length: 5\r\nContent-Type: application/json\r\n\r\nplain",
        response.to_string()
    );
    assert!(response.raw);
}

#[test]
fn len_is_the_byte_length_of_the_rendered_body() {
    for content in ["", "x", "\"Hello, Ada!\"", "grüße", "日本語", "{\"a\":[1,2,3]}"] {
        let response = Response::ok(content, false);
        assert_eq!(response.render_body(false).len(), response.len(false));
        assert_eq!(response.render_body(true).len(), response.len(true));
        assert_eq!(content.len(), response.len(true));
    }
}

#[test]
fn len_counts_bytes_not_characters() {
    let response = Response::at(Status::OK, "日本", true, Date::from_timestamp(0));

    assert_eq!(6, response.len(true));
    assert_eq!(
        "HTTP/1.1 200 OK\r\nContent-Length: 6\r\nContent-Type: application/json\r\n\r\n日本",
        response.to_string()
    );
}

#[test]
fn is_empty_only_for_empty_raw_content() {
    let empty = Response::ok("", true);
    assert!(empty.is_empty(true));
    assert!(!empty.is_empty(false));

    let full = Response::ok("x", true);
    assert!(!full.is_empty(true));
    assert!(!full.is_empty(false));
}

#[test]
fn fixed_responses_render_alike_when_made_at_the_same_time() {
    let first = Response::at(Status::NotFound, &Response::not_found().content, false, Date::from_timestamp(7));
    let second = Response::at(Status::NotFound, &Response::not_found().content, false, Date::from_timestamp(7));

    assert_eq!(first.to_string(), second.to_string());
    assert_eq!(first.render_body(false), second.render_body(false));
    assert_eq!(first, second);
}

#[test]
fn fixed_responses_keep_their_content_across_calls() {
    assert_eq!(Response::not_found().content, Response::not_found().content);
    assert_eq!(Response::bad_request().content, Response::bad_request().content);
    assert_eq!(
        Response::unprocessable_entity().content,
        Response::unprocessable_entity().content
    );
    assert_eq!(Response::server_error().content, Response::server_error().content);
    assert_eq!(Response::not_found().render_body(true), Response::not_found().render_body(true));
}

#[test]
fn content_is_not_escaped() {
    let response = Response::at(Status::OK, "say \"hi\"", false, Date::from_timestamp(0));

    assert_eq!(
        "{\"content\":say \"hi\",\"status\":\"200 OK\",\"time\":\"1970-01-01T00:00:00\"}",
        response.render_body(false)
    );
}

#[test]
fn new_response_reads_the_clock() {
    let response = Response::new(Status::ServerError, "x", true);

    assert_eq!(Status::ServerError, response.status);
    assert_eq!("x", response.content);
    assert!(response.time.timestamp > 1_600_000_000);
    assert_eq!(Date::from_timestamp(response.time.timestamp), response.time);
}
