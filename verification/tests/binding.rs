use minimal_api::binding::{
    argument_sources, argument_value, bind_arguments, extract_path_parameters,
    generate_unique_internal_fn_name, internal_fn_name, ArgSource,
};
use minimal_api::request::{PathParams, Request};

fn request() -> Request {
    Request::new(
        "/user/42?id=7&name=Ada",
        "POST",
        Some("the body".to_string()),
        PathParams::from_pairs(vec![("id".to_string(), "42".to_string())]),
    )
}

#[test]
fn path_parameters_are_the_names_between_braces() {
    assert_eq!(vec!["id".to_string()], extract_path_parameters("/user/{id}"));
    assert_eq!(
        vec!["a".to_string(), "b".to_string(), "a".to_string()],
        extract_path_parameters("{a}/x/{b}/{a}")
    );
    assert_eq!(vec!["".to_string()], extract_path_parameters("/{}"));
}

#[test]
fn patterns_without_placeholders_have_no_path_parameters() {
    assert_eq!(Vec::<String>::new(), extract_path_parameters("/user/id"));
    assert_eq!(Vec::<String>::new(), extract_path_parameters(""));
    assert_eq!(Vec::<String>::new(), extract_path_parameters("/a{b}/{c/d}/{"));
}

#[test]
fn arguments_named_like_placeholders_come_from_the_path() {
    assert_eq!(vec![ArgSource::PathParam], argument_sources("GET", "/user/{id}", &["id"]));
    assert_eq!(vec![ArgSource::PathParam], argument_sources("POST", "/user/{id}", &["id"]));
}

#[test]
fn first_free_argument_of_post_and_put_takes_the_body() {
    assert_eq!(
        vec![ArgSource::Body, ArgSource::PathParam, ArgSource::Query],
        argument_sources("POST", "/user/{id}", &["content", "id", "extra"])
    );
    assert_eq!(
        vec![ArgSource::PathParam, ArgSource::Body, ArgSource::Query, ArgSource::Query],
        argument_sources("PUT", "/user/{id}", &["id", "content", "a", "b"])
    );
}

#[test]
fn free_arguments_of_get_and_delete_come_from_the_query() {
    assert_eq!(
        vec![ArgSource::Query, ArgSource::PathParam, ArgSource::Query],
        argument_sources("GET", "/user/{id}", &["content", "id", "extra"])
    );
    assert_eq!(vec![ArgSource::Query], argument_sources("DELETE", "/remove", &["id"]));
    assert_eq!(vec![ArgSource::Query], argument_sources("post", "/remove", &["id"]));
}

#[test]
fn no_arguments_have_no_sources() {
    assert_eq!(Vec::<ArgSource>::new(), argument_sources("POST", "/user/{id}", &[]));
}

#[test]
fn argument_values_come_from_their_source() {
    let request = request();

    assert_eq!(Some("42".to_string()), argument_value(&request, ArgSource::PathParam, "id"));
    assert_eq!(Some("7".to_string()), argument_value(&request, ArgSource::Query, "id"));
    assert_eq!(Some("the body".to_string()), argument_value(&request, ArgSource::Body, "id"));
    assert_eq!(Some("Ada".to_string()), argument_value(&request, ArgSource::Query, "name"));
}

#[test]
fn missing_argument_values_are_none() {
    let request = Request::new("/user/42", "POST", None, PathParams::new());

    assert_eq!(None, argument_value(&request, ArgSource::PathParam, "id"));
    assert_eq!(None, argument_value(&request, ArgSource::Query, "id"));
    assert_eq!(None, argument_value(&request, ArgSource::Body, "id"));
}

#[test]
fn bound_arguments_come_in_the_order_of_the_names() {
    let request = request();

    assert_eq!(
        Some(vec!["the body".to_string(), "42".to_string(), "Ada".to_string()]),
        bind_arguments(&request, "POST", "/user/{id}", &["content", "id", "name"])
    );
    assert_eq!(
        Some(vec!["Ada".to_string(), "7".to_string()]),
        bind_arguments(&request, "GET", "/user/42", &["name", "id"])
    );
    assert_eq!(Some(Vec::new()), bind_arguments(&request, "GET", "/user/{id}", &[]));
}

#[test]
fn one_missing_argument_leaves_nothing_bound() {
    let request = request();

    assert_eq!(None, bind_arguments(&request, "GET", "/user/{id}", &["id", "missing"]));
    assert_eq!(None, bind_arguments(&request, "GET", "/user/{other}", &["other"]));

    let bodiless = Request::new("/p?content=x", "PUT", None, PathParams::new());
    assert_eq!(None, bind_arguments(&bodiless, "PUT", "/p", &["content"]));
}

#[test]
fn internal_name_holds_the_method_in_lower_case() {
    assert_eq!(
        "__http_get_handler_orig_show_user",
        generate_unique_internal_fn_name("GET", "show_user")
    );
    assert_eq!(
        "__http_delete_handler_orig_f",
        generate_unique_internal_fn_name("DELETE", "f")
    );
    assert_eq!("__http_ÄB_handler_orig_", internal_fn_name("ÄB", ""));
    assert_eq!("__http_äb_handler_orig_", generate_unique_internal_fn_name("ÄB", ""));
}
