use ss_proxy::routing::{dispatch, forward_path, Route};

fn forward(session_id: &str, rest: &str) -> Route {
    Route::Forward { session_id: session_id.to_string(), rest: rest.to_string() }
}

#[test]
fn forward_path_of_an_empty_rest() {
    assert_eq!(forward_path("", None), "/");
}

#[test]
fn forward_path_gets_a_leading_slash() {
    assert_eq!(forward_path("foo", None), "/foo");
}

#[test]
fn forward_path_keeps_a_leading_slash_and_the_query() {
    assert_eq!(forward_path("/foo", Some("a=1")), "/foo?a=1");
}

#[test]
fn forward_path_of_an_empty_rest_with_a_query() {
    assert_eq!(forward_path("", Some("x=1")), "/?x=1");
}

#[test]
fn forward_path_leaves_the_query_as_it_came() {
    assert_eq!(forward_path("a/b", Some("q=a%20b&r=?/#")), "/a/b?q=a%20b&r=?/#");
    assert_eq!(forward_path("items", Some("")), "/items?");
    assert_eq!(forward_path("//x", None), "//x");
}

#[test]
fn the_probe_route() {
    assert_eq!(dispatch("GET", "/health"), Route::Health);
    assert_eq!(dispatch("POST", "/health"), Route::MethodNotAllowed);
    assert_eq!(dispatch("get", "/health"), Route::MethodNotAllowed);
}

#[test]
fn the_upgrade_route() {
    assert_eq!(dispatch("GET", "/ws/s1"), Route::Upgrade { session_id: "s1".to_string() });
    assert_eq!(dispatch("POST", "/ws/s1"), Route::MethodNotAllowed);
    assert_eq!(
        dispatch("GET", "/ws/test-ws"),
        Route::Upgrade { session_id: "test-ws".to_string() }
    );
}

#[test]
fn the_forward_route() {
    assert_eq!(dispatch("GET", "/s1/items"), forward("s1", "items"));
    assert_eq!(dispatch("DELETE", "/s1/a/b/c"), forward("s1", "a/b/c"));
    assert_eq!(dispatch("POST", "/test-http/post"), forward("test-http", "post"));
    assert_eq!(dispatch("GET", "/s1/"), forward("s1", ""));
    assert_eq!(dispatch("GET", "/s1//x"), forward("s1", "/x"));
}

#[test]
fn paths_beside_the_fixed_routes_are_forwarded() {
    assert_eq!(dispatch("GET", "/health/x"), forward("health", "x"));
    assert_eq!(dispatch("PUT", "/ws/a/b"), forward("ws", "a/b"));
    assert_eq!(dispatch("GET", "/ws/"), forward("ws", ""));
    assert_eq!(dispatch("GET", "/wsx/y"), forward("wsx", "y"));
}

#[test]
fn paths_that_are_no_route() {
    assert_eq!(dispatch("GET", ""), Route::NotFound);
    assert_eq!(dispatch("GET", "/"), Route::NotFound);
    assert_eq!(dispatch("GET", "//"), Route::NotFound);
    assert_eq!(dispatch("GET", "//x"), Route::NotFound);
    assert_eq!(dispatch("GET", "/s1"), Route::NotFound);
    assert_eq!(dispatch("GET", "/ws"), Route::NotFound);
    assert_eq!(dispatch("GET", "s1/items"), Route::NotFound);
    assert_eq!(dispatch("GET", "/healthy"), Route::NotFound);
}

#[test]
fn escapes_in_the_path_are_resolved() {
    assert_eq!(dispatch("GET", "/s1/a%20b"), forward("s1", "a b"));
    assert_eq!(dispatch("GET", "/s%31/items"), forward("s1", "items"));
    assert_eq!(dispatch("GET", "/a%2Fb/c%2fd"), forward("a/b", "c/d"));
    assert_eq!(dispatch("GET", "/s1/caf%C3%A9"), forward("s1", "café"));
    assert_eq!(dispatch("GET", "/s1/100%"), forward("s1", "100%"));
    assert_eq!(dispatch("GET", "/s1/%zz%4"), forward("s1", "%zz%4"));
    assert_eq!(dispatch("GET", "/s1/%3Fq"), forward("s1", "?q"));
    assert_eq!(dispatch("GET", "/ws/test%2Dws"), Route::Upgrade { session_id: "test-ws".to_string() });
}

#[test]
fn the_path_is_matched_before_its_escapes_are_resolved() {
    assert_eq!(dispatch("GET", "/%68ealth"), Route::NotFound);
    assert_eq!(dispatch("GET", "/s1%2Fitems"), Route::NotFound);
    assert_eq!(dispatch("GET", "/%77s/s1"), forward("ws", "s1"));
}

#[test]
fn escapes_that_are_not_utf8_are_a_bad_request() {
    assert_eq!(dispatch("GET", "/s1/%ff"), Route::BadRequest);
    assert_eq!(dispatch("GET", "/s%C3/items"), Route::BadRequest);
    assert_eq!(dispatch("GET", "/ws/%80"), Route::BadRequest);
    assert_eq!(dispatch("POST", "/ws/%80"), Route::MethodNotAllowed);
}
