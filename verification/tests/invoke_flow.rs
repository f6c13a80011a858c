use hello_faas::containers::ContainerSummary;
use hello_faas::invoke::{
    forward_headers, invoke_start, invoke_step, route_forward_path, route_function_id,
    upstream_uri, InvokeAction, InvokeEvent, InvokeState,
};
use hello_faas::records::DeployedFunction;
use hello_faas::reply::Failure;

fn record(id: &str, port: Option<i32>) -> DeployedFunction {
    DeployedFunction {
        id: id.to_string(),
        created_at: 0,
        updated_at: 0,
        invoked_at: 0,
        container_id: Some("c1".to_string()),
        exposed_port: port,
    }
}

fn container(id: &str, state: &str) -> ContainerSummary {
    ContainerSummary { id: id.to_string(), state: state.to_string() }
}

#[test]
fn function_id_is_third_piece_of_path() {
    assert_eq!(route_function_id("/invoke/abc/x"), Some("abc".to_string()));
    assert_eq!(route_function_id("/invoke/abc"), Some("abc".to_string()));
    assert_eq!(route_function_id("/invoke/"), Some("".to_string()));
    assert_eq!(route_function_id("/invoke"), None);
    assert_eq!(route_function_id("/"), None);
    assert_eq!(route_function_id(""), None);
    assert_eq!(route_function_id("/other/xyz/1/2"), Some("xyz".to_string()));
}

#[test]
fn forward_path_is_rest_after_invoke_prefix() {
    assert_eq!(route_forward_path("/invoke/abc/x/y", "abc"), "/x/y");
    assert_eq!(route_forward_path("/invoke/abc", "abc"), "");
    assert_eq!(route_forward_path("/invoke/abc/", "abc"), "/");
    assert_eq!(route_forward_path("/other/abc/x", "abc"), "/");
}

#[test]
fn upstream_uri_joins_port_path_and_query() {
    assert_eq!(
        upstream_uri(Some(8082), "/x", &Some("a=1&b=2".to_string())),
        "http://localhost:8082/x?a=1&b=2"
    );
    assert_eq!(upstream_uri(None, "/", &None), "http://localhost:8080/");
    assert_eq!(upstream_uri(Some(0), "", &Some(String::new())), "http://localhost:0?");
    assert_eq!(upstream_uri(Some(-5), "/p", &None), "http://localhost:-5/p");
    assert_eq!(
        upstream_uri(Some(i32::MAX), "/p", &None),
        "http://localhost:2147483647/p"
    );
}

#[test]
fn forwarded_headers_keep_named_entries_and_add_function_id() {
    let headers = vec![
        (Some("accept".to_string()), 1u8),
        (None, 2u8),
        (Some("host".to_string()), 3u8),
    ];
    let out = forward_headers(headers, 9u8);
    assert_eq!(
        out,
        vec![
            ("accept".to_string(), 1u8),
            ("host".to_string(), 3u8),
            ("x-faas-function-id".to_string(), 9u8),
        ]
    );
    let none: Vec<(Option<String>, u8)> = vec![];
    assert_eq!(forward_headers(none, 7u8), vec![("x-faas-function-id".to_string(), 7u8)]);
}

#[test]
fn invoke_without_path_or_function_is_not_found() {
    let (s, a) = invoke_start(None);
    assert!(matches!(s, InvokeState::Finished));
    assert!(matches!(a, InvokeAction::Fail(Failure::NotFound)));
    let (s, a) = invoke_start(Some(("/invoke", None)));
    assert!(matches!(s, InvokeState::Finished));
    assert!(matches!(a, InvokeAction::Fail(Failure::NotFound)));
}

#[test]
fn invoke_starts_stopped_container_then_forwards() {
    let (s, a) = invoke_start(Some(("/invoke/f1/hello", Some("q=1"))));
    match &a {
        InvokeAction::ListContainers { function_id } => assert_eq!(function_id, "f1"),
        _ => panic!("expected a listing"),
    }
    let (s, a) = invoke_step(s, InvokeEvent::ContainersListed(Some(vec![container("c9", "exited")])));
    match &a {
        InvokeAction::StartContainer { container_id } => assert_eq!(container_id, "c9"),
        _ => panic!("expected a start"),
    }
    let (s, a) = invoke_step(s, InvokeEvent::ContainerStarted(true));
    match &a {
        InvokeAction::LoadFunction { function_id } => assert_eq!(function_id, "f1"),
        _ => panic!("expected a load"),
    }
    let (s, a) = invoke_step(s, InvokeEvent::FunctionLoaded(Some(record("f1", Some(8083)))));
    match &a {
        InvokeAction::Forward { uri, function_id } => {
            assert_eq!(uri, "http://localhost:8083/hello?q=1");
            assert_eq!(function_id, "f1");
        }
        _ => panic!("expected a forward"),
    }
    let (s, a) = invoke_step(s, InvokeEvent::Forwarded(true));
    assert!(matches!(s, InvokeState::Finished));
    assert!(matches!(a, InvokeAction::Respond));
}

#[test]
fn invoke_running_container_is_not_started() {
    let (s, _) = invoke_start(Some(("/invoke/f2", None)));
    let (s, a) = invoke_step(
        s,
        InvokeEvent::ContainersListed(Some(vec![container("c1", "running"), container("c2", "exited")])),
    );
    assert!(matches!(a, InvokeAction::LoadFunction { .. }));
    let (_, a) = invoke_step(s, InvokeEvent::FunctionLoaded(Some(record("f2", None))));
    match a {
        InvokeAction::Forward { uri, .. } => assert_eq!(uri, "http://localhost:8080"),
        _ => panic!("expected a forward"),
    }
}

#[test]
fn invoke_failures() {
    // no container, or a failed listing: not found
    let (s, _) = invoke_start(Some(("/invoke/f3/", None)));
    let (_, a) = invoke_step(s, InvokeEvent::ContainersListed(Some(vec![])));
    assert!(matches!(a, InvokeAction::Fail(Failure::NotFound)));
    let (s, _) = invoke_start(Some(("/invoke/f3/", None)));
    let (_, a) = invoke_step(s, InvokeEvent::ContainersListed(None));
    assert!(matches!(a, InvokeAction::Fail(Failure::NotFound)));
    // the container does not start: internal error
    let (s, _) = invoke_start(Some(("/invoke/f3/", None)));
    let (s, _) = invoke_step(s, InvokeEvent::ContainersListed(Some(vec![container("c", "created")])));
    let (_, a) = invoke_step(s, InvokeEvent::ContainerStarted(false));
    assert!(matches!(a, InvokeAction::Fail(Failure::InternalServerError)));
    // no record: not found
    let (s, _) = invoke_start(Some(("/invoke/f3/", None)));
    let (s, _) = invoke_step(s, InvokeEvent::ContainersListed(Some(vec![container("c", "running")])));
    let (_, a) = invoke_step(s, InvokeEvent::FunctionLoaded(None));
    assert!(matches!(a, InvokeAction::Fail(Failure::NotFound)));
    // the forward fails: internal error
    let (s, _) = invoke_start(Some(("/invoke/f3/", None)));
    let (s, _) = invoke_step(s, InvokeEvent::ContainersListed(Some(vec![container("c", "running")])));
    let (s, _) = invoke_step(s, InvokeEvent::FunctionLoaded(Some(record("f3", Some(9000)))));
    let (_, a) = invoke_step(s, InvokeEvent::Forwarded(false));
    assert!(matches!(a, InvokeAction::Fail(Failure::InternalServerError)));
    // an event out of order: internal error
    let (s, _) = invoke_start(Some(("/invoke/f3/", None)));
    let (s, a) = invoke_step(s, InvokeEvent::Forwarded(true));
    assert!(matches!(s, InvokeState::Finished));
    assert!(matches!(a, InvokeAction::Fail(Failure::InternalServerError)));
}
