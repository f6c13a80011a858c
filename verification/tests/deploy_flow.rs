use hello_faas::deploy::{
    new_function_id, Deploy, DeployAction, DeployEvent, DeployPhase, PortAllocator,
};
use hello_faas::invoke::{route_forward_path, route_function_id};
use hello_faas::records::DeployedFunction;
use hello_faas::reply::Failure;

fn is_uuid_v4_text(s: &str) -> bool {
    let cs: Vec<char> = s.chars().collect();
    cs.len() == 36
        && cs.iter().enumerate().all(|(i, c)| {
            if i == 8 || i == 13 || i == 18 || i == 23 {
                *c == '-'
            } else {
                c.is_ascii_digit() || ('a'..='f').contains(c)
            }
        })
        && cs[14] == '4'
        && "89ab".contains(cs[19])
}

fn record(id: &str) -> DeployedFunction {
    DeployedFunction {
        id: id.to_string(),
        created_at: 1,
        updated_at: 1,
        invoked_at: 1,
        container_id: None,
        exposed_port: None,
    }
}

#[test]
fn fresh_ids_are_random_uuid_texts() {
    let a = new_function_id();
    let b = new_function_id();
    assert!(is_uuid_v4_text(&a), "{}", a);
    assert!(is_uuid_v4_text(&b), "{}", b);
    assert_ne!(a, b);
}

#[test]
fn fresh_id_is_reached_through_invoke_path() {
    let id = new_function_id();
    let path = format!("/invoke/{}/api/items", id);
    assert_eq!(route_function_id(&path), Some(id.clone()));
    assert_eq!(route_forward_path(&path, &id), "/api/items");
    let bare = format!("/invoke/{}", id);
    assert_eq!(route_function_id(&bare), Some(id.clone()));
    assert_eq!(route_forward_path(&bare, &id), "");
}

#[test]
fn ports_are_handed_out_in_order() {
    let mut ports = PortAllocator::new();
    assert!(ports.can_allocate());
    assert_eq!(ports.allocate(), 8082);
    assert_eq!(ports.allocate(), 8083);
    assert_eq!(ports.allocate(), 8084);
}

#[test]
fn ports_run_out_at_the_top_of_the_range() {
    let mut ports = PortAllocator::new();
    let mut last = 0u16;
    while ports.can_allocate() {
        last = ports.allocate();
    }
    assert_eq!(last, u16::MAX);
}

#[test]
fn deploy_happy_path() {
    let (d, a) = Deploy::new("base:latest".to_string());
    assert!(matches!(a, DeployAction::ReadField));
    let (d, a) = d.step(DeployEvent::FieldRead(vec![1, 2]));
    assert!(matches!(a, DeployAction::ReadField));
    let (d, _) = d.step(DeployEvent::FieldRead(vec![]));
    let (d, _) = d.step(DeployEvent::FieldRead(vec![3]));
    let (d, a) = d.step(DeployEvent::FieldsDone);
    let id = match a {
        DeployAction::StoreBinary { function_id, content } => {
            assert_eq!(content, vec![1, 2, 3]);
            assert!(is_uuid_v4_text(&function_id));
            function_id
        }
        _ => panic!("expected the binary to be stored"),
    };
    let (d, a) = d.step(DeployEvent::BinaryStored(Ok(Some("/srv/functions/x".to_string()))));
    match a {
        DeployAction::CreateRecord { function_id } => assert_eq!(function_id, id),
        _ => panic!("expected a record"),
    }
    let (d, a) = d.step(DeployEvent::RecordCreated(Some(record("rec-1"))));
    assert!(matches!(a, DeployAction::AllocatePort));
    let (d, a) = d.step(DeployEvent::PortAllocated(8082));
    match a {
        DeployAction::CreateContainer(plan) => {
            assert_eq!(plan.image, "base:latest");
            assert_eq!(plan.name, "hello-faas-rec-1");
            assert_eq!(
                plan.labels,
                vec![
                    ("hello-faas-version".to_string(), "v1".to_string()),
                    ("function-id".to_string(), "rec-1".to_string()),
                ]
            );
            assert_eq!(plan.command, vec!["/bootstrap".to_string()]);
            assert_eq!(plan.host_port, 8082);
            assert_eq!(plan.binary_mount, "/srv/functions/x:/bootstrap");
            assert_eq!(plan.container_port, 8080);
        }
        _ => panic!("expected a container"),
    }
    let (d, a) = d.step(DeployEvent::ContainerCreated(Some("cont-7".to_string())));
    match a {
        DeployAction::UpdateRecord { function_id, container_id, port } => {
            assert_eq!(function_id, "rec-1");
            assert_eq!(container_id, "cont-7");
            assert_eq!(port, 8082);
        }
        _ => panic!("expected an update"),
    }
    let (d, a) = d.step(DeployEvent::RecordUpdated(true));
    assert!(matches!(d.phase, DeployPhase::Finished));
    match a {
        DeployAction::Reply(Ok(id)) => assert_eq!(id, "rec-1"),
        _ => panic!("expected success"),
    }
}

#[test]
fn deploy_non_utf8_binary_path_becomes_empty() {
    let (d, _) = Deploy::new("img".to_string());
    let (d, _) = d.step(DeployEvent::FieldsDone);
    let (d, _) = d.step(DeployEvent::BinaryStored(Ok(None)));
    let (d, _) = d.step(DeployEvent::RecordCreated(Some(record("r"))));
    let (_, a) = d.step(DeployEvent::PortAllocated(9000));
    match a {
        DeployAction::CreateContainer(plan) => assert_eq!(plan.binary_mount, ":/bootstrap"),
        _ => panic!("expected a container"),
    }
}

fn failure_of(a: DeployAction) -> Failure {
    match a {
        DeployAction::Reply(Err(f)) => f,
        _ => panic!("expected a failure"),
    }
}

#[test]
fn deploy_failures() {
    let (d, _) = Deploy::new("img".to_string());
    let (d, _) = d.step(DeployEvent::FieldRead(vec![1]));
    let (d, a) = d.step(DeployEvent::MultipartFailed);
    assert!(matches!(d.phase, DeployPhase::Finished));
    assert_eq!(failure_of(a), Failure::BadRequest);

    let (d, _) = Deploy::new("img".to_string());
    let (d, _) = d.step(DeployEvent::FieldsDone);
    let (_, a) = d.step(DeployEvent::BinaryStored(Err(())));
    assert_eq!(failure_of(a), Failure::InternalServerError);

    let (d, _) = Deploy::new("img".to_string());
    let (d, _) = d.step(DeployEvent::FieldsDone);
    let (d, _) = d.step(DeployEvent::BinaryStored(Ok(Some("p".to_string()))));
    let (_, a) = d.step(DeployEvent::RecordCreated(None));
    assert_eq!(failure_of(a), Failure::InternalServerError);

    let (d, _) = Deploy::new("img".to_string());
    let (d, _) = d.step(DeployEvent::FieldsDone);
    let (d, _) = d.step(DeployEvent::BinaryStored(Ok(Some("p".to_string()))));
    let (d, _) = d.step(DeployEvent::RecordCreated(Some(record("r"))));
    let (d, _) = d.step(DeployEvent::PortAllocated(8082));
    let (_, a) = d.step(DeployEvent::ContainerCreated(None));
    assert_eq!(failure_of(a), Failure::InternalServerError);

    let (d, _) = Deploy::new("img".to_string());
    let (d, _) = d.step(DeployEvent::FieldsDone);
    let (d, _) = d.step(DeployEvent::BinaryStored(Ok(Some("p".to_string()))));
    let (d, _) = d.step(DeployEvent::RecordCreated(Some(record("r"))));
    let (d, _) = d.step(DeployEvent::PortAllocated(8082));
    let (d, _) = d.step(DeployEvent::ContainerCreated(Some("c".to_string())));
    let (_, a) = d.step(DeployEvent::RecordUpdated(false));
    assert_eq!(failure_of(a), Failure::InternalServerError);

    // an event out of order
    let (d, _) = Deploy::new("img".to_string());
    let (_, a) = d.step(DeployEvent::PortAllocated(1));
    assert_eq!(failure_of(a), Failure::InternalServerError);
}
