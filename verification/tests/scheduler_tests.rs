use rrockerd::auth::ClientAuth;
use rrockerd::log::ReadOutcome;
use rrockerd::scheduler::{
    string_to_uuid, OutputChunk, OutputStream, SchedulerServer, ServiceError, TaskStatus,
};

fn client(id: &str) -> ClientAuth {
    ClientAuth {
        id: id.to_owned(),
        group: "client".to_owned(),
    }
}

fn admin(id: &str) -> ClientAuth {
    ClientAuth {
        id: id.to_owned(),
        group: "admin".to_owned(),
    }
}

fn uuid_string(handle: u128) -> String {
    uuid::Uuid::from_u128(handle).to_string()
}

#[test]
fn test_verify_access() {
    let mut server = SchedulerServer::new();
    let a1 = admin("a1");
    let c1 = client("c1");
    let c2 = client("c2");

    let ent1 = server.new_task(&c1, "asd", &vec![]).unwrap();
    let ent2 = server.new_task(&c1, "foo", &vec![]).unwrap();
    let ent3 = server.new_task(&c2, "bar", &vec![]).unwrap();
    let ent4 = server.new_task(&c2, "dsa", &vec![]).unwrap();

    assert_eq!(server.verify_task_access(&a1, ent1), true);
    assert_eq!(server.verify_task_access(&a1, ent2), true);
    assert_eq!(server.verify_task_access(&a1, ent3), true);
    assert_eq!(server.verify_task_access(&a1, ent4), true);

    assert_eq!(server.verify_task_access(&c1, ent1), true);
    assert_eq!(server.verify_task_access(&c1, ent2), true);
    assert_eq!(server.verify_task_access(&c1, ent3), false);
    assert_eq!(server.verify_task_access(&c1, ent4), false);

    assert_eq!(server.verify_task_access(&c2, ent1), false);
    assert_eq!(server.verify_task_access(&c2, ent2), false);
    assert_eq!(server.verify_task_access(&c2, ent3), true);
    assert_eq!(server.verify_task_access(&c2, ent4), true);
}

#[test]
fn test_task_iter_access() {
    let mut server = SchedulerServer::new();
    let c1 = client("c1");
    let c2 = client("c2");
    let a1 = admin("a1");

    server.new_task(&c1, "asd", &vec![]).unwrap();
    assert_eq!(server.iter_tasks(&c1).len(), 1);
    assert_eq!(server.iter_tasks(&c2).len(), 0);
    assert_eq!(server.iter_tasks(&a1).len(), 1);
    server.new_task(&c2, "foo", &vec![]).unwrap();
    assert_eq!(server.iter_tasks(&c1).len(), 1);
    assert_eq!(server.iter_tasks(&c2).len(), 1);
    assert_eq!(server.iter_tasks(&a1).len(), 2);
}

#[test]
fn test_task_iter() {
    let mut server = SchedulerServer::new();
    let c1 = client("c1");

    let key1 = server.new_task(&c1, "asd", &vec![]).unwrap();
    server.new_task(&c1, "foo", &vec![]).unwrap();

    // The snapshot internally holds both handles; removing one before
    // the point lookups must not end the iteration prematurely.
    let snapshot = server.snapshot_handles(&c1);
    server.remove_task(key1);

    assert_eq!(server.resolve_handles(&snapshot).len(), 1);
}

#[test]
fn lookup_of_foreign_task_is_indistinguishable_from_absence() {
    let mut server = SchedulerServer::new();
    let c1 = client("c1");
    let c2 = client("c2");

    let handle = server.new_task(&c1, "sleep", &vec!["1".to_owned()]).unwrap();

    // A well-formed handle of another principal's task.
    let foreign = server
        .query_task(&c2, &uuid_string(handle))
        .unwrap_err();
    // A well-formed handle that names no task at all.
    let absent = server
        .query_task(&c2, &uuid_string(handle.wrapping_add(1)))
        .unwrap_err();

    assert!(matches!(foreign, ServiceError::InvalidTaskHandle));
    assert!(matches!(absent, ServiceError::InvalidTaskHandle));
    assert_eq!(foreign.message(), "Invalid task handle".to_owned());
    assert_eq!(absent.message(), foreign.message());
}

#[test]
fn malformed_uuid_is_rejected_with_the_documented_message() {
    let mut server = SchedulerServer::new();
    let c1 = client("c1");
    server.new_task(&c1, "sleep", &vec![]).unwrap();

    let err = server.stop_task(&c1, "not-a-uuid").unwrap_err();
    assert!(matches!(err, ServiceError::InvalidUuidFormat));
    assert_eq!(
        err.message(),
        "TaskHandle.uuid is not a valid UUIDv4".to_owned()
    );
}

#[test]
fn admin_can_query_any_task_as_running() {
    let mut server = SchedulerServer::new();
    let c1 = client("c1");
    let a1 = admin("a1");

    let handle = server.new_task(&c1, "sleep", &vec!["1".to_owned()]).unwrap();

    let state = server.query_task(&a1, &uuid_string(handle)).unwrap();
    assert!(matches!(state.status, TaskStatus::Running));
    assert_eq!(state.code, 0);
}

#[test]
fn stop_task_removes_the_task() {
    let mut server = SchedulerServer::new();
    let c1 = client("c1");

    let handle = server.new_task(&c1, "sleep", &vec![]).unwrap();
    server.stop_task(&c1, &uuid_string(handle)).unwrap();

    let err = server.query_task(&c1, &uuid_string(handle)).unwrap_err();
    assert!(matches!(err, ServiceError::InvalidTaskHandle));
}

#[test]
fn output_stream_replays_chunks_and_ends_on_close() {
    let mut server = SchedulerServer::new();
    let c1 = client("c1");
    let handle = server.new_task(&c1, "echo", &vec![]).unwrap();
    let handle_str = uuid_string(handle);

    {
        let task = server.lookup_task_mut(&c1, handle).unwrap();
        task.log.write(OutputChunk {
            line: "hello\n".to_owned(),
            stream: OutputStream::Stdout,
        });
        task.log.write(OutputChunk {
            line: "warn\n".to_owned(),
            stream: OutputStream::Stderr,
        });
        task.log.close();
    }

    let mut reader = server.task_output_stream(&c1, &handle_str).unwrap();
    let task = server.lookup_task(&c1, handle).unwrap();
    match reader.read_next(task.log.state()) {
        ReadOutcome::Ready(chunk) => {
            assert_eq!(chunk.line, "hello\n".to_owned());
            assert!(matches!(chunk.stream, OutputStream::Stdout));
        }
        _ => panic!("expected the first chunk"),
    }
    match reader.read_next(task.log.state()) {
        ReadOutcome::Ready(chunk) => {
            assert_eq!(chunk.line, "warn\n".to_owned());
            assert!(matches!(chunk.stream, OutputStream::Stderr));
        }
        _ => panic!("expected the second chunk"),
    }
    assert!(matches!(
        reader.read_next(task.log.state()),
        ReadOutcome::EndOfStream
    ));
}

#[test]
fn string_to_uuid_accepts_canonical_and_rejects_garbage() {
    assert_eq!(
        string_to_uuid("00000000-0000-0000-0000-000000000001").unwrap(),
        1u128
    );
    let roundtrip = uuid::Uuid::from_u128(0xdeadbeef).to_string();
    assert_eq!(string_to_uuid(&roundtrip).unwrap(), 0xdeadbeefu128);
    assert!(matches!(
        string_to_uuid("not-a-uuid"),
        Err(ServiceError::InvalidUuidFormat)
    ));
}

#[test]
fn missing_auth_extension_is_an_internal_error() {
    let err = rrockerd::scheduler::request_to_auth(None).unwrap_err();
    assert!(matches!(err, ServiceError::MissingAuth));
    assert_eq!(err.message(), "Missing ClientAuth extension".to_owned());

    let auth = rrockerd::scheduler::request_to_auth(Some(client("c1"))).unwrap();
    assert_eq!(auth.id, "c1".to_owned());
}

#[test]
fn start_task_handles_are_fresh_and_visible_to_their_creator() {
    let mut server = SchedulerServer::new();
    let c1 = client("c1");

    let h1 = server.start_task(&c1, "sleep", &vec!["1".to_owned()]).unwrap();
    let h2 = server.start_task(&c1, "sleep", &vec!["2".to_owned()]).unwrap();
    assert_ne!(h1, h2);

    let state = server.query_task(&c1, &uuid_string(h1)).unwrap();
    assert!(matches!(state.status, TaskStatus::Running));

    // A handle is never reissued, not even after its task is removed.
    server.stop_task(&c1, &uuid_string(h1)).unwrap();
    let h3 = server.start_task(&c1, "sleep", &vec!["3".to_owned()]).unwrap();
    assert_ne!(h3, h1);
    assert_ne!(h3, h2);
}

#[test]
fn creation_credits_the_creator_even_for_admins() {
    let mut server = SchedulerServer::new();
    let a1 = admin("a1");
    let c1 = client("c1");

    let ha = server.new_task(&a1, "asd", &vec![]).unwrap();
    // The admin's credit is in the owner index itself, not only in the
    // admin override: a non-admin caller with the same id would see it.
    let a1_as_client = ClientAuth {
        id: "a1".to_owned(),
        group: "client".to_owned(),
    };
    assert_eq!(server.verify_task_access(&a1_as_client, ha), true);
    // Another principal's owner entry is untouched by the creation.
    assert_eq!(server.verify_task_access(&c1, ha), false);
}
