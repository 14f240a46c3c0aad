use agent_browser::mcp::{
    handle_initialize, InitializeParams, RequestId, Route, ServerSession, ERR_INVALID_PARAMS, MCP_PROTOCOL_VERSION,
    SERVER_VERSION,
};
use agent_browser::calendar::rfc3339_millis;
use agent_browser::tasks::{TaskStatus, TaskStore};

fn initialize_params() -> InitializeParams {
    InitializeParams {
        protocol_version: Some(MCP_PROTOCOL_VERSION.to_string()),
        client_name: Some("test".to_string()),
        client_version: Some("1.0".to_string()),
        has_capabilities: true,
    }
}

#[test]
fn initialize_echoes_request_id() {
    let id = Some(RequestId::Number(7));
    let response = handle_initialize(id.clone(), Some(initialize_params()));
    assert_eq!(response.id, id);
    assert!(response.result.is_some());
    assert!(response.error.is_none());
    let result = response.result.unwrap();
    assert_eq!(result.protocol_version, MCP_PROTOCOL_VERSION);
    assert_eq!(result.server_info.unwrap().version, SERVER_VERSION);
    let tasks = result.capabilities.tasks.unwrap();
    assert!(tasks.list && tasks.cancel && tasks.tool_calls);
}

#[test]
fn initialize_rejects_invalid_params() {
    let empty = InitializeParams { protocol_version: None, client_name: None, client_version: None, has_capabilities: false };
    let response = handle_initialize(Some(RequestId::Number(8)), Some(empty));
    assert_eq!(response.id, Some(RequestId::Number(8)));
    let error = response.error.unwrap();
    assert_eq!(error.code, ERR_INVALID_PARAMS);
    assert_eq!(error.message, "Missing or invalid initialize params");
    let missing = handle_initialize(Some(RequestId::Text("a".to_string())), None);
    assert_eq!(missing.id, Some(RequestId::Text("a".to_string())));
    assert!(missing.result.is_none());
}

#[test]
fn task_methods_are_served() {
    let mut session = ServerSession::new();
    session.notify("notifications/initialized");
    assert!(matches!(session.route("tasks/get"), Route::TasksGet));
    assert!(matches!(session.route("tasks/list"), Route::TasksList));
    assert!(matches!(session.route("tasks/result"), Route::TasksResult));
    assert!(matches!(session.route("tasks/cancel"), Route::TasksCancel));
}

#[test]
fn tasks_run_finish_and_report() {
    let mut store: TaskStore<String> = TaskStore::new();
    let a = store.create(Some(600_000), 1_000);
    let b = store.create(None, 2_000);
    assert_eq!(a, "task-1");
    assert_eq!(b, "task-2");
    let info = store.get(&a).unwrap();
    assert_eq!(info.status, TaskStatus::Working);
    assert_eq!(info.ttl_ms, Some(600_000));
    assert_eq!(info.created_at_ms, 1_000);
    assert!(matches!(store.result(&a), Ok(None)));
    assert!(store.finish(&a, "done".to_string(), false, 1_500));
    assert_eq!(store.result(&a).unwrap(), Some(&"done".to_string()));
    assert_eq!(store.get(&a).unwrap().status, TaskStatus::Completed);
    assert_eq!(store.get(&a).unwrap().updated_at_ms, 1_500);
    assert!(!store.finish(&a, "again".to_string(), true, 1_600));
    assert_eq!(store.result(&a).unwrap(), Some(&"done".to_string()));
    let list = store.list();
    assert_eq!(list.len(), 2);
    assert_eq!(list[0].task_id, "task-1");
    assert_eq!(list[1].task_id, "task-2");
    assert_eq!(TaskStatus::Failed.as_str(), "failed");
}

#[test]
fn cancelled_tasks_keep_no_result() {
    let mut store: TaskStore<String> = TaskStore::new();
    let a = store.create(None, 0);
    let info = store.cancel(&a, 5).unwrap();
    assert_eq!(info.status, TaskStatus::Cancelled);
    assert_eq!(info.updated_at_ms, 5);
    assert!(!store.finish(&a, "late".to_string(), false, 6));
    match store.result(&a) {
        Err(e) => {
            assert_eq!(e.code, ERR_INVALID_PARAMS);
            assert_eq!(e.message, "Task was cancelled: task-1");
        }
        Ok(_) => panic!("cancelled"),
    }
    match store.cancel(&a, 7) {
        Err(e) => assert_eq!(e.message, "Cannot cancel task: already in terminal status 'cancelled'"),
        Ok(_) => panic!("already cancelled"),
    }
    match store.get("task-9") {
        Err(e) => {
            assert_eq!(e.code, ERR_INVALID_PARAMS);
            assert_eq!(e.message, "Task not found: task-9");
        }
        Ok(_) => panic!("unknown"),
    }
}

#[test]
fn expired_tasks_are_dropped() {
    let mut store: TaskStore<String> = TaskStore::new();
    let a = store.create(Some(100), 1_000);
    let b = store.create(None, 1_000);
    let c = store.create(Some(1_000), 1_000);
    store.expire(1_100);
    assert!(store.get(&a).is_err());
    assert!(store.get(&b).is_ok());
    assert!(store.get(&c).is_ok());
    let ids: Vec<String> = store.list().into_iter().map(|t| t.task_id).collect();
    assert_eq!(ids, vec!["task-2".to_string(), "task-3".to_string()]);
}

#[test]
fn new_tasks_can_be_opened() {
    let store: TaskStore<String> = TaskStore::new();
    assert!(store.can_create());
}

#[test]
fn task_times_are_rfc3339() {
    assert_eq!(rfc3339_millis(0), "1970-01-01T00:00:00.000Z");
    assert_eq!(rfc3339_millis(951_782_400_000), "2000-02-29T00:00:00.000Z");
    assert_eq!(rfc3339_millis(1_700_000_000_123), "2023-11-14T22:13:20.123Z");
    assert_eq!(rfc3339_millis(4_107_542_399_999), "2100-02-28T23:59:59.999Z");
}
