use workbench::messages::{
    clear, host, index, post, post_error, AppState, MessageApp, MessageLog, PostInput,
    ServerCounter, BAD_REQUEST, JSON_LIMIT, WORKERS,
};

#[test]
fn server_ids_count_up_from_zero() {
    let mut counter = ServerCounter::new();
    let mut seen = Vec::new();
    for _ in 0..WORKERS {
        seen.push(AppState::new(&mut counter).server_id());
    }
    assert_eq!(seen, vec![0, 1, 2, 3, 4, 5, 6, 7]);
    assert_eq!(counter.fetch_add(), 8);
    assert_eq!(counter.fetch_add(), 9);
}

#[test]
fn server_ids_are_unique() {
    let mut counter = ServerCounter::new();
    let mut seen: Vec<usize> = Vec::new();
    for _ in 0..1000 {
        let id = counter.fetch_add();
        assert!(!seen.contains(&id));
        seen.push(id);
    }
}

#[test]
fn each_worker_counts_its_own_requests() {
    let mut counter = ServerCounter::new();
    let mut first = AppState::new(&mut counter);
    let mut second = AppState::new(&mut counter);
    let mut log = MessageLog::new();
    assert_eq!(first.request_count(), 0);
    assert_eq!(index(&mut first, &log).request_count, 1);
    assert_eq!(index(&mut first, &log).request_count, 2);
    assert_eq!(clear(&mut first, &mut log).request_count, 3);
    let answer = index(&mut second, &log);
    assert_eq!(answer.request_count, 1);
    assert_eq!(answer.server_id, 1);
    assert_eq!(first.request_count(), 3);
    assert_eq!(second.request_count(), 1);
    assert_eq!(first.server_id(), 0);
}

#[test]
fn posted_messages_are_kept_in_order() {
    let mut counter = ServerCounter::new();
    let mut one = AppState::new(&mut counter);
    let mut two = AppState::new(&mut counter);
    let mut log = MessageLog::new();
    let hello = PostInput {
        message: "hello".to_string(),
    };
    let world = PostInput {
        message: "world".to_string(),
    };
    let answer = post(&hello, &mut one, &mut log);
    assert_eq!(answer.message, "hello");
    assert_eq!(answer.server_id, 0);
    assert_eq!(answer.request_count, 1);
    let answer = post(&world, &mut two, &mut log);
    assert_eq!(answer.message, "world");
    assert_eq!(answer.server_id, 1);
    assert_eq!(answer.request_count, 1);
    post(&hello, &mut one, &mut log);
    assert_eq!(log.len(), 3);
    let answer = index(&mut two, &log);
    assert_eq!(answer.messages, vec!["hello", "world", "hello"]);
    assert_eq!(answer.request_count, 2);
}

#[test]
fn clearing_empties_the_log() {
    let mut counter = ServerCounter::new();
    let mut state = AppState::new(&mut counter);
    let mut log = MessageLog::new();
    log.append("a".to_string());
    log.append("b".to_string());
    let answer = clear(&mut state, &mut log);
    assert!(answer.messages.is_empty());
    assert_eq!(answer.server_id, 0);
    assert_eq!(log.len(), 0);
    assert!(index(&mut state, &log).messages.is_empty());
    log.append("c".to_string());
    assert_eq!(log.snapshot(), vec!["c"]);
}

#[test]
fn a_snapshot_does_not_follow_the_log() {
    let mut log = MessageLog::new();
    log.append("first".to_string());
    let snapshot = log.snapshot();
    log.append("second".to_string());
    assert_eq!(snapshot, vec!["first"]);
    assert_eq!(log.snapshot(), vec!["first", "second"]);
    log.clear();
    assert_eq!(snapshot, vec!["first"]);
}

#[test]
fn a_bad_post_is_counted_and_answered_with_its_error() {
    let mut counter = ServerCounter::new();
    counter.fetch_add();
    let mut state = AppState::new(&mut counter);
    let answer = post_error("Json deserialize error: EOF".to_string(), &mut state);
    assert_eq!(answer.server_id, 1);
    assert_eq!(answer.request_count, 1);
    assert_eq!(answer.error, "Json deserialize error: EOF");
    assert_eq!(state.request_count(), 1);
    assert_eq!(BAD_REQUEST, 400);
}

#[test]
fn the_message_server_has_its_settings() {
    let app = MessageApp::new(8080);
    assert_eq!(app.port(), 8080);
    assert_eq!(MessageApp::new(0).port(), 0);
    assert_eq!(host(), "127.0.0.1");
    assert_eq!(WORKERS, 8);
    assert_eq!(JSON_LIMIT, 4096);
}
