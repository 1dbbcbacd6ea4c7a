use gst_dots_viewer::catalog::CatalogEntry;
use gst_dots_viewer::hub::{Fanout, Hub};
use gst_dots_viewer::registry::{ClientHandle, ClientType, RegistryError};
use gst_dots_viewer::watcher::{Observation, RawEventKind};
use gst_dots_viewer::wire::{IncomingMessage, IncomingMessageType, ProtocolError, TextMessage};

const A: ClientHandle = ClientHandle(1);
const B: ClientHandle = ClientHandle(2);
const C: ClientHandle = ClientHandle(3);

fn seen(name: &str, content: Option<&str>, modified: Option<u64>) -> Observation {
    Observation { name: name.to_string(), content: content.map(|c| c.to_string()), modified }
}

fn entry(name: &str, modified: u64, content: &str) -> CatalogEntry {
    CatalogEntry { name: name.to_string(), modified, content: Some(content.to_string()) }
}

fn texts(fanout: &Fanout) -> Vec<&str> {
    fanout.frames.iter().map(|f| f.0.as_str()).collect()
}

/// Carries a fan-out out: appends its frames to the inbox of each addressee.
fn deliver(inboxes: &mut Vec<(ClientHandle, Vec<String>)>, fanout: &Fanout) {
    for to in &fanout.to {
        if !inboxes.iter().any(|(h, _)| h == to) {
            inboxes.push((*to, Vec::new()));
        }
        for (h, inbox) in inboxes.iter_mut() {
            if h == to {
                inbox.extend(fanout.frames.iter().map(|f| f.0.clone()));
            }
        }
    }
}

fn inbox_of(inboxes: &[(ClientHandle, Vec<String>)], handle: ClientHandle) -> Vec<String> {
    inboxes.iter().find(|(h, _)| *h == handle).map(|(_, i)| i.clone()).unwrap_or_default()
}

#[test]
fn viewer_in_empty_directory_receives_new_dot_exactly_once() {
    let mut hub = Hub::new(false);
    let mut inboxes = Vec::new();
    let sent = hub.add_client(A, ClientType::Viewer, Vec::new()).expect("connect");
    assert_eq!(sent.to, vec![A]);
    assert!(sent.frames.is_empty());
    deliver(&mut inboxes, &sent);

    let sent = hub.publish(RawEventKind::Create, vec![seen("a.dot", Some("digraph{}"), Some(42))]);
    deliver(&mut inboxes, &sent);

    assert_eq!(
        inbox_of(&inboxes, A),
        vec![
            "{\"type\":\"NewDot\",\"name\":\"a.dot\",\"content\":\"digraph{}\",\"creation_time\":42}"
                .to_string()
        ]
    );
}

#[test]
fn removal_reaches_the_connected_viewers_and_not_a_later_one() {
    let mut hub = Hub::new(false);
    let mut inboxes = Vec::new();
    let on_disk = vec![entry("a.dot", 10, "digraph{}")];
    deliver(&mut inboxes, &hub.add_client(A, ClientType::Viewer, on_disk.clone()).expect("a"));
    deliver(&mut inboxes, &hub.add_client(B, ClientType::Viewer, on_disk).expect("b"));

    let sent = hub.publish(RawEventKind::Remove, vec![seen("a.dot", None, None)]);
    assert_eq!(sent.to, vec![A, B]);
    deliver(&mut inboxes, &sent);

    deliver(&mut inboxes, &hub.add_client(C, ClientType::Viewer, Vec::new()).expect("c"));

    let removed = "{\"type\":\"DotRemoved\",\"name\":\"a.dot\",\"creation_time\":0}".to_string();
    let added =
        "{\"type\":\"NewDot\",\"name\":\"a.dot\",\"content\":\"digraph{}\",\"creation_time\":10}"
            .to_string();
    assert_eq!(inbox_of(&inboxes, A), vec![added.clone(), removed.clone()]);
    assert_eq!(inbox_of(&inboxes, B), vec![added, removed]);
    assert_eq!(inbox_of(&inboxes, C), Vec::<String>::new());
}

#[test]
fn snapshot_request_reaches_every_snapshot_client_and_no_viewer() {
    let mut hub = Hub::new(false);
    let mut inboxes = Vec::new();
    deliver(&mut inboxes, &hub.add_client(A, ClientType::Viewer, Vec::new()).expect("a"));
    deliver(&mut inboxes, &hub.add_client(B, ClientType::Snapshot, Vec::new()).expect("b"));
    deliver(&mut inboxes, &hub.add_client(C, ClientType::Snapshot, Vec::new()).expect("c"));

    // The frame comes from the snapshot session B itself.
    let sent = hub.handle_text("{\"type\":\"Snapshot\"}");
    assert_eq!(sent.to, vec![B, C]);
    deliver(&mut inboxes, &sent);

    assert_eq!(inbox_of(&inboxes, B), vec!["{\"type\":\"Snapshot\"}".to_string()]);
    assert_eq!(inbox_of(&inboxes, C), vec!["{\"type\":\"Snapshot\"}".to_string()]);
    assert_eq!(inbox_of(&inboxes, A), Vec::<String>::new());
}

#[test]
fn hello_and_bad_frames_send_nothing() {
    let mut hub = Hub::new(false);
    hub.add_client(A, ClientType::Viewer, Vec::new()).expect("a");
    hub.add_client(B, ClientType::Snapshot, Vec::new()).expect("b");
    for text in ["{\"type\":\"Hello\"}", "not json", "{}", "{\"type\":\"Bye\"}", "{\"type\":3}"] {
        let sent = hub.handle_text(text);
        assert!(sent.to.is_empty(), "{text}");
        assert!(sent.frames.is_empty(), "{text}");
    }
    // The sessions are still connected.
    assert_eq!(hub.role_of(A), Some(ClientType::Viewer));
    assert_eq!(hub.role_of(B), Some(ClientType::Snapshot));
}

#[test]
fn react_acts_on_snapshot_requests_only() {
    let mut hub = Hub::new(false);
    hub.add_client(B, ClientType::Snapshot, Vec::new()).expect("b");
    let sent = hub.react(Ok(IncomingMessage { type_: IncomingMessageType::Snapshot }));
    assert_eq!(sent.to, vec![B]);
    assert_eq!(texts(&sent), vec!["{\"type\":\"Snapshot\"}"]);
    for message in [
        Ok(IncomingMessage { type_: IncomingMessageType::Hello }),
        Err(ProtocolError::Malformed),
        Err(ProtocolError::UnknownType),
    ] {
        let sent = hub.react(message);
        assert!(sent.to.is_empty());
        assert!(sent.frames.is_empty());
    }
}

#[test]
fn new_viewer_receives_the_catalog_oldest_first_before_live_events() {
    let mut hub = Hub::new(false);
    let mut inboxes = Vec::new();
    let on_disk = vec![
        entry("late.dot", 30, "digraph{l}"),
        entry("early.dot", 10, "digraph{e}"),
        entry("empty.dot", 15, ""),
        entry("notes.txt", 5, "text"),
        entry("middle.dot", 20, "digraph{m}"),
    ];
    let sent = hub.add_client(A, ClientType::Viewer, on_disk).expect("connect");
    assert_eq!(sent.to, vec![A]);
    deliver(&mut inboxes, &sent);
    deliver(
        &mut inboxes,
        &hub.publish(RawEventKind::Rename, vec![seen("live.dot", Some("digraph{x}"), Some(1))]),
    );
    assert_eq!(
        inbox_of(&inboxes, A),
        vec![
            "{\"type\":\"NewDot\",\"name\":\"early.dot\",\"content\":\"digraph{e}\",\"creation_time\":10}",
            "{\"type\":\"NewDot\",\"name\":\"middle.dot\",\"content\":\"digraph{m}\",\"creation_time\":20}",
            "{\"type\":\"NewDot\",\"name\":\"late.dot\",\"content\":\"digraph{l}\",\"creation_time\":30}",
            "{\"type\":\"NewDot\",\"name\":\"live.dot\",\"content\":\"digraph{x}\",\"creation_time\":1}",
        ]
    );
}

#[test]
fn the_catalog_goes_to_the_new_viewer_alone() {
    let mut hub = Hub::new(false);
    hub.add_client(A, ClientType::Viewer, Vec::new()).expect("a");
    let sent = hub.add_client(B, ClientType::Viewer, vec![entry("a.dot", 1, "g")]).expect("b");
    assert_eq!(sent.to, vec![B]);
    assert_eq!(sent.frames.len(), 1);
}

#[test]
fn a_snapshot_client_is_sent_no_catalog() {
    let mut hub = Hub::new(false);
    let sent = hub.add_client(B, ClientType::Snapshot, vec![entry("a.dot", 1, "g")]).expect("b");
    assert!(sent.to.is_empty());
    assert!(sent.frames.is_empty());
    assert_eq!(hub.role_of(B), Some(ClientType::Snapshot));
}

#[test]
fn list_dots_addresses_one_session() {
    let sent = Hub::list_dots(C, vec![entry("b.dot", 2, "b"), entry("a.dot", 1, "a")]);
    assert_eq!(sent.to, vec![C]);
    assert_eq!(
        texts(&sent),
        vec![
            "{\"type\":\"NewDot\",\"name\":\"a.dot\",\"content\":\"a\",\"creation_time\":1}",
            "{\"type\":\"NewDot\",\"name\":\"b.dot\",\"content\":\"b\",\"creation_time\":2}",
        ]
    );
}

#[test]
fn connecting_under_the_other_role_is_refused() {
    let mut hub = Hub::new(false);
    hub.add_client(A, ClientType::Viewer, Vec::new()).expect("a");
    let refused = hub.add_client(A, ClientType::Snapshot, Vec::new());
    assert_eq!(refused, Err(RegistryError::RoleConflict));
    assert_eq!(hub.role_of(A), Some(ClientType::Viewer));
}

#[test]
fn broadcast_stays_within_the_role() {
    let mut hub = Hub::new(false);
    hub.add_client(A, ClientType::Viewer, Vec::new()).expect("a");
    hub.add_client(B, ClientType::Snapshot, Vec::new()).expect("b");
    hub.add_client(C, ClientType::Viewer, Vec::new()).expect("c");

    let to_viewers = hub.send(TextMessage("v".to_string()), ClientType::Viewer);
    assert_eq!(to_viewers.to, vec![A, C]);
    assert_eq!(to_viewers.frames, vec![TextMessage("v".to_string())]);

    let to_triggers = hub.send(TextMessage("s".to_string()), ClientType::Snapshot);
    assert_eq!(to_triggers.to, vec![B]);
    assert_eq!(to_triggers.frames, vec![TextMessage("s".to_string())]);
}

#[test]
fn events_go_to_viewers_only() {
    let mut hub = Hub::new(false);
    hub.add_client(B, ClientType::Snapshot, Vec::new()).expect("b");
    let sent = hub.publish(RawEventKind::Create, vec![seen("a.dot", Some("g"), Some(1))]);
    assert!(sent.to.is_empty());
    hub.add_client(A, ClientType::Viewer, Vec::new()).expect("a");
    let sent = hub.publish(RawEventKind::Create, vec![seen("a.dot", Some("g"), Some(1))]);
    assert_eq!(sent.to, vec![A]);
    assert_eq!(sent.frames.len(), 1);
}

#[test]
fn modification_and_empty_files_publish_no_frame() {
    let mut hub = Hub::new(false);
    hub.add_client(A, ClientType::Viewer, Vec::new()).expect("a");
    let sent = hub.publish(RawEventKind::Modify, vec![seen("a.dot", Some("digraph{}"), Some(1))]);
    assert!(sent.frames.is_empty());
    let sent = hub.publish(RawEventKind::Create, vec![seen("a.dot", Some(""), Some(1))]);
    assert!(sent.frames.is_empty());
}

#[test]
fn a_process_started_to_show_something_ends_with_its_last_session() {
    let mut hub = Hub::new(true);
    hub.add_client(A, ClientType::Viewer, Vec::new()).expect("a");
    hub.add_client(B, ClientType::Snapshot, Vec::new()).expect("b");
    assert!(!hub.remove_client(A));
    assert!(hub.remove_client(B));
}

#[test]
fn a_plain_server_never_ends_on_disconnect() {
    let mut hub = Hub::new(false);
    hub.add_client(A, ClientType::Viewer, Vec::new()).expect("a");
    assert!(!hub.remove_client(A));
    assert!(!hub.remove_client(A));
}

#[test]
fn disconnecting_twice_is_disconnecting_once() {
    let mut hub = Hub::new(false);
    hub.add_client(A, ClientType::Viewer, Vec::new()).expect("a");
    hub.add_client(B, ClientType::Viewer, Vec::new()).expect("b");
    hub.remove_client(A);
    let once = hub.send(TextMessage("x".to_string()), ClientType::Viewer).to;
    hub.remove_client(A);
    let twice = hub.send(TextMessage("x".to_string()), ClientType::Viewer).to;
    assert_eq!(once, vec![B]);
    assert_eq!(once, twice);
    assert_eq!(hub.role_of(A), None);
}

#[test]
fn nothing_is_an_empty_fanout() {
    let nothing = Fanout::nothing();
    assert!(nothing.to.is_empty());
    assert!(nothing.frames.is_empty());
}
