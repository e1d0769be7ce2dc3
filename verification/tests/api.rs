use ruggine::clock::{
    cpu_log_line, cpu_log_line_at, cpu_logging_task, cpu_logging_task_at, LogAction, LogEvent,
    CPU_LOG_PERIOD_SECS, LATEST,
};
use ruggine::connection::{
    exchange_report, forward_to_websocket, process_incoming_message, ForwardAction, ForwardEvent,
    Frame, Incoming,
};
use ruggine::http::{
    get_users, health_check, login, LoginLookup, LoginRequest, UsersFault,
    STATUS_INTERNAL_SERVER_ERROR, STATUS_OK, STATUS_UNAUTHORIZED,
};
use ruggine::link::{websocket_task, LinkAction, LinkEvent};
use ruggine::messages::{ClientMessage, GroupInfo, ServerMessage, UserDTO};

fn text(s: &str) -> String {
    s.to_string()
}

fn error(message: &str) -> ServerMessage {
    ServerMessage::Error { message: text(message) }
}

#[test]
fn health() {
    assert_eq!(health_check(), "OK");
}

#[test]
fn users_are_listed() {
    let user = |id: i32, name: &str| UserDTO { id, username: text(name) };
    let rows = vec![Some(user(1, "alice")), None, Some(user(3, "carol"))];
    assert_eq!(get_users(Ok(rows)), Ok(vec![user(1, "alice"), user(3, "carol")]));
    assert_eq!(get_users(Ok(vec![])), Ok(vec![]));
}

#[test]
fn users_that_cannot_be_read() {
    let cases = [
        (UsersFault::Lock(text("x")), "DB lock error: x"),
        (UsersFault::Prepare(text("x")), "DB error: x"),
        (UsersFault::Query(text("x")), "Query error: x"),
    ];
    for (fault, expected) in cases {
        assert_eq!(get_users(Err(fault)), Err((500, text(expected))));
    }
    assert_eq!(STATUS_INTERNAL_SERVER_ERROR, 500);
}

#[test]
fn login_goes_by_the_name_alone() {
    for password in ["", "segreto"] {
        let payload = LoginRequest { username: text("alice"), password: text(password) };
        assert_eq!(
            login(&payload, LoginLookup::Found(1)),
            (STATUS_OK, text("Login successful for alice"))
        );
        assert_eq!(
            login(&payload, LoginLookup::NotFound),
            (STATUS_UNAUTHORIZED, text("Invalid credentials"))
        );
        assert_eq!(
            login(&payload, LoginLookup::LockFailed(text("poisoned"))),
            (500, text("DB lock error: poisoned"))
        );
    }
    assert_eq!((STATUS_OK, STATUS_UNAUTHORIZED), (200, 401));
}

#[test]
fn cpu_log() {
    assert_eq!(
        cpu_log_line(1736173800, 12345, "15.23"),
        "[2025-01-06 14:30:00] PID: 12345 - CPU usage: 15.23%\n"
    );
    assert_eq!(
        cpu_log_line(0, 0, "0.00"),
        "[1970-01-01 00:00:00] PID: 0 - CPU usage: 0.00%\n"
    );
    assert_eq!(
        cpu_log_line(LATEST, 1, "100.00"),
        "[+262142-12-31 23:59:59] PID: 1 - CPU usage: 100.00%\n"
    );
    assert_eq!(cpu_log_line_at("ora", 4294967295, "1.00"), "[ora] PID: 4294967295 - CPU usage: 1.00%\n");
    let LogAction::Append(line) = cpu_logging_task(LogEvent::Tick { pid: 7, usage: text("3.50") })
    else {
        panic!("no line")
    };
    assert!(line.starts_with("[20"));
    assert!(line.ends_with("] PID: 7 - CPU usage: 3.50%\n"));
}

#[test]
fn the_cpu_log_goes_on() {
    assert_eq!(CPU_LOG_PERIOD_SECS, 120);
    let mut log = Vec::new();
    let mut waited = 0;
    for (secs, usage, writable) in [(0, "1.00", true), (120, "2.00", false), (240, "3.00", true)] {
        let event = LogEvent::Tick { pid: 1, usage: text(usage) };
        let LogAction::Append(line) = cpu_logging_task_at(event, secs) else { panic!("no line") };
        let written = if writable {
            log.push(line);
            LogEvent::Written
        } else {
            LogEvent::NotWritten
        };
        let LogAction::Wait(period) = cpu_logging_task(written) else { panic!("no wait") };
        waited += period;
    }
    assert_eq!(
        log,
        [
            "[1970-01-01 00:00:00] PID: 1 - CPU usage: 1.00%\n",
            "[1970-01-01 00:04:00] PID: 1 - CPU usage: 3.00%\n",
        ]
    );
    assert_eq!(waited, 360);
}

#[test]
fn frames() {
    assert_eq!(
        process_incoming_message(Frame::Text(Some(ClientMessage::ListGroups))),
        Incoming::Handle(ClientMessage::ListGroups)
    );
    assert_eq!(
        process_incoming_message(Frame::Text(None)),
        Incoming::Tell(error("JSON non valido"))
    );
    for frame in [Frame::Close, Frame::Failed] {
        assert_eq!(process_incoming_message(frame), Incoming::Stop);
    }
    for frame in [Frame::Binary, Frame::Ping, Frame::Other] {
        assert_eq!(process_incoming_message(frame), Incoming::Ignore);
    }
}

#[test]
fn failed_exchanges_are_reported() {
    assert_eq!(exchange_report(Ok(())), None);
    assert_eq!(
        exchange_report(Err(text("Registrazione richiesta"))),
        Some(error("Registrazione richiesta"))
    );
}

#[test]
fn forwarding() {
    assert_eq!(
        forward_to_websocket(ForwardEvent::Encoded(text("{}"))),
        ForwardAction::Send(text("{}"))
    );
    assert_eq!(forward_to_websocket(ForwardEvent::NotEncoded), ForwardAction::Next);
    assert_eq!(forward_to_websocket(ForwardEvent::Sent), ForwardAction::Next);
    assert_eq!(forward_to_websocket(ForwardEvent::NotSent), ForwardAction::Stop);
}

/// The texts that go out when messages are forwarded, of which the one at `failing` cannot be sent.
fn forward_all(messages: Vec<Option<&str>>, failing: Option<usize>) -> Vec<String> {
    let mut out = Vec::new();
    for (at, message) in messages.into_iter().enumerate() {
        let mut event = match message {
            Some(encoded) => ForwardEvent::Encoded(text(encoded)),
            None => ForwardEvent::NotEncoded,
        };
        loop {
            match forward_to_websocket(event) {
                ForwardAction::Send(_) if failing == Some(at) => event = ForwardEvent::NotSent,
                ForwardAction::Send(encoded) => {
                    out.push(encoded);
                    event = ForwardEvent::Sent;
                }
                ForwardAction::Next => break,
                ForwardAction::Stop => return out,
            }
        }
    }
    out
}

#[test]
fn one_text_each_in_order() {
    assert_eq!(forward_all(vec![Some("a"), None, Some("b"), Some("c")], None), ["a", "b", "c"]);
    assert_eq!(forward_all(vec![Some("a"), None, Some("b"), Some("c")], Some(2)), ["a"]);
    assert!(forward_all(vec![Some("a"), Some("b")], Some(0)).is_empty());
}

/// What the window gets of a link over which these events arrive.
fn watch(events: Vec<LinkEvent>) -> Vec<ServerMessage> {
    let mut shown = Vec::new();
    let mut all = vec![LinkEvent::Connected];
    all.extend(events);
    for event in all {
        match websocket_task(event) {
            LinkAction::Show(message) => {
                shown.push(message);
                assert_eq!(websocket_task(LinkEvent::Taken), LinkAction::Next);
            }
            LinkAction::Next => {}
            LinkAction::Stop => break,
            other => panic!("unexpected: {:?}", other),
        }
    }
    if let LinkAction::ShowAndStop(message) = websocket_task(LinkEvent::Ended) {
        shown.push(message);
    }
    shown
}

#[test]
fn server_messages_reach_the_window() {
    let created = || ServerMessage::GroupCreated { id: 1, name: text("rust") };
    let shown = watch(vec![
        LinkEvent::Other,
        LinkEvent::Text(Some(error("x"))),
        LinkEvent::Text(None),
        LinkEvent::Text(Some(created())),
        LinkEvent::Other,
    ]);
    assert_eq!(
        shown,
        vec![error("Connesso al server!"), error("x"), created(), error("Disconnesso dal server.")]
    );
    let shown = watch(vec![LinkEvent::Failed, LinkEvent::Text(Some(created()))]);
    assert_eq!(shown, vec![error("Connesso al server!"), error("Disconnesso dal server.")]);
}

#[test]
fn link_to_the_server() {
    assert_eq!(
        websocket_task(LinkEvent::ConnectFailed(text("refused"))),
        LinkAction::ShowAndStop(error("Connessione fallita: refused"))
    );
    assert_eq!(
        websocket_task(LinkEvent::Connected),
        LinkAction::Show(error("Connesso al server!"))
    );
    assert_eq!(
        websocket_task(LinkEvent::Encoded(text("{}"))),
        LinkAction::Send(text("{}"))
    );
    assert_eq!(
        websocket_task(LinkEvent::Text(Some(error("x")))),
        LinkAction::Show(error("x"))
    );
    for event in [
        LinkEvent::NotEncoded,
        LinkEvent::Sent,
        LinkEvent::Text(None),
        LinkEvent::Other,
        LinkEvent::Taken,
    ] {
        assert_eq!(websocket_task(event), LinkAction::Next);
    }
    for event in [LinkEvent::NotSent, LinkEvent::NotTaken, LinkEvent::Failed] {
        assert_eq!(websocket_task(event), LinkAction::Stop);
    }
    assert_eq!(
        websocket_task(LinkEvent::Ended),
        LinkAction::ShowAndStop(error("Disconnesso dal server."))
    );
}

#[test]
fn copies_of_messages_are_the_same() {
    let messages = vec![
        ServerMessage::RegisterResponse { success: true, reason: Some(text("Bentornato!")) },
        ServerMessage::RegisterResponse { success: false, reason: None },
        error("x"),
        ServerMessage::NewMessage {
            group_id: 1,
            sender_username: text("a"),
            content: text("b"),
            timestamp: 2,
        },
        ServerMessage::InviteReceived {
            group_id: 1,
            group_name: text("g"),
            inviter_username: text("a"),
        },
        ServerMessage::UserJoinedGroup { group_id: 1, username: text("a") },
        ServerMessage::GroupCreated { id: 1, name: text("g") },
        ServerMessage::InviteSent { group: text("g"), username: text("a") },
        ServerMessage::JoinedGroup { group_id: 1, group_name: text("g") },
        ServerMessage::InviteRejected { group: text("g") },
        ServerMessage::GroupList {
            groups: vec![GroupInfo { id: 1, name: text("g") }, GroupInfo { id: 2, name: text("h") }],
        },
    ];
    for message in messages {
        assert_eq!(message.clone(), message);
    }
}
