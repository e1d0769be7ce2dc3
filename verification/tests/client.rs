use ruggine::client::{ChatMessage, RuggineApp, HELP};
use ruggine::messages::{ClientMessage, GroupInfo, ServerMessage};

fn text(s: &str) -> String {
    s.to_string()
}

fn system(content: &str) -> ChatMessage {
    ChatMessage {
        sender: text("Sistema"),
        content: text(content),
        group_name: None,
        group_id: None,
        is_system: true,
    }
}

fn group(id: i64, name: &str) -> GroupInfo {
    GroupInfo { id, name: text(name) }
}

fn last(app: &RuggineApp) -> &ChatMessage {
    &app.messages[app.messages.len() - 1]
}

/// Types `input` and sends it off.
fn type_in(app: &mut RuggineApp, input: &str) -> Option<ClientMessage> {
    app.input_buffer = text(input);
    app.send_message()
}

#[test]
fn a_fresh_client() {
    let app = RuggineApp::new();
    assert_eq!(
        app.messages,
        vec![system("Benvenuto in Ruggine! Inserisci il tuo username per connetterti.")]
    );
    assert_eq!(app.connection_status, "Connessione in corso...");
    assert!(!app.is_registered && app.username.is_empty() && app.groups.is_empty());
    assert_eq!(app.active_group, None);
}

#[test]
fn commands_send_their_messages() {
    let mut app = RuggineApp::new();
    assert_eq!(
        type_in(&mut app, "/create  gruppo di   prova "),
        Some(ClientMessage::CreateGroup { name: text("gruppo di prova") })
    );
    assert_eq!(
        type_in(&mut app, "/invite bob gruppo di prova"),
        Some(ClientMessage::InviteUser { group: text("gruppo di prova"), username: text("bob") })
    );
    assert_eq!(
        type_in(&mut app, "/invite bob 42"),
        Some(ClientMessage::InviteToGroup { username_to_invite: text("bob"), group_id: 42 })
    );
    assert_eq!(
        type_in(&mut app, "/accept gruppo di prova"),
        Some(ClientMessage::AcceptInvite { group: text("gruppo di prova") })
    );
    assert_eq!(
        type_in(&mut app, "/reject gruppo di prova"),
        Some(ClientMessage::RejectInvite { group: text("gruppo di prova") })
    );
    assert_eq!(type_in(&mut app, "/join 42"), Some(ClientMessage::JoinGroup { group_id: 42 }));
    assert_eq!(app.messages.len(), 1);
    assert_eq!(app.input_buffer, "");
}

#[test]
fn a_listed_name_is_a_name_though_it_reads_as_a_number() {
    let mut app = RuggineApp::new();
    app.groups = vec![group(1, "rust"), group(7, "2024"), group(8, "+5")];
    for name in ["2024", "+5"] {
        assert_eq!(
            type_in(&mut app, &format!("/invite bob {}", name)),
            Some(ClientMessage::InviteUser { group: text(name), username: text("bob") })
        );
    }
    for (name, group_id) in [("7", 7), ("02024", 2024), ("5", 5), ("-3", -3)] {
        assert_eq!(
            type_in(&mut app, &format!("/invite bob {}", name)),
            Some(ClientMessage::InviteToGroup { username_to_invite: text("bob"), group_id })
        );
    }
}

#[test]
fn help_and_unknown_commands() {
    let mut app = RuggineApp::new();
    assert_eq!(type_in(&mut app, "/help"), None);
    assert_eq!(last(&app), &system(HELP));
    for command in ["/create", "/invite", "/accept", "/reject", "/join", "/help"] {
        assert!(last(&app).content.contains(command));
    }
    let cases = [
        ("/create", "/create"),
        ("/invite bob", "/invite"),
        ("/accept", "/accept"),
        ("/reject", "/reject"),
        ("/join rust", "/join"),
        ("/join", "/join"),
        ("/quit now", "/quit"),
        ("/", "/"),
    ];
    for (input, name) in cases {
        assert_eq!(type_in(&mut app, input), None);
        let expected = format!("Comando sconosciuto: {}. Usa /help", name);
        assert_eq!(last(&app), &system(&expected));
    }
    assert_eq!(
        app.handle_command("  /accept  x "),
        Some(ClientMessage::AcceptInvite { group: text("x") })
    );
}

#[test]
fn posting_to_the_active_group() {
    let mut app = RuggineApp::new();
    assert_eq!(type_in(&mut app, "   "), None);
    assert_eq!(app.input_buffer, "   ");
    assert_eq!(app.messages.len(), 1);
    assert_eq!(type_in(&mut app, "ciao"), None);
    assert_eq!(
        last(&app),
        &system("❌ Nessun gruppo attivo. Crea uno con /create <nome>")
    );
    app.active_group = Some(group(5, "rust"));
    assert_eq!(
        type_in(&mut app, " ciao a tutti "),
        Some(ClientMessage::SendMessage { group_id: 5, content: text("ciao a tutti") })
    );
    assert_eq!(
        last(&app),
        &ChatMessage {
            sender: text("Tu"),
            content: text("ciao a tutti"),
            group_name: Some(text("rust")),
            group_id: Some(5),
            is_system: false,
        }
    );
    assert_eq!(app.input_buffer, "");
}

#[test]
fn signing_up() {
    let mut app = RuggineApp::new();
    app.username_input = text("  ");
    assert_eq!(app.submit_username(), None);
    assert_eq!(app.username, "");
    app.username_input = text(" alice ");
    assert_eq!(
        app.submit_username(),
        Some(ClientMessage::Register { username: text("alice") })
    );
    assert_eq!(app.username, "alice");
    let replies = app.process_server_messages(vec![
        ServerMessage::Error { message: text("Connesso al server!") },
        ServerMessage::RegisterResponse { success: true, reason: None },
    ]);
    assert_eq!(replies, vec![ClientMessage::ListGroups]);
    assert!(app.is_registered);
    assert_eq!(app.connection_status, "Connesso al server!");
    assert_eq!(app.messages[1], system("Connesso al server!"));
    assert_eq!(last(&app), &system("✅ Connesso come 'alice'"));
    assert_eq!(app.user_label(), "👤 alice");
}

#[test]
fn a_registration_that_is_turned_down() {
    let mut app = RuggineApp::new();
    app.username = text("alice");
    let refusal = |reason| ServerMessage::RegisterResponse { success: false, reason };
    assert_eq!(app.receive(refusal(Some(text("Sei già registrato.")))), None);
    assert_eq!(last(&app), &system("❌ Sei già registrato."));
    assert_eq!(app.username, "");
    assert!(!app.is_registered);
    app.receive(refusal(None));
    assert_eq!(last(&app), &system("❌ Errore"));
}

#[test]
fn groups_are_listed_and_entered() {
    let mut app = RuggineApp::new();
    app.receive(ServerMessage::GroupList { groups: vec![] });
    assert_eq!(
        last(&app),
        &system("Nessun gruppo ancora. Usa /create <nome> per crearne uno.")
    );
    assert_eq!(app.active_group, None);
    app.receive(ServerMessage::GroupList { groups: vec![group(1, "a"), group(2, "b")] });
    assert_eq!(app.active_group, Some(group(1, "a")));
    app.receive(ServerMessage::GroupList { groups: vec![group(2, "b")] });
    assert_eq!(app.active_group, Some(group(1, "a")));
    assert_eq!(app.groups, vec![group(2, "b")]);
    app.receive(ServerMessage::GroupCreated { id: 3, name: text("c") });
    assert_eq!(last(&app), &system("✅ Gruppo 'c' creato (ID: 3)"));
    assert_eq!(app.active_group, Some(group(3, "c")));
    app.receive(ServerMessage::JoinedGroup { group_id: 4, group_name: text("d") });
    assert_eq!(last(&app), &system("✅ Unito al gruppo 'd'"));
    assert_eq!(app.groups, vec![group(2, "b"), group(3, "c"), group(4, "d")]);
    assert_eq!(app.heading(), "# d");
    assert_eq!(app.group_label(&group(4, "d")), "▶ d");
    assert_eq!(app.group_label(&group(2, "b")), "  b");
    assert!(app.is_active(&group(4, "d")) && !app.is_active(&group(2, "b")));
    app.select_group(0);
    assert_eq!(app.active_group, Some(group(2, "b")));
    assert_eq!(app.active_group_id(), Some(2));
    app.active_group = None;
    assert_eq!(app.heading(), "# Nessun gruppo");
}

#[test]
fn news_is_put_into_the_chat() {
    let mut app = RuggineApp::new();
    app.groups = vec![group(1, "rust")];
    let news = |group_id| ServerMessage::NewMessage {
        group_id,
        sender_username: text("bob"),
        content: text("ciao"),
        timestamp: 0,
    };
    app.receive(news(1));
    assert_eq!(last(&app).group_name, Some(text("rust")));
    assert_eq!(last(&app).sender, "bob");
    assert_eq!(last(&app).tag(), Some(text("[rust]")));
    assert_eq!(last(&app).author(), "bob:");
    app.receive(news(-7));
    assert_eq!(last(&app).group_name, Some(text("Gruppo -7")));
    assert_eq!(last(&app).group_id, Some(-7));
    app.receive(ServerMessage::UserJoinedGroup { group_id: 1, username: text("bob") });
    assert_eq!(last(&app), &system("👤 'bob' si è unito a 'rust'"));
    assert_eq!(last(&app).tag(), None);
    app.receive(ServerMessage::UserJoinedGroup { group_id: 12, username: text("bob") });
    assert_eq!(last(&app), &system("👤 'bob' si è unito a '12'"));
    app.receive(ServerMessage::InviteReceived {
        group_id: 1,
        group_name: text("rust"),
        inviter_username: text("bob"),
    });
    assert_eq!(
        last(&app),
        &system("📩 Invito da 'bob' per il gruppo 'rust' → /accept rust oppure /reject rust")
    );
    app.receive(ServerMessage::InviteSent { group: text("rust"), username: text("bob") });
    assert_eq!(last(&app), &system("✅ Invito inviato a 'bob' per 'rust'"));
    app.receive(ServerMessage::InviteRejected { group: text("rust") });
    assert_eq!(last(&app), &system("❌ Invito rifiutato per 'rust'"));
}

#[test]
fn the_chat_shows_the_active_group() {
    let mut app = RuggineApp::new();
    let line = |group_id| ChatMessage {
        sender: text("bob"),
        content: text("ciao"),
        group_name: None,
        group_id,
        is_system: false,
    };
    app.messages.push(line(Some(1)));
    app.messages.push(line(Some(2)));
    app.messages.push(system("x"));
    app.messages.push(line(None));
    assert_eq!(app.visible_messages(), vec![0, 3, 4]);
    app.active_group = Some(group(2, "b"));
    assert_eq!(app.visible_messages(), vec![0, 2, 3]);
}

#[test]
fn history_is_kept() {
    let mut app = RuggineApp::new();
    type_in(&mut app, "/help");
    let before = format!("{:?}", app.messages);
    app.process_server_messages(vec![
        ServerMessage::GroupList { groups: vec![] },
        ServerMessage::Error { message: text("x") },
    ]);
    assert_eq!(format!("{:?}", &app.messages[..2]), before);
    assert_eq!(app.messages.len(), 4);
}
