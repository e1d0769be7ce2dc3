use ruggine::connection::{exchange_report, process_incoming_message, Frame, Incoming};
use ruggine::exchange::{
    handle_client_message, Answer, Exchange, Fault, Request, Step, REGISTRATION_REQUIRED,
};
use ruggine::client::RuggineApp;
use ruggine::messages::{ClientMessage, GroupInfo, ServerMessage};
use ruggine::state::AppState;
use rusqlite::Connection;

const SCHEMA: &str = "
    CREATE TABLE IF NOT EXISTS users (
        id INTEGER PRIMARY KEY,
        username TEXT UNIQUE NOT NULL
    );
    CREATE TABLE IF NOT EXISTS groups (
        id INTEGER PRIMARY KEY,
        name TEXT NOT NULL
    );
    CREATE TABLE IF NOT EXISTS group_members (
        user_id INTEGER NOT NULL,
        group_id INTEGER NOT NULL,
        FOREIGN KEY(user_id) REFERENCES users(id),
        FOREIGN KEY(group_id) REFERENCES groups(id),
        PRIMARY KEY(user_id, group_id)
    );
    CREATE TABLE IF NOT EXISTS group_invites (
        invited_user_id INTEGER NOT NULL,
        group_id INTEGER NOT NULL,
        inviter_user_id INTEGER NOT NULL,
        FOREIGN KEY(invited_user_id) REFERENCES users(id),
        FOREIGN KEY(group_id) REFERENCES groups(id),
        FOREIGN KEY(inviter_user_id) REFERENCES users(id),
        PRIMARY KEY(invited_user_id, group_id)
    );
";

/// A server with a database in memory.
struct Server {
    db: Connection,
    state: AppState,
    sent: Vec<(u64, ServerMessage)>,
    /// How many requests are served before one fails.
    patience: Option<usize>,
    requests: usize,
}

struct Client {
    connection: u64,
    user: Option<String>,
}

fn client(connection: u64) -> Client {
    Client { connection, user: None }
}

fn id_answer(result: rusqlite::Result<i64>) -> Answer {
    match result {
        Ok(id) => Answer::Id(id),
        Err(e) => Answer::Failed(Fault::Store(e.to_string())),
    }
}

fn done_answer<T>(result: rusqlite::Result<T>) -> Answer {
    match result {
        Ok(_) => Answer::Done,
        Err(e) => Answer::Failed(Fault::Store(e.to_string())),
    }
}

impl Server {
    fn new() -> Server {
        let db = Connection::open_in_memory().unwrap();
        db.execute_batch(SCHEMA).unwrap();
        Server { db, state: AppState::new(), sent: Vec::new(), patience: None, requests: 0 }
    }

    fn perform(&mut self, connection: u64, request: Request) -> Answer {
        if self.patience == Some(self.requests) {
            return Answer::Failed(Fault::Store("disk I/O error".to_string()));
        }
        self.requests += 1;
        let db = &self.db;
        match request {
            Request::FindUserId { username } => id_answer(db.query_row(
                "SELECT id FROM users WHERE username = ?1",
                (username,),
                |row| row.get(0),
            )),
            Request::FindUser { username } => {
                let found: rusqlite::Result<(i64, String)> = db.query_row(
                    "SELECT id, username FROM users WHERE username = ?1",
                    (username,),
                    |row| Ok((row.get(0)?, row.get(1)?)),
                );
                match found {
                    Ok((id, name)) => Answer::Row(id, name),
                    Err(e) => Answer::Failed(Fault::Store(e.to_string())),
                }
            }
            Request::InsertUser { username } => {
                done_answer(db.execute("INSERT INTO users (username) VALUES (?1)", (username,)))
            }
            Request::FindGroupId { name } => id_answer(db.query_row(
                "SELECT id FROM groups WHERE name = ?1",
                (name,),
                |row| row.get(0),
            )),
            Request::FindGroup { name } => {
                let found: rusqlite::Result<(i64, String)> = db.query_row(
                    "SELECT id, name FROM groups WHERE name = ?1",
                    (name,),
                    |row| Ok((row.get(0)?, row.get(1)?)),
                );
                match found {
                    Ok((id, name)) => Answer::Row(id, name),
                    Err(e) => Answer::Failed(Fault::Store(e.to_string())),
                }
            }
            Request::FindGroupName { group_id } => {
                let found: rusqlite::Result<String> = db.query_row(
                    "SELECT name FROM groups WHERE id = ?1",
                    (group_id,),
                    |row| row.get(0),
                );
                match found {
                    Ok(name) => Answer::Name(name),
                    Err(e) => Answer::Failed(Fault::Store(e.to_string())),
                }
            }
            Request::FindGroups { user_id } => {
                let mut statement = db
                    .prepare(
                        "SELECT g.id, g.name FROM groups g
                         JOIN group_members gm ON g.id = gm.group_id
                         WHERE gm.user_id = ?1",
                    )
                    .unwrap();
                let groups: Vec<GroupInfo> = statement
                    .query_map((user_id,), |row| {
                        Ok(GroupInfo { id: row.get(0)?, name: row.get(1)? })
                    })
                    .unwrap()
                    .collect::<Result<Vec<_>, _>>()
                    .unwrap();
                Answer::Groups(groups)
            }
            Request::InsertGroup { name } => id_answer(
                db.execute("INSERT INTO groups (name) VALUES (?1)", (name,))
                    .map(|_| db.last_insert_rowid()),
            ),
            Request::FindMember { user_id, group_id } => {
                let found: rusqlite::Result<i64> = db.query_row(
                    "SELECT 1 FROM group_members WHERE user_id = ?1 AND group_id = ?2",
                    (user_id, group_id),
                    |row| row.get(0),
                );
                done_answer(found)
            }
            Request::InsertMember { user_id, group_id } => done_answer(db.execute(
                "INSERT INTO group_members (user_id, group_id) VALUES (?1, ?2)",
                (user_id, group_id),
            )),
            Request::FindInvite { user_id, group_id } => {
                let found: rusqlite::Result<i64> = db.query_row(
                    "SELECT 1 FROM group_invites WHERE invited_user_id = ?1 AND group_id = ?2",
                    (user_id, group_id),
                    |row| row.get(0),
                );
                done_answer(found)
            }
            Request::InsertInvite { invited_user_id, group_id, inviter_user_id } => {
                done_answer(db.execute(
                    "INSERT INTO group_invites (invited_user_id, group_id, inviter_user_id)
                     VALUES (?1, ?2, ?3)",
                    (invited_user_id, group_id, inviter_user_id),
                ))
            }
            Request::InsertInviteIfAbsent { invited_user_id, group_id, inviter_user_id } => {
                done_answer(db.execute(
                    "INSERT OR IGNORE INTO group_invites
                     (invited_user_id, group_id, inviter_user_id) VALUES (?1, ?2, ?3)",
                    (invited_user_id, group_id, inviter_user_id),
                ))
            }
            Request::DeleteInvite { user_id, group_id } => match db.execute(
                "DELETE FROM group_invites WHERE invited_user_id = ?1 AND group_id = ?2",
                (user_id, group_id),
            ) {
                Ok(n) => Answer::Count(n),
                Err(e) => Answer::Failed(Fault::Store(e.to_string())),
            },
            Request::Begin => done_answer(db.execute_batch("BEGIN DEFERRED")),
            Request::Commit => done_answer(db.execute_batch("COMMIT")),
            Request::Enroll { username } => {
                self.state.enroll(username, connection);
                Answer::Done
            }
            Request::Notify { username, message } => {
                if let Some(target) = self.state.connection_of(&username) {
                    self.sent.push((target, message));
                }
                Answer::Done
            }
            Request::Broadcast { group_id, message, exclude } => {
                let mut statement = db
                    .prepare(
                        "SELECT u.username FROM users u
                         JOIN group_members gm ON u.id = gm.user_id
                         WHERE gm.group_id = ?1",
                    )
                    .unwrap();
                let names: Vec<String> = statement
                    .query_map((group_id,), |row| row.get(0))
                    .unwrap()
                    .collect::<Result<Vec<_>, _>>()
                    .unwrap();
                let list = self.state.broadcast_to_group(&names, &message, &exclude);
                self.sent.extend(list);
                Answer::Done
            }
            Request::Tell { message } => {
                self.sent.push((connection, message));
                Answer::Done
            }
        }
    }

    /// Runs the exchange on a message, and returns how it ended and what was sent.
    fn say(
        &mut self,
        client: &mut Client,
        message: ClientMessage,
    ) -> (Result<(), String>, Vec<(u64, ServerMessage)>) {
        self.sent.clear();
        self.requests = 0;
        let mut step = handle_client_message(message, &client.user);
        let result = loop {
            match step {
                Step::Finished(result) => break result,
                Step::Ask { request, then } => {
                    let answer = self.perform(client.connection, request);
                    assert!(then.accepts(&answer));
                    step = then.resume_at(answer, 1000, &mut client.user);
                }
            }
        };
        if !self.db.is_autocommit() {
            self.db.execute_batch("ROLLBACK").unwrap();
        }
        (result, self.sent.clone())
    }

    /// Reads the frames of a connection until they end, and returns what was sent.
    fn read(&mut self, client: &mut Client, frames: Vec<Frame>) -> Vec<(u64, ServerMessage)> {
        let mut sent = Vec::new();
        for frame in frames {
            match process_incoming_message(frame) {
                Incoming::Handle(message) => {
                    let (result, list) = self.say(client, message);
                    sent.extend(list);
                    sent.extend(exchange_report(result).map(|report| (client.connection, report)));
                }
                Incoming::Tell(message) => sent.push((client.connection, message)),
                Incoming::Ignore => {}
                Incoming::Stop => break,
            }
        }
        sent
    }

    fn count(&self, sql: &str) -> i64 {
        self.db.query_row(sql, (), |row| row.get(0)).unwrap()
    }

    fn members(&self) -> i64 {
        self.count("SELECT COUNT(*) FROM group_members")
    }

    fn invites(&self) -> i64 {
        self.count("SELECT COUNT(*) FROM group_invites")
    }
}

fn text(s: &str) -> String {
    s.to_string()
}

fn register(name: &str) -> ClientMessage {
    ClientMessage::Register { username: text(name) }
}

fn create(name: &str) -> ClientMessage {
    ClientMessage::CreateGroup { name: text(name) }
}

fn invite(group: &str, username: &str) -> ClientMessage {
    ClientMessage::InviteUser { group: text(group), username: text(username) }
}

fn accept(group: &str) -> ClientMessage {
    ClientMessage::AcceptInvite { group: text(group) }
}

fn reject(group: &str) -> ClientMessage {
    ClientMessage::RejectInvite { group: text(group) }
}

fn error(message: &str) -> ServerMessage {
    ServerMessage::Error { message: text(message) }
}

/// A server where alice (connection 1) has created the group "rust" and bob (2) and carol (3) are
/// registered.
fn stage() -> (Server, Client, Client, Client) {
    let mut server = Server::new();
    let (mut alice, mut bob, mut carol) = (client(1), client(2), client(3));
    server.say(&mut alice, register("alice")).0.unwrap();
    server.say(&mut bob, register("bob")).0.unwrap();
    server.say(&mut carol, register("carol")).0.unwrap();
    server.say(&mut alice, create("rust")).0.unwrap();
    (server, alice, bob, carol)
}

#[test]
fn a_new_user_is_written_down() {
    let mut server = Server::new();
    let mut alice = client(7);
    let (result, sent) = server.say(&mut alice, register("alice"));
    assert_eq!(result, Ok(()));
    assert_eq!(sent, vec![(7, ServerMessage::RegisterResponse { success: true, reason: None })]);
    assert_eq!(alice.user, Some(text("alice")));
    assert_eq!(server.count("SELECT COUNT(*) FROM users WHERE username = 'alice'"), 1);
    assert_eq!(server.state.connection_of("alice"), Some(7));
}

#[test]
fn a_known_user_is_welcomed_back() {
    let (mut server, _, _, _) = stage();
    let mut again = client(9);
    let (result, sent) = server.say(&mut again, register("alice"));
    assert_eq!(result, Ok(()));
    assert_eq!(
        sent,
        vec![(
            9,
            ServerMessage::RegisterResponse { success: true, reason: Some(text("Bentornato!")) }
        )]
    );
    assert_eq!(server.count("SELECT COUNT(*) FROM users"), 3);
    assert_eq!(server.state.connection_of("alice"), Some(9));
}

#[test]
fn a_second_registration_is_turned_down() {
    let (mut server, mut alice, _, _) = stage();
    let (result, sent) = server.say(&mut alice, register("dave"));
    assert_eq!(result, Ok(()));
    assert_eq!(
        sent,
        vec![(
            1,
            ServerMessage::RegisterResponse {
                success: false,
                reason: Some(text("Sei già registrato.")),
            }
        )]
    );
    assert_eq!(alice.user, Some(text("alice")));
    assert_eq!(server.count("SELECT COUNT(*) FROM users"), 3);
}

#[test]
fn registration_comes_first() {
    let mut server = Server::new();
    let messages = vec![
        create("rust"),
        invite("rust", "bob"),
        accept("rust"),
        reject("rust"),
        ClientMessage::JoinGroup { group_id: 1 },
        ClientMessage::InviteToGroup { username_to_invite: text("bob"), group_id: 1 },
        ClientMessage::SendMessage { group_id: 1, content: text("ciao") },
        ClientMessage::ListGroups,
    ];
    for message in messages {
        let mut nobody = client(1);
        let (result, sent) = server.say(&mut nobody, message);
        assert_eq!(result, Err(text("Registrazione richiesta")));
        assert_eq!(REGISTRATION_REQUIRED, "Registrazione richiesta");
        assert!(sent.is_empty());
        assert_eq!(server.requests, 0);
        assert_eq!(nobody.user, None);
    }
}

#[test]
fn users_are_told_their_groups() {
    let (mut server, mut alice, mut bob, _) = stage();
    server.say(&mut bob, create("go")).0.unwrap();
    server.say(&mut alice, create("2024")).0.unwrap();
    let (result, sent) = server.say(&mut alice, ClientMessage::ListGroups);
    assert_eq!(result, Ok(()));
    let group = |id, name: &str| GroupInfo { id, name: text(name) };
    let groups = vec![group(1, "rust"), group(3, "2024")];
    assert_eq!(sent, vec![(1, ServerMessage::GroupList { groups: groups.clone() })]);
    let mut carol = client(3);
    carol.user = Some(text("carol"));
    let (_, sent) = server.say(&mut carol, ClientMessage::ListGroups);
    assert_eq!(sent, vec![(3, ServerMessage::GroupList { groups: vec![] })]);

    // With the list, a group goes by its name even if that reads as a number.
    let mut app = RuggineApp::new();
    app.receive(ServerMessage::GroupList { groups });
    assert_eq!(app.handle_command("/invite bob 2024"), Some(invite("2024", "bob")));
}

#[test]
fn the_creator_is_the_first_member() {
    let (mut server, _, mut bob, _) = stage();
    let (result, sent) = server.say(&mut bob, create("c"));
    assert_eq!(result, Ok(()));
    assert_eq!(sent, vec![(2, ServerMessage::GroupCreated { id: 2, name: text("c") })]);
    assert_eq!(
        server.count(
            "SELECT COUNT(*) FROM group_members gm JOIN users u ON u.id = gm.user_id
             WHERE gm.group_id = 2 AND u.username = 'bob'"
        ),
        1
    );
    assert_eq!(server.members(), 2);
}

#[test]
fn a_member_invites_and_the_guest_is_told() {
    let (mut server, mut alice, _, _) = stage();
    let (result, sent) = server.say(&mut alice, invite("rust", "bob"));
    assert_eq!(result, Ok(()));
    assert_eq!(
        sent,
        vec![
            (
                2,
                ServerMessage::InviteReceived {
                    group_id: 1,
                    group_name: text("rust"),
                    inviter_username: text("alice"),
                }
            ),
            (1, ServerMessage::InviteSent { group: text("rust"), username: text("bob") }),
        ]
    );
    assert_eq!(server.invites(), 1);
    // Once more: the invite is there already, and stays the one it is.
    let (result, sent) = server.say(&mut alice, invite("rust", "bob"));
    assert_eq!(result, Ok(()));
    assert_eq!(sent.len(), 2);
    assert_eq!(server.invites(), 1);
}

#[test]
fn a_guest_who_is_away_is_invited_all_the_same() {
    let (mut server, mut alice, bob, _) = stage();
    server.state.disconnect(&bob.user);
    let (result, sent) = server.say(&mut alice, invite("rust", "bob"));
    assert_eq!(result, Ok(()));
    assert_eq!(
        sent,
        vec![(1, ServerMessage::InviteSent { group: text("rust"), username: text("bob") })]
    );
    assert_eq!(server.invites(), 1);
}

#[test]
fn only_members_invite() {
    let (mut server, _, mut bob, _) = stage();
    let refusal = error("Solo i membri del gruppo possono invitare altri utenti.");
    let (result, sent) = server.say(&mut bob, invite("rust", "carol"));
    assert_eq!(result, Ok(()));
    assert_eq!(sent, vec![(2, refusal.clone())]);
    let by_id = ClientMessage::InviteToGroup { username_to_invite: text("carol"), group_id: 1 };
    let (result, sent) = server.say(&mut bob, by_id);
    assert_eq!(result, Ok(()));
    assert_eq!(sent, vec![(2, refusal)]);
    assert_eq!(server.invites(), 0);
}

#[test]
fn invites_that_make_no_sense_are_refused() {
    let (mut server, mut alice, _, _) = stage();
    let (_, sent) = server.say(&mut alice, invite("go", "bob"));
    assert_eq!(sent, vec![(1, error("Gruppo 'go' non trovato."))]);
    let (_, sent) = server.say(&mut alice, invite("rust", "dave"));
    assert_eq!(sent, vec![(1, error("Utente 'dave' non trovato."))]);
    let (_, sent) = server.say(&mut alice, invite("rust", "alice"));
    assert_eq!(sent, vec![(1, error("'alice' è già membro del gruppo."))]);
    assert_eq!(server.invites(), 0);
}

#[test]
fn frames_behind_the_end_are_not_read() {
    for last in [Frame::Close, Frame::Failed] {
        let mut server = Server::new();
        let mut alice = client(1);
        let say = |message| Frame::Text(Some(message));
        let sent = server.read(
            &mut alice,
            vec![
                say(create("rust")),
                Frame::Ping,
                Frame::Text(None),
                say(register("alice")),
                Frame::Binary,
                say(create("go")),
                last,
                say(create("c")),
                Frame::Text(None),
            ],
        );
        assert_eq!(
            sent,
            vec![
                (1, error("Registrazione richiesta")),
                (1, error("JSON non valido")),
                (1, ServerMessage::RegisterResponse { success: true, reason: None }),
                (1, ServerMessage::GroupCreated { id: 1, name: text("go") }),
            ]
        );
        assert_eq!(server.count("SELECT COUNT(*) FROM groups"), 1);
        assert_eq!(server.members(), 1);
        assert_eq!(alice.user, Some(text("alice")));
    }
}

#[test]
fn no_exchange_takes_more_than_nine_requests() {
    let (mut server, mut alice, mut bob, _) = stage();
    server.say(&mut alice, invite("rust", "bob")).0.unwrap();
    assert_eq!(server.requests, 8);
    server.say(&mut bob, accept("rust")).0.unwrap();
    assert_eq!(server.requests, 9);
}

#[test]
fn accepting_trades_the_invite_for_membership() {
    let (mut server, mut alice, mut bob, _) = stage();
    server.say(&mut alice, invite("rust", "bob")).0.unwrap();
    let (result, sent) = server.say(&mut bob, accept("rust"));
    assert_eq!(result, Ok(()));
    assert_eq!(
        sent,
        vec![
            (2, ServerMessage::JoinedGroup { group_id: 1, group_name: text("rust") }),
            (1, ServerMessage::UserJoinedGroup { group_id: 1, username: text("bob") }),
        ]
    );
    assert_eq!(server.invites(), 0);
    assert_eq!(server.members(), 2);
}

#[test]
fn nobody_joins_without_an_invite() {
    let (mut server, mut alice, mut bob, mut carol) = stage();
    server.say(&mut alice, invite("rust", "bob")).0.unwrap();
    let (result, sent) = server.say(&mut carol, accept("rust"));
    assert_eq!(result, Ok(()));
    assert_eq!(sent, vec![(3, error("Nessun invito valido trovato per questo gruppo."))]);
    let (result, sent) = server.say(&mut carol, ClientMessage::JoinGroup { group_id: 1 });
    assert_eq!(result, Ok(()));
    assert_eq!(sent, vec![(3, error("Non puoi unirti a questo gruppo senza un invito valido."))]);
    let (_, sent) = server.say(&mut bob, accept("go"));
    assert_eq!(sent, vec![(2, error("Gruppo 'go' non trovato."))]);
    assert_eq!(server.invites(), 1);
    assert_eq!(server.members(), 1);
}

#[test]
fn rejecting_takes_the_invite_away() {
    let (mut server, mut alice, mut bob, mut carol) = stage();
    server.say(&mut alice, invite("rust", "bob")).0.unwrap();
    let (_, sent) = server.say(&mut carol, reject("rust"));
    assert_eq!(sent, vec![(3, error("Nessun invito da rifiutare per questo gruppo."))]);
    assert_eq!(server.invites(), 1);
    let (result, sent) = server.say(&mut bob, reject("rust"));
    assert_eq!(result, Ok(()));
    assert_eq!(sent, vec![(2, ServerMessage::InviteRejected { group: text("rust") })]);
    assert_eq!(server.invites(), 0);
    assert_eq!(server.members(), 1);
    let (_, sent) = server.say(&mut bob, reject("go"));
    assert_eq!(sent, vec![(2, error("Gruppo 'go' non trovato."))]);
}

#[test]
fn a_rejected_invite_is_no_good() {
    let (mut server, mut alice, mut bob, _) = stage();
    server.say(&mut alice, invite("rust", "bob")).0.unwrap();
    server.say(&mut bob, reject("rust")).0.unwrap();
    let (result, sent) = server.say(&mut bob, ClientMessage::JoinGroup { group_id: 1 });
    assert_eq!(result, Ok(()));
    assert_eq!(sent, vec![(2, error("Non puoi unirti a questo gruppo senza un invito valido."))]);
    assert_eq!(server.members(), 1);
}

#[test]
fn inviting_and_joining_by_number() {
    let (mut server, mut alice, mut bob, _) = stage();
    let by_id = |name: &str| ClientMessage::InviteToGroup {
        username_to_invite: text(name),
        group_id: 1,
    };
    let (result, sent) = server.say(&mut alice, by_id("bob"));
    assert_eq!(result, Ok(()));
    assert_eq!(
        sent,
        vec![
            (
                2,
                ServerMessage::InviteReceived {
                    group_id: 1,
                    group_name: text("rust"),
                    inviter_username: text("alice"),
                }
            ),
            (1, error("Invito inviato.")),
        ]
    );
    let (_, sent) = server.say(&mut alice, by_id("bob"));
    assert_eq!(sent, vec![(1, error("Invito già inviato o utente già nel gruppo."))]);
    let (_, sent) = server.say(&mut alice, by_id("dave"));
    assert_eq!(sent, vec![(1, error("Utente 'dave' non trovato."))]);
    let (result, sent) = server.say(&mut bob, ClientMessage::JoinGroup { group_id: 1 });
    assert_eq!(result, Ok(()));
    let news = ServerMessage::UserJoinedGroup { group_id: 1, username: text("bob") };
    assert_eq!(sent, vec![(1, news.clone()), (2, news)]);
    assert_eq!(server.invites(), 0);
    assert_eq!(server.members(), 2);
}

#[test]
fn a_member_with_an_invite_keeps_both() {
    let (mut server, mut alice, mut bob, _) = stage();
    server.say(&mut alice, invite("rust", "bob")).0.unwrap();
    server.say(&mut bob, accept("rust")).0.unwrap();
    // By number a member can be invited.
    let again = ClientMessage::InviteToGroup { username_to_invite: text("bob"), group_id: 1 };
    server.say(&mut alice, again).0.unwrap();
    assert_eq!(server.invites(), 1);
    let (result, sent) = server.say(&mut bob, accept("rust"));
    assert!(result.is_err());
    assert!(sent.is_empty());
    let (result, _) = server.say(&mut bob, ClientMessage::JoinGroup { group_id: 1 });
    assert!(result.is_err());
    assert_eq!(server.invites(), 1);
    assert_eq!(server.members(), 2);
}

#[test]
fn posts_reach_the_connected_members() {
    let (mut server, mut alice, mut bob, mut carol) = stage();
    server.say(&mut alice, invite("rust", "bob")).0.unwrap();
    server.say(&mut bob, accept("rust")).0.unwrap();
    let post = || ClientMessage::SendMessage { group_id: 1, content: text("ciao") };
    let (result, sent) = server.say(&mut bob, post());
    assert_eq!(result, Ok(()));
    let news = ServerMessage::NewMessage {
        group_id: 1,
        sender_username: text("bob"),
        content: text("ciao"),
        timestamp: 1000,
    };
    assert_eq!(sent, vec![(1, news.clone()), (2, news.clone())]);
    let (result, sent) = server.say(&mut carol, post());
    assert_eq!(result, Ok(()));
    assert_eq!(sent, vec![(3, error("Non sei membro di questo gruppo."))]);
    server.state.disconnect(&alice.user);
    let (_, sent) = server.say(&mut bob, post());
    assert_eq!(sent, vec![(2, news)]);
}

#[test]
fn a_transaction_is_all_or_nothing() {
    // Wherever accepting fails, the invite is traded for membership or nothing changes.
    for patience in 0..9 {
        let (mut server, mut alice, mut bob, _) = stage();
        server.say(&mut alice, invite("rust", "bob")).0.unwrap();
        server.patience = Some(patience);
        server.say(&mut bob, accept("rust"));
        let changed = (server.invites(), server.members()) == (0, 2);
        let unchanged = (server.invites(), server.members()) == (1, 1);
        assert!(changed || unchanged);
        assert_eq!(changed, patience >= 7);
        server.patience = None;
    }
    for patience in 0..6 {
        let (mut server, _, mut bob, _) = stage();
        server.patience = Some(patience);
        server.say(&mut bob, create("c"));
        let groups = server.count("SELECT COUNT(*) FROM groups");
        assert_eq!((groups, server.members()), if patience >= 5 { (2, 2) } else { (1, 1) });
    }
}

fn begin(message: ClientMessage, user: &str) -> (Request, Exchange) {
    match handle_client_message(message, &Some(text(user))) {
        Step::Ask { request, then } => (request, then),
        Step::Finished(_) => panic!("nothing asked"),
    }
}

fn finish(exchange: Exchange, answer: Answer) -> Result<(), String> {
    match exchange.resume_at(answer, 0, &mut None) {
        Step::Finished(result) => result,
        Step::Ask { .. } => panic!("not finished"),
    }
}

#[test]
fn faults_are_named() {
    let (request, exchange) = begin(create("rust"), "alice");
    assert_eq!(request, Request::Begin);
    let fault = Fault::StoreLock(text("poisoned"));
    assert_eq!(finish(exchange, Answer::Failed(fault)), Err(text("Lock DB error: poisoned")));
    let (_, exchange) = begin(create("rust"), "alice");
    let fault = Fault::Store(text("database is locked"));
    assert_eq!(finish(exchange, Answer::Failed(fault)), Err(text("database is locked")));
    for message in vec![invite("rust", "bob"), accept("rust"), reject("rust")] {
        let (_, exchange) = begin(message, "alice");
        let fault = Fault::StoreLock(text("poisoned"));
        assert_eq!(finish(exchange, Answer::Failed(fault)), Err(text("Lock DB error: poisoned")));
    }
    assert_eq!(Fault::Channel(text("channel closed")).text(), "channel closed");
}

#[test]
fn a_registration_that_fails() {
    let mut user = None;
    let step = handle_client_message(register("alice"), &user);
    let Step::Ask { then, .. } = step else { panic!("nothing asked") };
    let missing = Answer::Failed(Fault::Store(text("Query returned no rows")));
    let Step::Ask { request, then } = then.resume_at(missing, 0, &mut user) else {
        panic!("not asked")
    };
    assert_eq!(request, Request::InsertUser { username: text("alice") });
    let full = Answer::Failed(Fault::Store(text("disk full")));
    let Step::Ask { request, then } = then.resume_at(full, 0, &mut user) else {
        panic!("not told")
    };
    assert_eq!(
        request,
        Request::Tell {
            message: ServerMessage::RegisterResponse {
                success: false,
                reason: Some(text("Errore DB: disk full")),
            }
        }
    );
    assert_eq!(finish(then, Answer::Done), Ok(()));
    assert_eq!(user, None);

    // A user whose connection cannot be enrolled is not registered.
    let step = handle_client_message(register("alice"), &user);
    let Step::Ask { then, .. } = step else { panic!("nothing asked") };
    let Step::Ask { request, then } = then.resume_at(Answer::Id(1), 0, &mut user) else {
        panic!("not asked")
    };
    assert_eq!(request, Request::Enroll { username: text("alice") });
    let lock = Answer::Failed(Fault::ActiveLock(text("poisoned")));
    assert_eq!(finish(then, lock), Err(text("Lock error: poisoned")));
    assert_eq!(user, None);
}

#[test]
fn answers_of_another_kind_are_not_accepted() {
    let (_, exchange) = begin(create("rust"), "alice");
    assert!(exchange.accepts(&Answer::Done));
    assert!(exchange.accepts(&Answer::Failed(Fault::Store(text("")))));
    assert!(!exchange.accepts(&Answer::Id(1)));
    assert!(!exchange.accepts(&Answer::Count(1)));
    let (_, exchange) = begin(accept("rust"), "alice");
    assert!(exchange.accepts(&Answer::Row(1, text("rust"))));
    assert!(!exchange.accepts(&Answer::Name(text("rust"))));
    let (request, exchange) = begin(ClientMessage::ListGroups, "alice");
    assert_eq!(request, Request::FindUserId { username: text("alice") });
    assert!(!exchange.accepts(&Answer::Groups(vec![])));
    let Step::Ask { request, then } = exchange.resume_at(Answer::Id(4), 0, &mut None) else {
        panic!("not asked")
    };
    assert_eq!(request, Request::FindGroups { user_id: 4 });
    assert!(then.accepts(&Answer::Groups(vec![])) && !then.accepts(&Answer::Done));
    let fault = Fault::Store(text("disk I/O error"));
    assert_eq!(finish(then, Answer::Failed(fault)), Err(text("disk I/O error")));
}

#[test]
fn posts_carry_the_present_time() {
    let now = || {
        let elapsed = std::time::SystemTime::now().duration_since(std::time::UNIX_EPOCH);
        elapsed.unwrap().as_secs() as i64
    };
    let before = now();
    let post = ClientMessage::SendMessage { group_id: 1, content: text("ciao") };
    let (_, exchange) = begin(post, "alice");
    let mut user = Some(text("alice"));
    let Step::Ask { then, .. } = exchange.resume(Answer::Id(1), &mut user) else {
        panic!("not asked")
    };
    let Step::Ask { request, .. } = then.resume(Answer::Done, &mut user) else {
        panic!("not asked")
    };
    let Request::Broadcast { message: ServerMessage::NewMessage { timestamp, .. }, .. } = request
    else {
        panic!("not broadcast")
    };
    assert!(before <= timestamp && timestamp <= now());
}

#[test]
fn who_is_connected() {
    let mut state = AppState::new();
    assert_eq!(state.connection_of("alice"), None);
    state.enroll(text("alice"), 1);
    state.enroll(text("bob"), 2);
    state.enroll(text("alice"), 3);
    assert_eq!(state.connection_of("alice"), Some(3));
    state.disconnect(&None);
    assert_eq!(state.connection_of("alice"), Some(3));
    state.disconnect(&Some(text("alice")));
    assert_eq!(state.connection_of("alice"), None);
    assert_eq!(state.connection_of("bob"), Some(2));
}

#[test]
fn broadcasts_leave_out_the_excluded_and_the_absent() {
    let mut state = AppState::new();
    state.enroll(text("alice"), 1);
    state.enroll(text("bob"), 2);
    let names = vec![text("bob"), text("carol"), text("alice")];
    let message = error("x");
    let all = state.broadcast_to_group(&names, &message, &None);
    assert_eq!(all, vec![(2, error("x")), (1, error("x"))]);
    let others = state.broadcast_to_group(&names, &message, &Some(text("bob")));
    assert_eq!(others, vec![(1, error("x"))]);
    assert!(state.broadcast_to_group(&vec![], &message, &None).is_empty());
}
