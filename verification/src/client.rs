//! The client: what it shows, what it sends, and how it takes in what the server says.
use crate::messages::{
    group_views, option_client, option_text, ClientMessage, ClientView, GroupInfo, GroupView,
    ServerMessage, ServerView,
};
use crate::text::{
    concat3, i64_of, i64_text, int_text, is_word, join_from, joined, law_parse_undoes_text,
    law_split_undoes_join, law_words_are_words, parse_i64, split_whitespace, trim, trimmed, words,
};
use vstd::prelude::*;
use vstd::string::*;

verus! {

/// What `/help` shows.
pub const HELP: &'static str = "Comandi:\n /create <nome> per creare un nuovo gruppo\n| /invite <user> <gruppo> per invitare l'utente <user> al gruppo <gruppo>\n | /accept <gruppo> per accettare l'invito al gruppo <gruppo>\n | /reject <gruppo> per rifiutare l'invito al gruppo <gruppo>\n | /join <id> per accettare l'invito al gruppo con numero <id>\n | /help per mostrare tutti i comandi";

/// A line of the chat.
#[derive(Debug, PartialEq, Eq)]
pub struct ChatMessage {
    pub sender: String,
    pub content: String,
    pub group_name: Option<String>,
    pub group_id: Option<i64>,
    pub is_system: bool,
}

/// The view of a [`ChatMessage`].
pub struct ChatView {
    pub sender: Seq<char>,
    pub content: Seq<char>,
    pub group_name: Option<Seq<char>>,
    pub group_id: Option<i64>,
    pub is_system: bool,
}

impl View for ChatMessage {
    type V = ChatView;

    open spec fn view(&self) -> ChatView {
        ChatView {
            sender: self.sender@,
            content: self.content@,
            group_name: option_text(self.group_name),
            group_id: self.group_id,
            is_system: self.is_system,
        }
    }
}

/// The views of a list of chat lines.
pub open spec fn chat_views(lines: Seq<ChatMessage>) -> Seq<ChatView> {
    lines.map_values(|m: ChatMessage| m@)
}

/// The view of an optional group.
pub open spec fn option_group(group: Option<GroupInfo>) -> Option<GroupView> {
    match group {
        Some(g) => Some(g@),
        None => None,
    }
}

/// The client.
#[derive(Debug, PartialEq, Eq)]
pub struct RuggineApp {
    pub username_input: String,
    pub username: String,
    pub is_registered: bool,
    pub messages: Vec<ChatMessage>,
    pub input_buffer: String,
    pub groups: Vec<GroupInfo>,
    pub active_group: Option<GroupInfo>,
    pub connection_status: String,
}

/// The view of a [`RuggineApp`].
#[verifier::ext_equal]
pub struct AppView {
    pub username_input: Seq<char>,
    pub username: Seq<char>,
    pub is_registered: bool,
    pub messages: Seq<ChatView>,
    pub input_buffer: Seq<char>,
    pub groups: Seq<GroupView>,
    pub active_group: Option<GroupView>,
    pub connection_status: Seq<char>,
}

impl View for RuggineApp {
    type V = AppView;

    open spec fn view(&self) -> AppView {
        AppView {
            username_input: self.username_input@,
            username: self.username@,
            is_registered: self.is_registered,
            messages: chat_views(self.messages@),
            input_buffer: self.input_buffer@,
            groups: group_views(self.groups@),
            active_group: option_group(self.active_group),
            connection_status: self.connection_status@,
        }
    }
}

/// A line that the client itself puts into the chat.
pub open spec fn system_line(text: Seq<char>) -> ChatView {
    ChatView {
        sender: "Sistema"@,
        content: text,
        group_name: None,
        group_id: None,
        is_system: true,
    }
}

/// The client before it has heard anything.
pub open spec fn fresh() -> AppView {
    AppView {
        username_input: Seq::empty(),
        username: Seq::empty(),
        is_registered: false,
        messages: seq![
            system_line("Benvenuto in Ruggine! Inserisci il tuo username per connetterti."@),
        ],
        input_buffer: Seq::empty(),
        groups: Seq::empty(),
        active_group: None,
        connection_status: "Connessione in corso..."@,
    }
}

impl AppView {
    /// With a line more.
    pub open spec fn with_line(self, line: ChatView) -> AppView {
        AppView { messages: self.messages.push(line), ..self }
    }

    /// With a line of the client's own more.
    pub open spec fn with_system(self, text: Seq<char>) -> AppView {
        self.with_line(system_line(text))
    }

    /// With a group more, which becomes the active one.
    pub open spec fn entering(self, group: GroupView) -> AppView {
        AppView { active_group: Some(group), groups: self.groups.push(group), ..self }
    }
}

/// The name of the first group with this number.
pub open spec fn name_of(groups: Seq<GroupView>, id: i64) -> Option<Seq<char>>
    decreases groups.len(),
{
    if groups.len() == 0 {
        None
    } else if groups[0].id == id {
        Some(groups[0].name)
    } else {
        name_of(groups.skip(1), id)
    }
}

/// Whether one of the groups has this name.
pub open spec fn lists_name(groups: Seq<GroupView>, name: Seq<char>) -> bool {
    exists|i: int| 0 <= i < groups.len() && (#[trigger] groups[i]).name == name
}

/// The number by which `/invite` takes `group` to be meant: a name that the client lists is a
/// name, even if it reads as a number.
pub open spec fn meant_by_number(app: AppView, group: Seq<char>) -> Option<i64> {
    if lists_name(app.groups, group) {
        None
    } else {
        i64_of(group)
    }
}

/// What a command makes of the client, and what it sends.
pub open spec fn commanded(app: AppView, input: Seq<char>) -> (AppView, Option<ClientView>) {
    let parts = words(input);
    let rest = joined(parts.skip(1), seq![' ']);
    if parts[0] == "/create"@ && parts.len() >= 2 {
        (app, Some(ClientView::CreateGroup { name: rest }))
    } else if parts[0] == "/invite"@ && parts.len() >= 3 {
        let group = joined(parts.skip(2), seq![' ']);
        match meant_by_number(app, group) {
            Some(group_id) => (
                app,
                Some(ClientView::InviteToGroup { username_to_invite: parts[1], group_id }),
            ),
            None => (app, Some(ClientView::InviteUser { group, username: parts[1] })),
        }
    } else if parts[0] == "/accept"@ && parts.len() >= 2 {
        (app, Some(ClientView::AcceptInvite { group: rest }))
    } else if parts[0] == "/reject"@ && parts.len() >= 2 {
        (app, Some(ClientView::RejectInvite { group: rest }))
    } else if parts[0] == "/join"@ && i64_of(rest) is Some {
        (app, Some(ClientView::JoinGroup { group_id: i64_of(rest)->0 }))
    } else if parts[0] == "/help"@ {
        (app.with_system(HELP@), None)
    } else {
        (app.with_system("Comando sconosciuto: "@ + parts[0] + ". Usa /help"@), None)
    }
}

/// What sending off the input makes of the client, and what it sends: a command is carried out,
/// anything else is posted to the active group.
pub open spec fn submitted(app: AppView) -> (AppView, Option<ClientView>) {
    let content = trimmed(app.input_buffer);
    let cleared = AppView { input_buffer: Seq::empty(), ..app };
    if content.len() == 0 {
        (app, None)
    } else if content[0] == '/' {
        commanded(cleared, content)
    } else {
        match app.active_group {
            Some(group) => (
                cleared.with_line(
                    ChatView {
                        sender: "Tu"@,
                        content,
                        group_name: Some(group.name),
                        group_id: Some(group.id),
                        is_system: false,
                    },
                ),
                Some(ClientView::SendMessage { group_id: group.id, content }),
            ),
            None => (
                cleared.with_system("❌ Nessun gruppo attivo. Crea uno con /create <nome>"@),
                None,
            ),
        }
    }
}

/// What a message of the server makes of the client.
pub open spec fn received(app: AppView, message: ServerView) -> AppView {
    match message {
        ServerView::Error { message } => AppView { connection_status: message, ..app }.with_system(
            message,
        ),
        ServerView::RegisterResponse { success: true, .. } => AppView {
            is_registered: true,
            ..app
        }.with_system("✅ Connesso come '"@ + app.username + "'"@),
        ServerView::RegisterResponse { success: false, reason } => AppView {
            username: Seq::empty(),
            ..app.with_system(
                "❌ "@ + (match reason {
                    Some(text) => text,
                    None => "Errore"@,
                }),
            )
        },
        ServerView::GroupList { groups } => {
            let told = if groups.len() == 0 {
                app.with_system("Nessun gruppo ancora. Usa /create <nome> per crearne uno."@)
            } else {
                app
            };
            AppView {
                groups,
                active_group: if app.active_group is None && groups.len() > 0 {
                    Some(groups[0])
                } else {
                    app.active_group
                },
                ..told
            }
        },
        ServerView::NewMessage { group_id, sender_username, content, .. } => app.with_line(
            ChatView {
                sender: sender_username,
                content,
                group_name: Some(
                    match name_of(app.groups, group_id) {
                        Some(name) => name,
                        None => "Gruppo "@ + int_text(group_id as int),
                    },
                ),
                group_id: Some(group_id),
                is_system: false,
            },
        ),
        ServerView::GroupCreated { id, name } => app.with_system(
            "✅ Gruppo '"@ + name + "' creato (ID: "@ + int_text(id as int) + ")"@,
        ).entering(GroupView { id, name }),
        ServerView::InviteReceived { group_name, inviter_username, .. } => app.with_system(
            "📩 Invito da '"@ + inviter_username + "' per il gruppo '"@ + group_name
                + "' → /accept "@ + group_name + " oppure /reject "@ + group_name,
        ),
        ServerView::JoinedGroup { group_id, group_name } => app.with_system(
            "✅ Unito al gruppo '"@ + group_name + "'"@,
        ).entering(GroupView { id: group_id, name: group_name }),
        ServerView::UserJoinedGroup { group_id, username } => app.with_system(
            "👤 '"@ + username + "' si è unito a '"@ + (match name_of(app.groups, group_id) {
                Some(name) => name,
                None => int_text(group_id as int),
            }) + "'"@,
        ),
        ServerView::InviteSent { group, username } => app.with_system(
            "✅ Invito inviato a '"@ + username + "' per '"@ + group + "'"@,
        ),
        ServerView::InviteRejected { group } => app.with_system(
            "❌ Invito rifiutato per '"@ + group + "'"@,
        ),
    }
}

/// What the client sends on a message of the server: once registered, it asks for its groups.
pub open spec fn replied(message: ServerView) -> Option<ClientView> {
    match message {
        ServerView::RegisterResponse { success: true, .. } => Some(ClientView::ListGroups),
        _ => None,
    }
}

/// The client after a list of messages of the server, one after the other.
pub open spec fn received_all(app: AppView, list: Seq<ServerView>) -> AppView
    decreases list.len(),
{
    if list.len() == 0 {
        app
    } else {
        received(received_all(app, list.drop_last()), list.last())
    }
}

/// What the client sends on a list of messages of the server.
pub open spec fn replied_all(list: Seq<ServerView>) -> Seq<ClientView>
    decreases list.len(),
{
    if list.len() == 0 {
        Seq::empty()
    } else {
        match replied(list.last()) {
            Some(message) => replied_all(list.drop_last()).push(message),
            None => replied_all(list.drop_last()),
        }
    }
}

/// Whether `text` reads `other`.
fn reads(text: &String, other: &str) -> (same: bool)
    ensures
        same == (text@ == other@),
{
    *text == other.to_owned()
}

/// `a`, `b`, `c`, `d` and `e` one after the other.
fn concat5(a: &str, b: &str, c: &str, d: &str, e: &str) -> (text: String)
    ensures
        text@ == a@ + b@ + c@ + d@ + e@,
{
    let mut text = concat3(a, b, c);
    text.append(d);
    text.append(e);
    text
}

/// The name of the first group with this number.
fn find_name(groups: &Vec<GroupInfo>, id: i64) -> (name: Option<String>)
    ensures
        option_text(name) == name_of(group_views(groups@), id),
{
    let ghost all = group_views(groups@);
    let mut at: usize = 0;
    proof {
        assert(all.skip(0) =~= all);
    }
    while at < groups.len()
        invariant
            at <= groups.len(),
            all == group_views(groups@),
            name_of(all, id) == name_of(all.skip(at as int), id),
        decreases groups.len() - at,
    {
        proof {
            assert(all.skip(at as int)[0] == groups@[at as int]@);
            assert(all.skip(at as int).skip(1) =~= all.skip(at + 1));
        }
        if groups[at].id == id {
            return Some(groups[at].name.clone());
        }
        at = at + 1;
    }
    None
}

/// Whether one of the groups has this name.
fn has_name(groups: &Vec<GroupInfo>, name: &String) -> (listed: bool)
    ensures
        listed == lists_name(group_views(groups@), name@),
{
    let ghost all = group_views(groups@);
    let mut at: usize = 0;
    while at < groups.len()
        invariant
            at <= groups.len(),
            all == group_views(groups@),
            forall|i: int| 0 <= i < at ==> (#[trigger] all[i]).name != name@,
        decreases groups.len() - at,
    {
        assert(all[at as int] == groups@[at as int]@);
        if groups[at].name == *name {
            return true;
        }
        at = at + 1;
    }
    false
}

impl RuggineApp {
    /// A client that has not heard anything yet.
    pub fn new() -> (app: Self)
        ensures
            app@ == fresh(),
    {
        let welcome = ChatMessage {
            sender: "Sistema".to_owned(),
            content: "Benvenuto in Ruggine! Inserisci il tuo username per connetterti.".to_owned(),
            group_name: None,
            group_id: None,
            is_system: true,
        };
        let app = RuggineApp {
            username_input: String::new(),
            username: String::new(),
            is_registered: false,
            messages: vec![welcome],
            input_buffer: String::new(),
            groups: Vec::new(),
            active_group: None,
            connection_status: "Connessione in corso...".to_owned(),
        };
        proof {
            assert(app@ =~= fresh());
        }
        app
    }

    fn push_line(&mut self, line: ChatMessage)
        ensures
            final(self)@ == old(self)@.with_line(line@),
            final(self).groups == old(self).groups,
    {
        let ghost before = self.messages@;
        self.messages.push(line);
        proof {
            assert(chat_views(self.messages@) =~= chat_views(before).push(line@));
        }
    }

    /// Puts a line of the client's own into the chat.
    pub fn push_system(&mut self, msg: &str)
        ensures
            final(self)@ == old(self)@.with_system(msg@),
    {
        self.push_line(
            ChatMessage {
                sender: "Sistema".to_owned(),
                content: msg.to_owned(),
                group_name: None,
                group_id: None,
                is_system: true,
            },
        );
    }

    /// Carries a command out, and returns what to send to the server.
    pub fn handle_command(&mut self, input: &str) -> (message: Option<ClientMessage>)
        requires
            words(input@).len() > 0,
        ensures
            (final(self)@, option_client(message)) == commanded(old(self)@, input@),
    {
        let parts = split_whitespace(input);
        let ghost all = words(input@);
        assert(parts.len() == all.len());
        assert(forall|i: int| 0 <= i < all.len() ==> #[trigger] all[i] == parts@[i]@);
        let rest = join_from(&parts, 1);
        if reads(&parts[0], "/create") && parts.len() >= 2 {
            Some(ClientMessage::CreateGroup { name: rest })
        } else if reads(&parts[0], "/invite") && parts.len() >= 3 {
            let group = join_from(&parts, 2);
            let username = parts[1].clone();
            let number = if has_name(&self.groups, &group) {
                None
            } else {
                parse_i64(group.as_str())
            };
            match number {
                Some(group_id) => Some(
                    ClientMessage::InviteToGroup { username_to_invite: username, group_id },
                ),
                None => Some(ClientMessage::InviteUser { group, username }),
            }
        } else if reads(&parts[0], "/accept") && parts.len() >= 2 {
            Some(ClientMessage::AcceptInvite { group: rest })
        } else if reads(&parts[0], "/reject") && parts.len() >= 2 {
            Some(ClientMessage::RejectInvite { group: rest })
        } else {
            if reads(&parts[0], "/join") {
                if let Some(group_id) = parse_i64(rest.as_str()) {
                    return Some(ClientMessage::JoinGroup { group_id });
                }
            }
            if reads(&parts[0], "/help") {
                self.push_system(HELP);
            } else {
                let text = concat3("Comando sconosciuto: ", parts[0].as_str(), ". Usa /help");
                self.push_system(text.as_str());
            }
            None
        }
    }

    /// Sends the input off, and returns what to send to the server.
    pub fn send_message(&mut self) -> (message: Option<ClientMessage>)
        ensures
            (final(self)@, option_client(message)) == submitted(old(self)@),
    {
        let content = trim(self.input_buffer.as_str());
        if content.as_str().is_empty() {
            return None;
        }
        self.input_buffer = String::new();
        if content.as_str().get_char(0) == '/' {
            return self.handle_command(content.as_str());
        }
        match &self.active_group {
            Some(group) => {
                let group_id = group.id;
                let line = ChatMessage {
                    sender: "Tu".to_owned(),
                    content: content.clone(),
                    group_name: Some(group.name.clone()),
                    group_id: Some(group_id),
                    is_system: false,
                };
                self.push_line(line);
                Some(ClientMessage::SendMessage { group_id, content })
            },
            None => {
                self.push_system("❌ Nessun gruppo attivo. Crea uno con /create <nome>");
                None
            },
        }
    }
}

impl RuggineApp {
    /// Adds a group and makes it the active one.
    fn enter(&mut self, group: GroupInfo)
        ensures
            final(self)@ == old(self)@.entering(group@),
    {
        let ghost before = self.groups@;
        self.active_group = Some(group.clone());
        self.groups.push(group);
        proof {
            assert(group_views(self.groups@) =~= group_views(before).push(group@));
        }
    }

    /// Takes the server's list of groups in.
    fn take_groups(&mut self, groups: Vec<GroupInfo>)
        ensures
            final(self)@ == received(
                old(self)@,
                ServerView::GroupList { groups: group_views(groups@) },
            ),
    {
        if groups.len() == 0 {
            self.push_system("Nessun gruppo ancora. Usa /create <nome> per crearne uno.");
        }
        if self.active_group.is_none() && groups.len() > 0 {
            self.active_group = Some(groups[0].clone());
        }
        self.groups = groups;
    }

    /// Takes a message of the server in, and returns what to send back.
    pub fn receive(&mut self, message: ServerMessage) -> (reply: Option<ClientMessage>)
        ensures
            final(self)@ == received(old(self)@, message@),
            option_client(reply) == replied(message@),
    {
        match message {
            ServerMessage::Error { message } => {
                self.connection_status = message.clone();
                self.push_system(message.as_str());
                None
            },
            ServerMessage::RegisterResponse { success, reason } => {
                if success {
                    self.is_registered = true;
                    let text = concat3("✅ Connesso come '", self.username.as_str(), "'");
                    self.push_system(text.as_str());
                    Some(ClientMessage::ListGroups)
                } else {
                    let mut text = "❌ ".to_owned();
                    match reason {
                        Some(why) => {
                            text.append(why.as_str());
                        },
                        None => {
                            text.append("Errore");
                        },
                    }
                    self.push_system(text.as_str());
                    self.username = String::new();
                    None
                }
            },
            ServerMessage::GroupList { groups } => {
                self.take_groups(groups);
                None
            },
            ServerMessage::NewMessage { group_id, sender_username, content, timestamp } => {
                let group_name = match find_name(&self.groups, group_id) {
                    Some(name) => name,
                    None => {
                        let mut name = "Gruppo ".to_owned();
                        name.append(i64_text(group_id).as_str());
                        name
                    },
                };
                self.push_line(
                    ChatMessage {
                        sender: sender_username,
                        content,
                        group_name: Some(group_name),
                        group_id: Some(group_id),
                        is_system: false,
                    },
                );
                None
            },
            ServerMessage::GroupCreated { id, name } => {
                let number = i64_text(id);
                let text = concat5(
                    "✅ Gruppo '",
                    name.as_str(),
                    "' creato (ID: ",
                    number.as_str(),
                    ")",
                );
                self.push_system(text.as_str());
                self.enter(GroupInfo { id, name });
                None
            },
            ServerMessage::InviteReceived { group_id, group_name, inviter_username } => {
                let mut text = concat5(
                    "📩 Invito da '",
                    inviter_username.as_str(),
                    "' per il gruppo '",
                    group_name.as_str(),
                    "' → /accept ",
                );
                text.append(group_name.as_str());
                text.append(" oppure /reject ");
                text.append(group_name.as_str());
                self.push_system(text.as_str());
                None
            },
            ServerMessage::JoinedGroup { group_id, group_name } => {
                let text = concat3("✅ Unito al gruppo '", group_name.as_str(), "'");
                self.push_system(text.as_str());
                self.enter(GroupInfo { id: group_id, name: group_name });
                None
            },
            ServerMessage::UserJoinedGroup { group_id, username } => {
                let group_name = match find_name(&self.groups, group_id) {
                    Some(name) => name,
                    None => i64_text(group_id),
                };
                let text = concat5(
                    "👤 '",
                    username.as_str(),
                    "' si è unito a '",
                    group_name.as_str(),
                    "'",
                );
                self.push_system(text.as_str());
                None
            },
            ServerMessage::InviteSent { group, username } => {
                let text = concat5(
                    "✅ Invito inviato a '",
                    username.as_str(),
                    "' per '",
                    group.as_str(),
                    "'",
                );
                self.push_system(text.as_str());
                None
            },
            ServerMessage::InviteRejected { group } => {
                let text = concat3("❌ Invito rifiutato per '", group.as_str(), "'");
                self.push_system(text.as_str());
                None
            },
        }
    }

    /// Takes in all that the server has said, in order, and returns what to send back.
    pub fn process_server_messages(&mut self, received_messages: Vec<ServerMessage>) -> (replies:
        Vec<ClientMessage>)
        ensures
            final(self)@ == received_all(old(self)@, server_views(received_messages@)),
            client_views(replies@) == replied_all(server_views(received_messages@)),
    {
        let ghost start = self@;
        let ghost all = server_views(received_messages@);
        let mut replies: Vec<ClientMessage> = Vec::new();
        let mut at: usize = 0;
        proof {
            assert(client_views(replies@) =~= Seq::empty());
        }
        while at < received_messages.len()
            invariant
                at <= received_messages.len(),
                all == server_views(received_messages@),
                self@ == received_all(start, all.take(at as int)),
                client_views(replies@) == replied_all(all.take(at as int)),
            decreases received_messages.len() - at,
        {
            let message = received_messages[at].clone();
            proof {
                assert(all.take(at + 1).drop_last() =~= all.take(at as int));
                assert(all.take(at + 1).last() == message@);
            }
            let ghost before = replies@;
            if let Some(reply) = self.receive(message) {
                replies.push(reply);
                proof {
                    assert(client_views(replies@) =~= client_views(before).push(reply@));
                }
            }
            at = at + 1;
        }
        proof {
            assert(all.take(at as int) =~= all);
        }
        replies
    }
}

/// The views of a list of server messages.
pub open spec fn server_views(list: Seq<ServerMessage>) -> Seq<ServerView> {
    list.map_values(|m: ServerMessage| m@)
}

/// The views of a list of client messages.
pub open spec fn client_views(list: Seq<ClientMessage>) -> Seq<ClientView> {
    list.map_values(|m: ClientMessage| m@)
}

/// What signing up under the name that was typed makes of the client, and what it sends.
pub open spec fn signed_up(app: AppView) -> (AppView, Option<ClientView>) {
    let username = trimmed(app.username_input);
    if username.len() == 0 {
        (app, None)
    } else {
        (AppView { username, ..app }, Some(ClientView::Register { username }))
    }
}

/// The number of the active group.
pub open spec fn active_id(app: AppView) -> Option<i64> {
    match app.active_group {
        Some(group) => Some(group.id),
        None => None,
    }
}

/// Whether a line is shown while the group `active` is: the client's own lines always are.
pub open spec fn shown(line: ChatView, active: Option<i64>) -> bool {
    line.is_system || line.group_id == active
}

/// Which of the lines are shown while the group `active` is, in order.
pub open spec fn shown_lines(lines: Seq<ChatView>, active: Option<i64>) -> Seq<int>
    decreases lines.len(),
{
    if lines.len() == 0 {
        Seq::empty()
    } else {
        let before = shown_lines(lines.drop_last(), active);
        if shown(lines.last(), active) {
            before.push(lines.len() - 1)
        } else {
            before
        }
    }
}

/// Whether two optional numbers are the same.
fn same_id(a: Option<i64>, b: Option<i64>) -> (same: bool)
    ensures
        same == (a == b),
{
    match (a, b) {
        (Some(x), Some(y)) => x == y,
        (None, None) => true,
        _ => false,
    }
}

impl ChatMessage {
    /// How the line names its group.
    pub fn tag(&self) -> (text: Option<String>)
        ensures
            match self@.group_name {
                Some(name) => text matches Some(tag) && tag@ == "["@ + name + "]"@,
                None => text is None,
            },
    {
        match &self.group_name {
            Some(name) => Some(concat3("[", name.as_str(), "]")),
            None => None,
        }
    }

    /// How the line names its sender.
    pub fn author(&self) -> (text: String)
        ensures
            text@ == self@.sender + ":"@,
    {
        let mut text = self.sender.clone();
        text.append(":");
        text
    }
}

impl RuggineApp {
    /// Signs up under the name that was typed, and returns what to send to the server.
    pub fn submit_username(&mut self) -> (message: Option<ClientMessage>)
        ensures
            (final(self)@, option_client(message)) == signed_up(old(self)@),
    {
        let username = trim(self.username_input.as_str());
        if username.as_str().is_empty() {
            None
        } else {
            self.username = username.clone();
            Some(ClientMessage::Register { username })
        }
    }

    /// The number of the active group.
    pub fn active_group_id(&self) -> (id: Option<i64>)
        ensures
            id == active_id(self@),
    {
        match &self.active_group {
            Some(group) => Some(group.id),
            None => None,
        }
    }

    /// Whether the group is the active one.
    pub fn is_active(&self, group: &GroupInfo) -> (active: bool)
        ensures
            active == (active_id(self@) == Some(group@.id)),
    {
        same_id(self.active_group_id(), Some(group.id))
    }

    /// How the group is listed.
    pub fn group_label(&self, group: &GroupInfo) -> (label: String)
        ensures
            label@ == (if active_id(self@) == Some(group@.id) {
                "▶ "@
            } else {
                "  "@
            }) + group@.name,
    {
        let mut label = if self.is_active(group) {
            "▶ ".to_owned()
        } else {
            "  ".to_owned()
        };
        label.append(group.name.as_str());
        label
    }

    /// Makes one of the listed groups the active one.
    pub fn select_group(&mut self, at: usize)
        requires
            at < old(self)@.groups.len(),
        ensures
            final(self)@ == (AppView {
                active_group: Some(old(self)@.groups[at as int]),
                ..old(self)@
            }),
    {
        self.active_group = Some(self.groups[at].clone());
    }

    /// The heading over the chat.
    pub fn heading(&self) -> (text: String)
        ensures
            text@ == "# "@ + (match self@.active_group {
                Some(group) => group.name,
                None => "Nessun gruppo"@,
            }),
    {
        let mut text = "# ".to_owned();
        match &self.active_group {
            Some(group) => {
                text.append(group.name.as_str());
            },
            None => {
                text.append("Nessun gruppo");
            },
        }
        text
    }

    /// How the client shows whose it is.
    pub fn user_label(&self) -> (text: String)
        ensures
            text@ == "👤 "@ + self@.username,
    {
        let mut text = "👤 ".to_owned();
        text.append(self.username.as_str());
        text
    }

    /// Which lines of the chat are shown, in order.
    pub fn visible_messages(&self) -> (indices: Vec<usize>)
        ensures
            indices@.map_values(|i: usize| i as int) == shown_lines(
                self@.messages,
                active_id(self@),
            ),
    {
        let active = self.active_group_id();
        let ghost lines = self@.messages;
        let mut indices: Vec<usize> = Vec::new();
        let mut at: usize = 0;
        proof {
            assert(indices@.map_values(|i: usize| i as int) =~= Seq::empty());
        }
        while at < self.messages.len()
            invariant
                at <= self.messages.len(),
                lines == self@.messages,
                active == active_id(self@),
                indices@.map_values(|i: usize| i as int) == shown_lines(
                    lines.take(at as int),
                    active,
                ),
            decreases self.messages.len() - at,
        {
            let line = &self.messages[at];
            proof {
                assert(lines.take(at + 1).drop_last() =~= lines.take(at as int));
                assert(lines.take(at + 1).last() == line@);
            }
            let ghost before = indices@;
            if line.is_system || same_id(line.group_id, active) {
                indices.push(at);
                proof {
                    assert(indices@.map_values(|i: usize| i as int) =~= before.map_values(
                        |i: usize| i as int,
                    ).push(at as int));
                }
            }
            at = at + 1;
        }
        proof {
            assert(lines.take(at as int) =~= lines);
        }
        indices
    }
}

/// Whether `after` still holds all lines of `before`, in their places.
pub open spec fn history_kept(before: AppView, after: AppView) -> bool {
    before.messages.is_prefix_of(after.messages)
}

/// No line of the chat is ever lost or changed, whatever the user does and the server says.
pub proof fn law_history_is_kept(app: AppView, message: ServerView)
    ensures
        history_kept(app, received(app, message)),
        history_kept(app, submitted(app).0),
        history_kept(app, signed_up(app).0),
{
}

/// The text of a command: its name and its arguments, with single spaces between them.
pub open spec fn command_text(name: Seq<char>, arguments: Seq<Seq<char>>) -> Seq<char> {
    joined(seq![name] + arguments, seq![' '])
}

proof fn lemma_command_words(name: Seq<char>, arguments: Seq<Seq<char>>)
    requires
        is_word(name),
        forall|i: int| 0 <= i < arguments.len() ==> is_word(#[trigger] arguments[i]),
    ensures
        words(command_text(name, arguments)) == seq![name] + arguments,
        (seq![name] + arguments).skip(1) == arguments,
{
    let parts = seq![name] + arguments;
    assert forall|i: int| 0 <= i < parts.len() implies is_word(#[trigger] parts[i]) by {
        if i > 0 {
            assert(parts[i] == arguments[i - 1]);
        }
    }
    law_split_undoes_join(parts);
    assert(parts.skip(1) =~= arguments);
}

proof fn lemma_help(app: AppView)
    ensures
        commanded(app, "/help"@) == (app.with_system(HELP@), None::<ClientView>),
{
    reveal_strlit("/create");
    reveal_strlit("/accept");
    reveal_strlit("/reject");
    reveal_strlit("/invite");
    reveal_strlit("/join");
    reveal_strlit("/help");
    assert("/create"@[1] == 'c' && "/accept"@[1] == 'a' && "/reject"@[1] == 'r' && "/invite"@[1]
        == 'i' && "/join"@[1] == 'j' && "/help"@[1] == 'h');
    lemma_command_words("/help"@, Seq::empty());
    assert(seq!["/help"@] + Seq::empty() =~= seq!["/help"@]);
}

/// Each command sends the message it is for: with the group's name put together from the words
/// behind the command, or with its number. An invite goes by name to a group that the client
/// lists under that name, and to any group whose name is no number; otherwise by number.
pub proof fn law_commands(app: AppView, user: Seq<char>, group: Seq<Seq<char>>, id: i64)
    requires
        is_word(user),
        group.len() > 0,
        forall|i: int| 0 <= i < group.len() ==> is_word(#[trigger] group[i]),
    ensures
        ({
            let name = joined(group, seq![' ']);
            &&& commanded(app, command_text("/create"@, group)) == (
                app,
                Some(ClientView::CreateGroup { name }),
            )
            &&& commanded(app, command_text("/accept"@, group)) == (
                app,
                Some(ClientView::AcceptInvite { group: name }),
            )
            &&& commanded(app, command_text("/reject"@, group)) == (
                app,
                Some(ClientView::RejectInvite { group: name }),
            )
            &&& (exists|i: int| 0 <= i < app.groups.len() && (#[trigger] app.groups[i]).name == name)
                || i64_of(name) is None ==> commanded(
                app,
                command_text("/invite"@, seq![user] + group),
            ) == (app, Some(ClientView::InviteUser { group: name, username: user }))
        }),
        (forall|i: int|
            0 <= i < app.groups.len() ==> (#[trigger] app.groups[i]).name != int_text(id as int))
            ==> commanded(
            app,
            command_text("/invite"@, seq![user, int_text(id as int)]),
        ) == (app, Some(ClientView::InviteToGroup { username_to_invite: user, group_id: id })),
        commanded(app, command_text("/join"@, seq![int_text(id as int)])) == (
            app,
            Some(ClientView::JoinGroup { group_id: id }),
        ),
        commanded(app, "/help"@) == (app.with_system(HELP@), None::<ClientView>),
{
    reveal_strlit("/create");
    reveal_strlit("/accept");
    reveal_strlit("/reject");
    reveal_strlit("/invite");
    reveal_strlit("/join");
    assert("/create"@[1] == 'c' && "/accept"@[1] == 'a' && "/reject"@[1] == 'r' && "/invite"@[1]
        == 'i' && "/join"@[1] == 'j');
    let number = int_text(id as int);
    law_parse_undoes_text(id);
    lemma_command_words("/create"@, group);
    lemma_command_words("/accept"@, group);
    lemma_command_words("/reject"@, group);
    let by_name = seq![user] + group;
    assert forall|i: int| 0 <= i < by_name.len() implies is_word(#[trigger] by_name[i]) by {
        if i > 0 {
            assert(by_name[i] == group[i - 1]);
        }
    }
    lemma_command_words("/invite"@, by_name);
    assert((seq!["/invite"@] + by_name).skip(2) =~= group);
    let by_id = seq![user, number];
    lemma_command_words("/invite"@, by_id);
    assert((seq!["/invite"@] + by_id).skip(2) =~= seq![number]);
    let join = seq![number];
    lemma_command_words("/join"@, join);
    lemma_help(app);
}

/// Whether `part` stands somewhere in `text`.
pub open spec fn mentions(text: Seq<char>, part: Seq<char>) -> bool {
    exists|at: int|
        0 <= at <= text.len() - part.len() && #[trigger] text.subrange(at, at + part.len()) == part
}

/// `/help` sends nothing and shows one line more, which names every command.
pub proof fn law_help_names_every_command(app: AppView)
    ensures
        commanded(app, "/help"@).1 is None,
        exists|text: Seq<char>|
            {
                &&& commanded(app, "/help"@).0 == #[trigger] app.with_system(text)
                &&& mentions(text, "/create"@)
                &&& mentions(text, "/invite"@)
                &&& mentions(text, "/accept"@)
                &&& mentions(text, "/reject"@)
                &&& mentions(text, "/join"@)
                &&& mentions(text, "/help"@)
            },
{
    lemma_help(app);
    reveal_strlit(
        "Comandi:\n /create <nome> per creare un nuovo gruppo\n| /invite <user> <gruppo> per invitare l'utente <user> al gruppo <gruppo>\n | /accept <gruppo> per accettare l'invito al gruppo <gruppo>\n | /reject <gruppo> per rifiutare l'invito al gruppo <gruppo>\n | /join <id> per accettare l'invito al gruppo con numero <id>\n | /help per mostrare tutti i comandi",
    );
    reveal_strlit("/create");
    reveal_strlit("/invite");
    reveal_strlit("/accept");
    reveal_strlit("/reject");
    reveal_strlit("/join");
    reveal_strlit("/help");
    assert(HELP@.subrange(10, 10int + "/create"@.len()) =~= "/create"@);
    assert(HELP@.subrange(54, 54int + "/invite"@.len()) =~= "/invite"@);
    assert(HELP@.subrange(129, 129int + "/accept"@.len()) =~= "/accept"@);
    assert(HELP@.subrange(191, 191int + "/reject"@.len()) =~= "/reject"@);
    assert(HELP@.subrange(253, 253int + "/join"@.len()) =~= "/join"@);
    assert(HELP@.subrange(316, 316int + "/help"@.len()) =~= "/help"@);
}

/// The group that a `/create` names is one that `/accept` can name: the words of its name put
/// together give the name again.
pub proof fn law_created_names_can_be_typed(app: AppView, input: Seq<char>)
    requires
        words(input).len() > 0,
    ensures
        commanded(app, input).1 matches Some(ClientView::CreateGroup { name }) ==> words(name)
            == words(input).skip(1) && joined(words(name), seq![' ']) == name,
{
    law_words_are_words(input);
    let rest = words(input).skip(1);
    assert forall|i: int| 0 <= i < rest.len() implies is_word(#[trigger] rest[i]) by {
        assert(rest[i] == words(input)[i + 1]);
    }
    law_split_undoes_join(rest);
}

} // verus!
