//! What clients and server say to each other.
use vstd::prelude::*;

verus! {

/// The view of an optional text.
pub open spec fn option_text(text: Option<String>) -> Option<Seq<char>> {
    match text {
        Some(s) => Some(s@),
        None => None,
    }
}

/// A user as the HTTP API shows one.
#[derive(Debug, Clone, PartialEq, Eq)]
pub struct UserDTO {
    pub id: i32,
    pub username: String,
}

/// The view of a [`UserDTO`].
pub struct UserView {
    pub id: i32,
    pub username: Seq<char>,
}

impl View for UserDTO {
    type V = UserView;

    open spec fn view(&self) -> UserView {
        UserView { id: self.id, username: self.username@ }
    }
}

/// A group, by its number and its name.
#[derive(Debug, PartialEq, Eq)]
pub struct GroupInfo {
    pub id: i64,
    pub name: String,
}

/// The view of a [`GroupInfo`].
pub struct GroupView {
    pub id: i64,
    pub name: Seq<char>,
}

impl View for GroupInfo {
    type V = GroupView;

    open spec fn view(&self) -> GroupView {
        GroupView { id: self.id, name: self.name@ }
    }
}

impl Clone for GroupInfo {
    fn clone(&self) -> (copy: Self)
        ensures
            copy@ == self@,
    {
        GroupInfo { id: self.id, name: self.name.clone() }
    }
}

/// The views of a list of groups.
pub open spec fn group_views(groups: Seq<GroupInfo>) -> Seq<GroupView> {
    groups.map_values(|g: GroupInfo| g@)
}

/// Messages that a client sends to the server.
#[derive(Debug, Clone, PartialEq, Eq)]
pub enum ClientMessage {
    Register { username: String },
    SendMessage { group_id: i64, content: String },
    CreateGroup { name: String },
    /// Invites a user to a group; only members may.
    InviteUser { group: String, username: String },
    /// Accepts a pending invite to a group.
    AcceptInvite { group: String },
    /// Turns down a pending invite to a group.
    RejectInvite { group: String },
    /// Invites a user to the group with this number.
    InviteToGroup { username_to_invite: String, group_id: i64 },
    /// Accepts a pending invite to the group with this number.
    JoinGroup { group_id: i64 },
    ListGroups,
}

/// The view of a [`ClientMessage`].
pub enum ClientView {
    Register { username: Seq<char> },
    SendMessage { group_id: i64, content: Seq<char> },
    CreateGroup { name: Seq<char> },
    InviteUser { group: Seq<char>, username: Seq<char> },
    AcceptInvite { group: Seq<char> },
    RejectInvite { group: Seq<char> },
    InviteToGroup { username_to_invite: Seq<char>, group_id: i64 },
    JoinGroup { group_id: i64 },
    ListGroups,
}

impl View for ClientMessage {
    type V = ClientView;

    open spec fn view(&self) -> ClientView {
        match *self {
            ClientMessage::Register { username } => ClientView::Register { username: username@ },
            ClientMessage::SendMessage { group_id, content } => ClientView::SendMessage {
                group_id,
                content: content@,
            },
            ClientMessage::CreateGroup { name } => ClientView::CreateGroup { name: name@ },
            ClientMessage::InviteUser { group, username } => ClientView::InviteUser {
                group: group@,
                username: username@,
            },
            ClientMessage::AcceptInvite { group } => ClientView::AcceptInvite { group: group@ },
            ClientMessage::RejectInvite { group } => ClientView::RejectInvite { group: group@ },
            ClientMessage::InviteToGroup { username_to_invite, group_id } =>
                ClientView::InviteToGroup { username_to_invite: username_to_invite@, group_id },
            ClientMessage::JoinGroup { group_id } => ClientView::JoinGroup { group_id },
            ClientMessage::ListGroups => ClientView::ListGroups,
        }
    }
}

/// The view of an optional client message.
pub open spec fn option_client(message: Option<ClientMessage>) -> Option<ClientView> {
    match message {
        Some(m) => Some(m@),
        None => None,
    }
}

/// Messages that the server sends to a client.
#[derive(Debug, PartialEq, Eq)]
pub enum ServerMessage {
    RegisterResponse { success: bool, reason: Option<String> },
    Error { message: String },
    NewMessage { group_id: i64, sender_username: String, content: String, timestamp: i64 },
    InviteReceived { group_id: i64, group_name: String, inviter_username: String },
    UserJoinedGroup { group_id: i64, username: String },
    GroupCreated { id: i64, name: String },
    /// An invite has been sent.
    InviteSent { group: String, username: String },
    /// The user has become a member of the group.
    JoinedGroup { group_id: i64, group_name: String },
    /// An invite has been turned down.
    InviteRejected { group: String },
    GroupList { groups: Vec<GroupInfo> },
}

/// The view of a [`ServerMessage`].
pub enum ServerView {
    RegisterResponse { success: bool, reason: Option<Seq<char>> },
    Error { message: Seq<char> },
    NewMessage { group_id: i64, sender_username: Seq<char>, content: Seq<char>, timestamp: i64 },
    InviteReceived { group_id: i64, group_name: Seq<char>, inviter_username: Seq<char> },
    UserJoinedGroup { group_id: i64, username: Seq<char> },
    GroupCreated { id: i64, name: Seq<char> },
    InviteSent { group: Seq<char>, username: Seq<char> },
    JoinedGroup { group_id: i64, group_name: Seq<char> },
    InviteRejected { group: Seq<char> },
    GroupList { groups: Seq<GroupView> },
}

impl View for ServerMessage {
    type V = ServerView;

    open spec fn view(&self) -> ServerView {
        match *self {
            ServerMessage::RegisterResponse { success, reason } => ServerView::RegisterResponse {
                success,
                reason: option_text(reason),
            },
            ServerMessage::Error { message } => ServerView::Error { message: message@ },
            ServerMessage::NewMessage { group_id, sender_username, content, timestamp } =>
                ServerView::NewMessage {
                group_id,
                sender_username: sender_username@,
                content: content@,
                timestamp,
            },
            ServerMessage::InviteReceived { group_id, group_name, inviter_username } =>
                ServerView::InviteReceived {
                group_id,
                group_name: group_name@,
                inviter_username: inviter_username@,
            },
            ServerMessage::UserJoinedGroup { group_id, username } => ServerView::UserJoinedGroup {
                group_id,
                username: username@,
            },
            ServerMessage::GroupCreated { id, name } => ServerView::GroupCreated {
                id,
                name: name@,
            },
            ServerMessage::InviteSent { group, username } => ServerView::InviteSent {
                group: group@,
                username: username@,
            },
            ServerMessage::JoinedGroup { group_id, group_name } => ServerView::JoinedGroup {
                group_id,
                group_name: group_name@,
            },
            ServerMessage::InviteRejected { group } => ServerView::InviteRejected {
                group: group@,
            },
            ServerMessage::GroupList { groups } => ServerView::GroupList {
                groups: group_views(groups@),
            },
        }
    }
}

/// The view of an optional server message.
pub open spec fn option_server(message: Option<ServerMessage>) -> Option<ServerView> {
    match message {
        Some(m) => Some(m@),
        None => None,
    }
}

/// A copy of `groups`.
pub fn clone_groups(groups: &Vec<GroupInfo>) -> (copies: Vec<GroupInfo>)
    ensures
        group_views(copies@) == group_views(groups@),
{
    let mut copies: Vec<GroupInfo> = Vec::new();
    let mut at: usize = 0;
    while at < groups.len()
        invariant
            at <= groups.len(),
            copies.len() == at,
            group_views(copies@) == group_views(groups@).take(at as int),
        decreases groups.len() - at,
    {
        copies.push(groups[at].clone());
        at = at + 1;
        assert(group_views(copies@) =~= group_views(groups@).take(at as int));
    }
    assert(group_views(copies@) =~= group_views(groups@));
    copies
}

impl Clone for ServerMessage {
    fn clone(&self) -> (copy: Self)
        ensures
            copy@ == self@,
    {
        match self {
            ServerMessage::RegisterResponse { success, reason } => ServerMessage::RegisterResponse {
                success: *success,
                reason: match reason {
                    Some(text) => Some(text.clone()),
                    None => None,
                },
            },
            ServerMessage::Error { message } => ServerMessage::Error { message: message.clone() },
            ServerMessage::NewMessage { group_id, sender_username, content, timestamp } =>
                ServerMessage::NewMessage {
                group_id: *group_id,
                sender_username: sender_username.clone(),
                content: content.clone(),
                timestamp: *timestamp,
            },
            ServerMessage::InviteReceived { group_id, group_name, inviter_username } =>
                ServerMessage::InviteReceived {
                group_id: *group_id,
                group_name: group_name.clone(),
                inviter_username: inviter_username.clone(),
            },
            ServerMessage::UserJoinedGroup { group_id, username } =>
                ServerMessage::UserJoinedGroup {
                group_id: *group_id,
                username: username.clone(),
            },
            ServerMessage::GroupCreated { id, name } => ServerMessage::GroupCreated {
                id: *id,
                name: name.clone(),
            },
            ServerMessage::InviteSent { group, username } => ServerMessage::InviteSent {
                group: group.clone(),
                username: username.clone(),
            },
            ServerMessage::JoinedGroup { group_id, group_name } => ServerMessage::JoinedGroup {
                group_id: *group_id,
                group_name: group_name.clone(),
            },
            ServerMessage::InviteRejected { group } => ServerMessage::InviteRejected {
                group: group.clone(),
            },
            ServerMessage::GroupList { groups } => ServerMessage::GroupList {
                groups: clone_groups(groups),
            },
        }
    }
}

/// The view of a message of a client shows all there is to it.
pub proof fn law_client_messages_are_viewed_whole(id: i64, a: String, b: String)
    ensures
        (ClientMessage::Register { username: a })@ == (ClientView::Register { username: a@ }),
        (ClientMessage::SendMessage { group_id: id, content: a })@ == (ClientView::SendMessage {
            group_id: id,
            content: a@,
        }),
        (ClientMessage::CreateGroup { name: a })@ == (ClientView::CreateGroup { name: a@ }),
        (ClientMessage::InviteUser { group: a, username: b })@ == (ClientView::InviteUser {
            group: a@,
            username: b@,
        }),
        (ClientMessage::AcceptInvite { group: a })@ == (ClientView::AcceptInvite { group: a@ }),
        (ClientMessage::RejectInvite { group: a })@ == (ClientView::RejectInvite { group: a@ }),
        (ClientMessage::InviteToGroup { username_to_invite: a, group_id: id })@ == (
        ClientView::InviteToGroup { username_to_invite: a@, group_id: id }),
        (ClientMessage::JoinGroup { group_id: id })@ == (ClientView::JoinGroup { group_id: id }),
        ClientMessage::ListGroups@ is ListGroups,
        option_text(Some(a)) == Some(a@),
        option_text(None) is None,
{
}

/// An optional message is viewed as the message it is.
pub proof fn law_optional_messages(sent: ClientMessage, told: ServerMessage)
    ensures
        option_client(Some(sent)) == Some(sent@),
        option_server(Some(told)) == Some(told@),
        option_client(None) is None && option_server(None) is None,
{
}

/// The view of a message of the server shows all there is to it.
pub proof fn law_server_messages_are_viewed_whole(
    yes: bool,
    id: i64,
    time: i64,
    a: String,
    b: String,
    groups: Vec<GroupInfo>,
    at: int,
)
    ensures
        (ServerMessage::RegisterResponse { success: yes, reason: Some(a) })@ == (
        ServerView::RegisterResponse { success: yes, reason: Some(a@) }),
        (ServerMessage::RegisterResponse { success: yes, reason: None })@ == (
        ServerView::RegisterResponse { success: yes, reason: None }),
        (ServerMessage::Error { message: a })@ == (ServerView::Error { message: a@ }),
        (ServerMessage::NewMessage {
            group_id: id,
            sender_username: a,
            content: b,
            timestamp: time,
        })@ == (ServerView::NewMessage {
            group_id: id,
            sender_username: a@,
            content: b@,
            timestamp: time,
        }),
        (ServerMessage::InviteReceived { group_id: id, group_name: a, inviter_username: b })@ == (
        ServerView::InviteReceived { group_id: id, group_name: a@, inviter_username: b@ }),
        (ServerMessage::UserJoinedGroup { group_id: id, username: a })@ == (
        ServerView::UserJoinedGroup { group_id: id, username: a@ }),
        (ServerMessage::GroupCreated { id, name: a })@ == (ServerView::GroupCreated {
            id,
            name: a@,
        }),
        (ServerMessage::InviteSent { group: a, username: b })@ == (ServerView::InviteSent {
            group: a@,
            username: b@,
        }),
        (ServerMessage::JoinedGroup { group_id: id, group_name: a })@ == (
        ServerView::JoinedGroup { group_id: id, group_name: a@ }),
        (ServerMessage::InviteRejected { group: a })@ == (ServerView::InviteRejected {
            group: a@,
        }),
        (ServerMessage::GroupList { groups })@ matches ServerView::GroupList { groups: listed }
            && listed.len() == groups@.len() && (0 <= at < groups@.len() ==> listed[at] == (
        GroupView { id: groups@[at].id, name: groups@[at].name@ })),
{
}

} // verus!
