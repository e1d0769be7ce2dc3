//! How the server deals with one message of a client.
//!
//! An exchange never touches the database, the table of connected users or a
//! socket itself. It asks for one thing at a time with a [`Request`], is told
//! how that went with an [`Answer`], and goes on from there until it is
//! [`Step::Finished`].
use crate::clock::{unix_now, LATEST};
use crate::messages::{
    group_views, option_text, ClientMessage, GroupInfo, GroupView, ServerMessage, ServerView,
};
use crate::rules;
use crate::text::concat3;
use vstd::prelude::*;
use vstd::string::*;

verus! {

/// What an unregistered client is told.
pub const REGISTRATION_REQUIRED: &'static str = "Registrazione richiesta";

/// What stops an exchange, with the text that came with it.
#[derive(Debug, PartialEq, Eq)]
pub enum Fault {
    /// The database could not be locked.
    StoreLock(String),
    /// The table of connected users could not be locked.
    ActiveLock(String),
    /// The database turned a statement down.
    Store(String),
    /// The client's channel is closed.
    Channel(String),
}

/// The view of a [`Fault`].
pub enum FaultView {
    StoreLock(Seq<char>),
    ActiveLock(Seq<char>),
    Store(Seq<char>),
    Channel(Seq<char>),
}

impl View for Fault {
    type V = FaultView;

    open spec fn view(&self) -> FaultView {
        match *self {
            Fault::StoreLock(text) => FaultView::StoreLock(text@),
            Fault::ActiveLock(text) => FaultView::ActiveLock(text@),
            Fault::Store(text) => FaultView::Store(text@),
            Fault::Channel(text) => FaultView::Channel(text@),
        }
    }
}

/// How a fault reads.
pub open spec fn fault_text(fault: FaultView) -> Seq<char> {
    match fault {
        FaultView::StoreLock(text) => "Lock DB error: "@ + text,
        FaultView::ActiveLock(text) => "Lock error: "@ + text,
        FaultView::Store(text) => text,
        FaultView::Channel(text) => text,
    }
}

impl Fault {
    /// How the fault reads.
    pub fn text(self) -> (text: String)
        ensures
            text@ == fault_text(self@),
    {
        match self {
            Fault::StoreLock(detail) => {
                let mut text = "Lock DB error: ".to_owned();
                text.append(detail.as_str());
                text
            },
            Fault::ActiveLock(detail) => {
                let mut text = "Lock error: ".to_owned();
                text.append(detail.as_str());
                text
            },
            Fault::Store(detail) => detail,
            Fault::Channel(detail) => detail,
        }
    }
}

/// What an exchange asks for.
#[derive(Debug, PartialEq, Eq)]
pub enum Request {
    /// The number of the user with this name.
    FindUserId { username: String },
    /// The number and the name of the user with this name.
    FindUser { username: String },
    /// A new user with this name.
    InsertUser { username: String },
    /// The number of a group with this name.
    FindGroupId { name: String },
    /// The number and the name of a group with this name.
    FindGroup { name: String },
    /// The name of the group with this number.
    FindGroupName { group_id: i64 },
    /// The groups that the user is a member of.
    FindGroups { user_id: i64 },
    /// A new group with this name, and its number.
    InsertGroup { name: String },
    /// Whether the user is a member of the group.
    FindMember { user_id: i64, group_id: i64 },
    /// The user as a new member of the group.
    InsertMember { user_id: i64, group_id: i64 },
    /// Whether the user has an invite to the group pending.
    FindInvite { user_id: i64, group_id: i64 },
    /// A new invite, which must not be there yet.
    InsertInvite { invited_user_id: i64, group_id: i64, inviter_user_id: i64 },
    /// A new invite, unless it is there already.
    InsertInviteIfAbsent { invited_user_id: i64, group_id: i64, inviter_user_id: i64 },
    /// The user's invite to the group removed, and how many there were.
    DeleteInvite { user_id: i64, group_id: i64 },
    /// A transaction from here on.
    Begin,
    /// The transaction made permanent.
    Commit,
    /// This connection as the one where the user is reached.
    Enroll { username: String },
    /// A message to a user, if connected.
    Notify { username: String, message: ServerMessage },
    /// A message to the connected members of a group, but for one user.
    Broadcast { group_id: i64, message: ServerMessage, exclude: Option<String> },
    /// A message to the client that the exchange is with.
    Tell { message: ServerMessage },
}

/// The view of a [`Request`].
pub enum RequestView {
    FindUserId { username: Seq<char> },
    FindUser { username: Seq<char> },
    InsertUser { username: Seq<char> },
    FindGroupId { name: Seq<char> },
    FindGroup { name: Seq<char> },
    FindGroupName { group_id: i64 },
    FindGroups { user_id: i64 },
    InsertGroup { name: Seq<char> },
    FindMember { user_id: i64, group_id: i64 },
    InsertMember { user_id: i64, group_id: i64 },
    FindInvite { user_id: i64, group_id: i64 },
    InsertInvite { invited_user_id: i64, group_id: i64, inviter_user_id: i64 },
    InsertInviteIfAbsent { invited_user_id: i64, group_id: i64, inviter_user_id: i64 },
    DeleteInvite { user_id: i64, group_id: i64 },
    Begin,
    Commit,
    Enroll { username: Seq<char> },
    Notify { username: Seq<char>, message: ServerView },
    Broadcast { group_id: i64, message: ServerView, exclude: Option<Seq<char>> },
    Tell { message: ServerView },
}

impl View for Request {
    type V = RequestView;

    open spec fn view(&self) -> RequestView {
        match *self {
            Request::FindUserId { username } => RequestView::FindUserId { username: username@ },
            Request::FindUser { username } => RequestView::FindUser { username: username@ },
            Request::InsertUser { username } => RequestView::InsertUser { username: username@ },
            Request::FindGroupId { name } => RequestView::FindGroupId { name: name@ },
            Request::FindGroup { name } => RequestView::FindGroup { name: name@ },
            Request::FindGroupName { group_id } => RequestView::FindGroupName { group_id },
            Request::FindGroups { user_id } => RequestView::FindGroups { user_id },
            Request::InsertGroup { name } => RequestView::InsertGroup { name: name@ },
            Request::FindMember { user_id, group_id } => RequestView::FindMember {
                user_id,
                group_id,
            },
            Request::InsertMember { user_id, group_id } => RequestView::InsertMember {
                user_id,
                group_id,
            },
            Request::FindInvite { user_id, group_id } => RequestView::FindInvite {
                user_id,
                group_id,
            },
            Request::InsertInvite { invited_user_id, group_id, inviter_user_id } =>
                RequestView::InsertInvite { invited_user_id, group_id, inviter_user_id },
            Request::InsertInviteIfAbsent { invited_user_id, group_id, inviter_user_id } =>
                RequestView::InsertInviteIfAbsent { invited_user_id, group_id, inviter_user_id },
            Request::DeleteInvite { user_id, group_id } => RequestView::DeleteInvite {
                user_id,
                group_id,
            },
            Request::Begin => RequestView::Begin,
            Request::Commit => RequestView::Commit,
            Request::Enroll { username } => RequestView::Enroll { username: username@ },
            Request::Notify { username, message } => RequestView::Notify {
                username: username@,
                message: message@,
            },
            Request::Broadcast { group_id, message, exclude } => RequestView::Broadcast {
                group_id,
                message: message@,
                exclude: option_text(exclude),
            },
            Request::Tell { message } => RequestView::Tell { message: message@ },
        }
    }
}

/// How a request went.
#[derive(Debug, PartialEq, Eq)]
pub enum Answer {
    /// It was done, or what was looked for is there.
    Done,
    /// The number that was found or given.
    Id(i64),
    /// The number and the name that were found.
    Row(i64, String),
    /// The name that was found.
    Name(String),
    /// The groups that were found.
    Groups(Vec<GroupInfo>),
    /// How many rows were concerned.
    Count(usize),
    /// It was not done, or what was looked for is not there.
    Failed(Fault),
}

/// The view of an [`Answer`].
pub enum AnswerView {
    Done,
    Id(i64),
    Row(i64, Seq<char>),
    Name(Seq<char>),
    Groups(Seq<GroupView>),
    Count(usize),
    Failed(FaultView),
}

impl View for Answer {
    type V = AnswerView;

    open spec fn view(&self) -> AnswerView {
        match *self {
            Answer::Done => AnswerView::Done,
            Answer::Id(id) => AnswerView::Id(id),
            Answer::Row(id, name) => AnswerView::Row(id, name@),
            Answer::Name(name) => AnswerView::Name(name@),
            Answer::Groups(groups) => AnswerView::Groups(group_views(groups@)),
            Answer::Count(n) => AnswerView::Count(n),
            Answer::Failed(fault) => AnswerView::Failed(fault@),
        }
    }
}

/// What an exchange is waiting for.
#[derive(Debug, Clone, Copy, PartialEq, Eq, Structural)]
pub enum Phase {
    /// The last word to the client, or to the group.
    Closing,
    RegisterLookup,
    RegisterInsert,
    RegisterEnrollKnown,
    RegisterEnrollNew,
    CreateBegin,
    CreateUser,
    CreateGroup,
    CreateMember,
    CreateCommit,
    ByIdInviter,
    ByIdGuest,
    ByIdMember,
    ByIdGroup,
    ByIdInsert,
    ByIdNotify,
    JoinUser,
    JoinInvite,
    JoinBegin,
    JoinDelete,
    JoinInsert,
    JoinCommit,
    PostUser,
    PostMember,
    InviteGroup,
    InviteInviter,
    InviteMember,
    InviteGuest,
    InviteAlready,
    InviteInsert,
    InviteNotify,
    AcceptGroup,
    AcceptUser,
    AcceptInvite,
    AcceptBegin,
    AcceptDelete,
    AcceptInsert,
    AcceptCommit,
    AcceptTell,
    RejectGroup,
    RejectUser,
    RejectDelete,
    ListUser,
    ListFind,
}

/// An exchange under way: what it waits for and what it knows so far.
#[derive(Debug, PartialEq, Eq)]
pub struct Exchange {
    phase: Phase,
    /// The user whom the exchange is for.
    user: String,
    user_id: i64,
    /// The user to invite.
    guest: String,
    guest_id: i64,
    /// The group as the client names it.
    group: String,
    group_id: i64,
    /// The group's name in the database.
    group_name: String,
    /// The inviter's name in the database.
    inviter_name: String,
    /// The text to post.
    content: String,
}

/// The view of an [`Exchange`].
pub struct ExchangeView {
    pub phase: Phase,
    pub user: Seq<char>,
    pub user_id: i64,
    pub guest: Seq<char>,
    pub guest_id: i64,
    pub group: Seq<char>,
    pub group_id: i64,
    pub group_name: Seq<char>,
    pub inviter_name: Seq<char>,
    pub content: Seq<char>,
}

impl View for Exchange {
    type V = ExchangeView;

    closed spec fn view(&self) -> ExchangeView {
        ExchangeView {
            phase: self.phase,
            user: self.user@,
            user_id: self.user_id,
            guest: self.guest@,
            guest_id: self.guest_id,
            group: self.group@,
            group_id: self.group_id,
            group_name: self.group_name@,
            inviter_name: self.inviter_name@,
            content: self.content@,
        }
    }
}

/// Where an exchange stands.
#[derive(Debug, PartialEq, Eq)]
pub enum Step {
    /// It asks for something, and goes on once it is answered.
    Ask { request: Request, then: Exchange },
    /// It is over; an error is its text.
    Finished(Result<(), String>),
}

/// The view of a [`Step`].
pub enum StepView {
    Ask { request: RequestView, then: ExchangeView },
    Finished(Result<(), Seq<char>>),
}

impl View for Step {
    type V = StepView;

    open spec fn view(&self) -> StepView {
        match *self {
            Step::Ask { request, then } => StepView::Ask { request: request@, then: then@ },
            Step::Finished(Ok(())) => StepView::Finished(Ok(())),
            Step::Finished(Err(text)) => StepView::Finished(Err(text@)),
        }
    }
}

impl Exchange {
    fn open(user: String) -> (exchange: Self)
        ensures
            exchange@ == rules::opened(user@),
    {
        Exchange {
            phase: Phase::Closing,
            user,
            user_id: 0,
            guest: String::new(),
            guest_id: 0,
            group: String::new(),
            group_id: 0,
            group_name: String::new(),
            inviter_name: String::new(),
            content: String::new(),
        }
    }

    fn ask(self, request: Request, phase: Phase) -> (step: Step)
        ensures
            step@ == rules::ask(request@, self@, phase),
    {
        Step::Ask { request, then: Exchange { phase, ..self } }
    }

    fn tell(self, message: ServerMessage) -> (step: Step)
        ensures
            step@ == rules::tell(message@, self@),
    {
        self.ask(Request::Tell { message }, Phase::Closing)
    }

    fn refuse(self, text: String) -> (step: Step)
        ensures
            step@ == rules::refuse(text@, self@),
    {
        self.tell(ServerMessage::Error { message: text })
    }

    /// Whether `answer` is of the kind that the exchange waits for.
    pub fn accepts(&self, answer: &Answer) -> (accepted: bool)
        ensures
            accepted == rules::fits(self@.phase, answer@),
    {
        if let Answer::Failed(_) = answer {
            return true;
        }
        match self.phase {
            Phase::RegisterLookup
            | Phase::CreateUser
            | Phase::CreateGroup
            | Phase::ByIdGuest
            | Phase::JoinUser
            | Phase::PostUser
            | Phase::InviteInviter
            | Phase::InviteGuest
            | Phase::AcceptUser
            | Phase::RejectGroup
            | Phase::RejectUser
            | Phase::ListUser => matches!(answer, Answer::Id(_)),
            Phase::ByIdInviter | Phase::InviteGroup | Phase::AcceptGroup => {
                matches!(answer, Answer::Row(_, _))
            },
            Phase::ByIdGroup => matches!(answer, Answer::Name(_)),
            Phase::ListFind => matches!(answer, Answer::Groups(_)),
            Phase::JoinDelete | Phase::AcceptDelete | Phase::RejectDelete => {
                matches!(answer, Answer::Count(_))
            },
            _ => matches!(answer, Answer::Done),
        }
    }
}

fn give_up(fault: Fault) -> (step: Step)
    ensures
        step@ == rules::give_up(fault@),
{
    Step::Finished(Err(fault.text()))
}

/// Begins the exchange on a client's `message`.
///
/// A client that is not registered may only register.
pub fn handle_client_message(message: ClientMessage, current_user: &Option<String>) -> (step: Step)
    ensures
        step@ == rules::begun(message@, option_text(*current_user)),
{
    match message {
        ClientMessage::Register { username } => {
            let exchange = Exchange::open(username.clone());
            if current_user.is_some() {
                exchange.tell(
                    ServerMessage::RegisterResponse {
                        success: false,
                        reason: Some("Sei già registrato.".to_owned()),
                    },
                )
            } else {
                exchange.ask(Request::FindUserId { username }, Phase::RegisterLookup)
            }
        },
        other => match current_user {
            None => Step::Finished(Err(REGISTRATION_REQUIRED.to_owned())),
            Some(user) => open_registered(other, user),
        },
    }
}

/// Begins the exchange on a `message` of the registered `user`.
fn open_registered(message: ClientMessage, user: &String) -> (step: Step)
    requires
        !(message is Register),
    ensures
        step@ == rules::begun(message@, Some(user@)),
{
    let exchange = Exchange::open(user.clone());
    let username = user.clone();
    match message {
        ClientMessage::CreateGroup { name } => {
            let exchange = Exchange { group: name, ..exchange };
            exchange.ask(Request::Begin, Phase::CreateBegin)
        },
        ClientMessage::InviteToGroup { username_to_invite, group_id } => {
            let exchange = Exchange { guest: username_to_invite, group_id, ..exchange };
            exchange.ask(Request::FindUser { username }, Phase::ByIdInviter)
        },
        ClientMessage::JoinGroup { group_id } => {
            let exchange = Exchange { group_id, ..exchange };
            exchange.ask(Request::FindUserId { username }, Phase::JoinUser)
        },
        ClientMessage::SendMessage { group_id, content } => {
            let exchange = Exchange { group_id, content, ..exchange };
            exchange.ask(Request::FindUserId { username }, Phase::PostUser)
        },
        ClientMessage::InviteUser { group, username: guest } => {
            let name = group.clone();
            let exchange = Exchange { group, guest, ..exchange };
            exchange.ask(Request::FindGroup { name }, Phase::InviteGroup)
        },
        ClientMessage::AcceptInvite { group } => {
            let name = group.clone();
            let exchange = Exchange { group, ..exchange };
            exchange.ask(Request::FindGroup { name }, Phase::AcceptGroup)
        },
        ClientMessage::RejectInvite { group } => {
            let name = group.clone();
            let exchange = Exchange { group, ..exchange };
            exchange.ask(Request::FindGroupId { name }, Phase::RejectGroup)
        },
        _ => exchange.ask(Request::FindUserId { username }, Phase::ListUser),
    }
}

impl Exchange {
    fn on_register(self, answer: Answer) -> (step: Step)
        ensures
            step@ == rules::register_next(self@, answer@),
    {
        let username = self.user.clone();
        match (self.phase, answer) {
            (Phase::RegisterLookup, Answer::Id(_)) => {
                self.ask(Request::Enroll { username }, Phase::RegisterEnrollKnown)
            },
            (Phase::RegisterLookup, Answer::Failed(Fault::StoreLock(text))) => {
                give_up(Fault::StoreLock(text))
            },
            (Phase::RegisterLookup, _) => {
                self.ask(Request::InsertUser { username }, Phase::RegisterInsert)
            },
            (Phase::RegisterInsert, Answer::Failed(fault)) => {
                let mut reason = "Errore DB: ".to_owned();
                reason.append(fault.text().as_str());
                self.tell(
                    ServerMessage::RegisterResponse { success: false, reason: Some(reason) },
                )
            },
            (Phase::RegisterInsert, _) => {
                self.ask(Request::Enroll { username }, Phase::RegisterEnrollNew)
            },
            (_, Answer::Failed(fault)) => give_up(fault),
            (Phase::RegisterEnrollKnown, _) => self.tell(
                ServerMessage::RegisterResponse {
                    success: true,
                    reason: Some("Bentornato!".to_owned()),
                },
            ),
            (_, _) => self.tell(
                ServerMessage::RegisterResponse { success: true, reason: None },
            ),
        }
    }

    fn on_create(self, answer: Answer) -> (step: Step)
        ensures
            step@ == rules::create_next(self@, answer@),
    {
        let username = self.user.clone();
        let name = self.group.clone();
        let user_id = self.user_id;
        let id = self.group_id;
        match (self.phase, answer) {
            (_, Answer::Failed(fault)) => give_up(fault),
            (Phase::CreateBegin, _) => {
                self.ask(Request::FindUserId { username }, Phase::CreateUser)
            },
            (Phase::CreateUser, Answer::Id(user_id)) => {
                let exchange = Exchange { user_id, ..self };
                exchange.ask(Request::InsertGroup { name }, Phase::CreateGroup)
            },
            (Phase::CreateGroup, Answer::Id(group_id)) => {
                let exchange = Exchange { group_id, ..self };
                exchange.ask(Request::InsertMember { user_id, group_id }, Phase::CreateMember)
            },
            (Phase::CreateMember, _) => self.ask(Request::Commit, Phase::CreateCommit),
            (_, _) => self.tell(ServerMessage::GroupCreated { id, name }),
        }
    }

    fn on_by_id(self, answer: Answer) -> (step: Step)
        ensures
            step@ == rules::by_id_next(self@, answer@),
    {
        let username = self.guest.clone();
        let user_id = self.user_id;
        let group_id = self.group_id;
        match (self.phase, answer) {
            (Phase::ByIdInviter, Answer::Row(user_id, inviter_name)) => {
                let exchange = Exchange { user_id, inviter_name, ..self };
                exchange.ask(Request::FindUserId { username }, Phase::ByIdGuest)
            },
            (Phase::ByIdGuest, Answer::Id(guest_id)) => {
                let exchange = Exchange { guest_id, ..self };
                exchange.ask(Request::FindMember { user_id, group_id }, Phase::ByIdMember)
            },
            (Phase::ByIdGuest, _) => {
                self.refuse(concat3("Utente '", username.as_str(), "' non trovato."))
            },
            (Phase::ByIdMember, Answer::Done) => {
                self.ask(Request::FindGroupName { group_id }, Phase::ByIdGroup)
            },
            (Phase::ByIdMember, _) => self.refuse(
                "Solo i membri del gruppo possono invitare altri utenti.".to_owned(),
            ),
            (Phase::ByIdGroup, Answer::Name(group_name)) => {
                let invited_user_id = self.guest_id;
                let exchange = Exchange { group_name, ..self };
                exchange.ask(
                    Request::InsertInvite { invited_user_id, group_id, inviter_user_id: user_id },
                    Phase::ByIdInsert,
                )
            },
            (Phase::ByIdInsert, Answer::Done) => {
                let message = ServerMessage::InviteReceived {
                    group_id,
                    group_name: self.group_name.clone(),
                    inviter_username: self.inviter_name.clone(),
                };
                self.ask(Request::Notify { username, message }, Phase::ByIdNotify)
            },
            (Phase::ByIdInsert, _) => self.refuse(
                "Invito già inviato o utente già nel gruppo.".to_owned(),
            ),
            (_, Answer::Failed(fault)) => give_up(fault),
            (_, _) => self.refuse("Invito inviato.".to_owned()),
        }
    }

    fn on_join(self, answer: Answer) -> (step: Step)
        ensures
            step@ == rules::join_next(self@, answer@),
    {
        let user_id = self.user_id;
        let group_id = self.group_id;
        match (self.phase, answer) {
            (Phase::JoinInvite, Answer::Failed(_)) => self.refuse(
                "Non puoi unirti a questo gruppo senza un invito valido.".to_owned(),
            ),
            (_, Answer::Failed(fault)) => give_up(fault),
            (Phase::JoinUser, Answer::Id(user_id)) => {
                let exchange = Exchange { user_id, ..self };
                exchange.ask(Request::FindInvite { user_id, group_id }, Phase::JoinInvite)
            },
            (Phase::JoinInvite, _) => self.ask(Request::Begin, Phase::JoinBegin),
            (Phase::JoinBegin, _) => {
                self.ask(Request::DeleteInvite { user_id, group_id }, Phase::JoinDelete)
            },
            (Phase::JoinDelete, _) => {
                self.ask(Request::InsertMember { user_id, group_id }, Phase::JoinInsert)
            },
            (Phase::JoinInsert, _) => self.ask(Request::Commit, Phase::JoinCommit),
            (_, _) => {
                let message = ServerMessage::UserJoinedGroup {
                    group_id,
                    username: self.user.clone(),
                };
                self.ask(Request::Broadcast { group_id, message, exclude: None }, Phase::Closing)
            },
        }
    }

    fn on_post(self, answer: Answer, now: i64) -> (step: Step)
        ensures
            step@ == rules::post_next(self@, answer@, now),
    {
        let group_id = self.group_id;
        match (self.phase, answer) {
            (Phase::PostMember, Answer::Failed(_)) => self.refuse(
                "Non sei membro di questo gruppo.".to_owned(),
            ),
            (_, Answer::Failed(fault)) => give_up(fault),
            (Phase::PostUser, Answer::Id(user_id)) => {
                let exchange = Exchange { user_id, ..self };
                exchange.ask(Request::FindMember { user_id, group_id }, Phase::PostMember)
            },
            (_, _) => {
                let message = ServerMessage::NewMessage {
                    group_id,
                    sender_username: self.user.clone(),
                    content: self.content.clone(),
                    timestamp: now,
                };
                self.ask(Request::Broadcast { group_id, message, exclude: None }, Phase::Closing)
            },
        }
    }

    fn on_invite(self, answer: Answer) -> (step: Step)
        ensures
            step@ == rules::invite_next(self@, answer@),
    {
        let user_id = self.user_id;
        let group_id = self.group_id;
        let guest = self.guest.clone();
        match (self.phase, answer) {
            (Phase::InviteGroup, Answer::Row(group_id, group_name)) => {
                let username = self.user.clone();
                let exchange = Exchange { group_id, group_name, ..self };
                exchange.ask(Request::FindUserId { username }, Phase::InviteInviter)
            },
            (Phase::InviteGroup, Answer::Failed(Fault::StoreLock(text))) => {
                give_up(Fault::StoreLock(text))
            },
            (Phase::InviteGroup, _) => {
                let text = concat3("Gruppo '", self.group.as_str(), "' non trovato.");
                self.refuse(text)
            },
            (Phase::InviteInviter, Answer::Id(user_id)) => {
                let exchange = Exchange { user_id, ..self };
                exchange.ask(Request::FindMember { user_id, group_id }, Phase::InviteMember)
            },
            (Phase::InviteInviter, _) => self.refuse("Utente non trovato.".to_owned()),
            (Phase::InviteMember, Answer::Done) => {
                self.ask(Request::FindUserId { username: guest }, Phase::InviteGuest)
            },
            (Phase::InviteMember, _) => self.refuse(
                "Solo i membri del gruppo possono invitare altri utenti.".to_owned(),
            ),
            (Phase::InviteGuest, Answer::Id(guest_id)) => {
                let exchange = Exchange { guest_id, ..self };
                exchange.ask(
                    Request::FindMember { user_id: guest_id, group_id },
                    Phase::InviteAlready,
                )
            },
            (Phase::InviteGuest, _) => {
                self.refuse(concat3("Utente '", guest.as_str(), "' non trovato."))
            },
            (Phase::InviteAlready, Answer::Done) => {
                self.refuse(concat3("'", guest.as_str(), "' è già membro del gruppo."))
            },
            (Phase::InviteAlready, _) => {
                let invited_user_id = self.guest_id;
                self.ask(
                    Request::InsertInviteIfAbsent {
                        invited_user_id,
                        group_id,
                        inviter_user_id: user_id,
                    },
                    Phase::InviteInsert,
                )
            },
            (Phase::InviteInsert, Answer::Done) => {
                let message = ServerMessage::InviteReceived {
                    group_id,
                    group_name: self.group_name.clone(),
                    inviter_username: self.user.clone(),
                };
                self.ask(Request::Notify { username: guest, message }, Phase::InviteNotify)
            },
            (Phase::InviteInsert, _) => self.refuse(
                "Invito già pendente o errore interno.".to_owned(),
            ),
            (_, Answer::Failed(fault)) => give_up(fault),
            (_, _) => {
                let group = self.group_name.clone();
                self.tell(ServerMessage::InviteSent { group, username: guest })
            },
        }
    }

    fn on_accept(self, answer: Answer) -> (step: Step)
        ensures
            step@ == rules::accept_next(self@, answer@),
    {
        let user_id = self.user_id;
        let group_id = self.group_id;
        let username = self.user.clone();
        match (self.phase, answer) {
            (Phase::AcceptGroup, Answer::Row(group_id, group_name)) => {
                let exchange = Exchange { group_id, group_name, ..self };
                exchange.ask(Request::FindUserId { username }, Phase::AcceptUser)
            },
            (Phase::AcceptGroup, Answer::Failed(Fault::StoreLock(text))) => {
                give_up(Fault::StoreLock(text))
            },
            (Phase::AcceptGroup, _) => {
                let text = concat3("Gruppo '", self.group.as_str(), "' non trovato.");
                self.refuse(text)
            },
            (Phase::AcceptInvite, Answer::Failed(_)) => self.refuse(
                "Nessun invito valido trovato per questo gruppo.".to_owned(),
            ),
            (_, Answer::Failed(fault)) => give_up(fault),
            (Phase::AcceptUser, Answer::Id(user_id)) => {
                let exchange = Exchange { user_id, ..self };
                exchange.ask(Request::FindInvite { user_id, group_id }, Phase::AcceptInvite)
            },
            (Phase::AcceptInvite, _) => self.ask(Request::Begin, Phase::AcceptBegin),
            (Phase::AcceptBegin, _) => {
                self.ask(Request::DeleteInvite { user_id, group_id }, Phase::AcceptDelete)
            },
            (Phase::AcceptDelete, _) => {
                self.ask(Request::InsertMember { user_id, group_id }, Phase::AcceptInsert)
            },
            (Phase::AcceptInsert, _) => self.ask(Request::Commit, Phase::AcceptCommit),
            (Phase::AcceptCommit, _) => {
                let message = ServerMessage::JoinedGroup {
                    group_id,
                    group_name: self.group_name.clone(),
                };
                self.ask(Request::Tell { message }, Phase::AcceptTell)
            },
            (_, _) => {
                let exclude = Some(username.clone());
                let message = ServerMessage::UserJoinedGroup { group_id, username };
                self.ask(Request::Broadcast { group_id, message, exclude }, Phase::Closing)
            },
        }
    }

    fn on_reject(self, answer: Answer) -> (step: Step)
        ensures
            step@ == rules::reject_next(self@, answer@),
    {
        let group_id = self.group_id;
        match (self.phase, answer) {
            (Phase::RejectGroup, Answer::Id(group_id)) => {
                let username = self.user.clone();
                let exchange = Exchange { group_id, ..self };
                exchange.ask(Request::FindUserId { username }, Phase::RejectUser)
            },
            (Phase::RejectGroup, Answer::Failed(Fault::StoreLock(text))) => {
                give_up(Fault::StoreLock(text))
            },
            (Phase::RejectGroup, _) => {
                let text = concat3("Gruppo '", self.group.as_str(), "' non trovato.");
                self.refuse(text)
            },
            (_, Answer::Failed(fault)) => give_up(fault),
            (Phase::RejectUser, Answer::Id(user_id)) => {
                let exchange = Exchange { user_id, ..self };
                exchange.ask(Request::DeleteInvite { user_id, group_id }, Phase::RejectDelete)
            },
            (_, Answer::Count(0)) => self.refuse(
                "Nessun invito da rifiutare per questo gruppo.".to_owned(),
            ),
            (_, _) => {
                let group = self.group.clone();
                self.tell(ServerMessage::InviteRejected { group })
            },
        }
    }

    fn on_list(self, answer: Answer) -> (step: Step)
        ensures
            step@ == rules::list_next(self@, answer@),
    {
        match (self.phase, answer) {
            (_, Answer::Failed(fault)) => give_up(fault),
            (Phase::ListUser, Answer::Id(user_id)) => {
                let exchange = Exchange { user_id, ..self };
                exchange.ask(Request::FindGroups { user_id }, Phase::ListFind)
            },
            (_, Answer::Groups(groups)) => self.tell(ServerMessage::GroupList { groups }),
            (_, _) => Step::Finished(Ok(())),
        }
    }

    /// Goes on with the exchange, answered at the time `now`.
    ///
    /// A registration makes its user the `current_user` once the connection is enrolled.
    pub fn resume_at(
        self,
        answer: Answer,
        now: i64,
        current_user: &mut Option<String>,
    ) -> (step: Step)
        requires
            rules::fits(self@.phase, answer@),
        ensures
            step@ == rules::next(self@, answer@, now),
            option_text(*final(current_user)) == rules::registered_after(
                self@,
                answer@,
                option_text(*old(current_user)),
            ),
    {
        if let Answer::Done = answer {
            match self.phase {
                Phase::RegisterEnrollKnown | Phase::RegisterEnrollNew => {
                    *current_user = Some(self.user.clone());
                },
                _ => {},
            }
        }
        match self.phase {
            Phase::Closing => match answer {
                Answer::Failed(fault) => give_up(fault),
                _ => Step::Finished(Ok(())),
            },
            Phase::RegisterLookup
            | Phase::RegisterInsert
            | Phase::RegisterEnrollKnown
            | Phase::RegisterEnrollNew => self.on_register(answer),
            Phase::CreateBegin
            | Phase::CreateUser
            | Phase::CreateGroup
            | Phase::CreateMember
            | Phase::CreateCommit => self.on_create(answer),
            Phase::ByIdInviter
            | Phase::ByIdGuest
            | Phase::ByIdMember
            | Phase::ByIdGroup
            | Phase::ByIdInsert
            | Phase::ByIdNotify => self.on_by_id(answer),
            Phase::JoinUser
            | Phase::JoinInvite
            | Phase::JoinBegin
            | Phase::JoinDelete
            | Phase::JoinInsert
            | Phase::JoinCommit => self.on_join(answer),
            Phase::PostUser | Phase::PostMember => self.on_post(answer, now),
            Phase::InviteGroup
            | Phase::InviteInviter
            | Phase::InviteMember
            | Phase::InviteGuest
            | Phase::InviteAlready
            | Phase::InviteInsert
            | Phase::InviteNotify => self.on_invite(answer),
            Phase::AcceptGroup
            | Phase::AcceptUser
            | Phase::AcceptInvite
            | Phase::AcceptBegin
            | Phase::AcceptDelete
            | Phase::AcceptInsert
            | Phase::AcceptCommit
            | Phase::AcceptTell => self.on_accept(answer),
            Phase::RejectGroup | Phase::RejectUser | Phase::RejectDelete => self.on_reject(answer),
            Phase::ListUser | Phase::ListFind => self.on_list(answer),
        }
    }

    /// Goes on with the exchange, answered at the present moment. The clock is read only for a
    /// post, once its sender is known to be a member.
    pub fn resume(self, answer: Answer, current_user: &mut Option<String>) -> (step: Step)
        requires
            rules::fits(self@.phase, answer@),
        ensures
            exists|now: i64|
                0 <= now <= LATEST && step@ == #[trigger] rules::next(self@, answer@, now),
            option_text(*final(current_user)) == rules::registered_after(
                self@,
                answer@,
                option_text(*old(current_user)),
            ),
    {
        let now: i64 = match (self.phase, &answer) {
            (Phase::PostMember, Answer::Done) => unix_now(),
            _ => 0,
        };
        self.resume_at(answer, now, current_user)
    }
}

/// How a fault reads: what could not be locked, and the text that came with it.
pub proof fn law_faults(text: Seq<char>)
    ensures
        fault_text(FaultView::StoreLock(text)) == "Lock DB error: "@ + text,
        fault_text(FaultView::ActiveLock(text)) == "Lock error: "@ + text,
        fault_text(FaultView::Store(text)) == text,
        fault_text(FaultView::Channel(text)) == text,
        REGISTRATION_REQUIRED@ == "Registrazione richiesta"@,
{
}

/// The views of requests show all there is to them.
pub proof fn law_requests_are_viewed_whole(
    user_id: i64,
    group_id: i64,
    other_id: i64,
    text: String,
    message: ServerMessage,
)
    ensures
        (Request::FindUserId { username: text })@ == (RequestView::FindUserId { username: text@ }),
        (Request::FindUser { username: text })@ == (RequestView::FindUser { username: text@ }),
        (Request::InsertUser { username: text })@ == (RequestView::InsertUser { username: text@ }),
        (Request::FindGroupId { name: text })@ == (RequestView::FindGroupId { name: text@ }),
        (Request::FindGroup { name: text })@ == (RequestView::FindGroup { name: text@ }),
        (Request::FindGroupName { group_id })@ == (RequestView::FindGroupName { group_id }),
        (Request::FindGroups { user_id })@ == (RequestView::FindGroups { user_id }),
        (Request::InsertGroup { name: text })@ == (RequestView::InsertGroup { name: text@ }),
        (Request::FindMember { user_id, group_id })@ == (RequestView::FindMember {
            user_id,
            group_id,
        }),
        (Request::InsertMember { user_id, group_id })@ == (RequestView::InsertMember {
            user_id,
            group_id,
        }),
        (Request::FindInvite { user_id, group_id })@ == (RequestView::FindInvite {
            user_id,
            group_id,
        }),
        (Request::InsertInvite {
            invited_user_id: user_id,
            group_id,
            inviter_user_id: other_id,
        })@ == (RequestView::InsertInvite {
            invited_user_id: user_id,
            group_id,
            inviter_user_id: other_id,
        }),
        (Request::InsertInviteIfAbsent {
            invited_user_id: user_id,
            group_id,
            inviter_user_id: other_id,
        })@ == (RequestView::InsertInviteIfAbsent {
            invited_user_id: user_id,
            group_id,
            inviter_user_id: other_id,
        }),
        (Request::DeleteInvite { user_id, group_id })@ == (RequestView::DeleteInvite {
            user_id,
            group_id,
        }),
        Request::Begin@ is Begin && Request::Commit@ is Commit,
        (Request::Enroll { username: text })@ == (RequestView::Enroll { username: text@ }),
        (Request::Notify { username: text, message })@ == (RequestView::Notify {
            username: text@,
            message: message@,
        }),
        (Request::Broadcast { group_id, message, exclude: Some(text) })@ == (
        RequestView::Broadcast { group_id, message: message@, exclude: Some(text@) }),
        (Request::Broadcast { group_id, message, exclude: None })@ == (RequestView::Broadcast {
            group_id,
            message: message@,
            exclude: None,
        }),
        (Request::Tell { message })@ == (RequestView::Tell { message: message@ }),
{
}

/// The views of answers, faults and steps show all there is to them.
pub proof fn law_answers_are_viewed_whole(
    id: i64,
    count: usize,
    text: String,
    groups: Vec<GroupInfo>,
    request: Request,
    then: Exchange,
)
    ensures
        Answer::Done@ is Done,
        Answer::Id(id)@ == AnswerView::Id(id),
        Answer::Row(id, text)@ == AnswerView::Row(id, text@),
        Answer::Name(text)@ == AnswerView::Name(text@),
        Answer::Groups(groups)@ == AnswerView::Groups(group_views(groups@)),
        Answer::Count(count)@ == AnswerView::Count(count),
        Answer::Failed(Fault::StoreLock(text))@ == AnswerView::Failed(FaultView::StoreLock(text@)),
        Answer::Failed(Fault::ActiveLock(text))@ == AnswerView::Failed(
            FaultView::ActiveLock(text@),
        ),
        Answer::Failed(Fault::Store(text))@ == AnswerView::Failed(FaultView::Store(text@)),
        Answer::Failed(Fault::Channel(text))@ == AnswerView::Failed(FaultView::Channel(text@)),
        (Step::Ask { request, then })@ == (StepView::Ask { request: request@, then: then@ }),
        Step::Finished(Ok(()))@ == StepView::Finished(Ok(())),
        Step::Finished(Err(text))@ == StepView::Finished(Err(text@)),
{
}

} // verus!
