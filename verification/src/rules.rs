//! The rules of the server: what it does about each message, step by step.
use crate::exchange::{
    fault_text, AnswerView, ExchangeView, FaultView, Phase, RequestView, StepView,
    REGISTRATION_REQUIRED,
};
use crate::messages::{ClientView, ServerView};
use vstd::prelude::*;

verus! {

/// An exchange for `user` that knows nothing else yet.
pub open spec fn opened(user: Seq<char>) -> ExchangeView {
    ExchangeView {
        phase: Phase::Closing,
        user,
        user_id: 0,
        guest: Seq::empty(),
        guest_id: 0,
        group: Seq::empty(),
        group_id: 0,
        group_name: Seq::empty(),
        inviter_name: Seq::empty(),
        content: Seq::empty(),
    }
}

/// Asks for `request` and goes on at `phase`.
pub open spec fn ask(request: RequestView, e: ExchangeView, phase: Phase) -> StepView {
    StepView::Ask { request, then: ExchangeView { phase, ..e } }
}

/// Sends the client a last message.
pub open spec fn tell(message: ServerView, e: ExchangeView) -> StepView {
    ask(RequestView::Tell { message }, e, Phase::Closing)
}

/// Turns the client down with an error message.
pub open spec fn refuse(text: Seq<char>, e: ExchangeView) -> StepView {
    tell(ServerView::Error { message: text }, e)
}

/// Gives the exchange up because of a fault.
pub open spec fn give_up(fault: FaultView) -> StepView {
    StepView::Finished(Err(fault_text(fault)))
}

/// "Utente '..' non trovato."
pub open spec fn user_not_found(username: Seq<char>) -> Seq<char> {
    "Utente '"@ + username + "' non trovato."@
}

/// "Gruppo '..' non trovato."
pub open spec fn group_not_found(group: Seq<char>) -> Seq<char> {
    "Gruppo '"@ + group + "' non trovato."@
}

/// "'..' è già membro del gruppo."
pub open spec fn already_member(username: Seq<char>) -> Seq<char> {
    "'"@ + username + "' è già membro del gruppo."@
}

/// The news that the exchange's user has joined its group.
pub open spec fn joined_news(e: ExchangeView) -> ServerView {
    ServerView::UserJoinedGroup { group_id: e.group_id, username: e.user }
}

/// How the exchange on `message` begins, with a client registered as `current`.
pub open spec fn begun(message: ClientView, current: Option<Seq<char>>) -> StepView {
    match (message, current) {
        (ClientView::Register { username }, Some(_)) => tell(
            ServerView::RegisterResponse { success: false, reason: Some("Sei già registrato."@) },
            opened(username),
        ),
        (ClientView::Register { username }, None) => ask(
            RequestView::FindUserId { username },
            opened(username),
            Phase::RegisterLookup,
        ),
        (_, None) => StepView::Finished(Err(REGISTRATION_REQUIRED@)),
        (ClientView::CreateGroup { name }, Some(user)) => ask(
            RequestView::Begin,
            ExchangeView { group: name, ..opened(user) },
            Phase::CreateBegin,
        ),
        (ClientView::InviteToGroup { username_to_invite, group_id }, Some(user)) => ask(
            RequestView::FindUser { username: user },
            ExchangeView { guest: username_to_invite, group_id, ..opened(user) },
            Phase::ByIdInviter,
        ),
        (ClientView::JoinGroup { group_id }, Some(user)) => ask(
            RequestView::FindUserId { username: user },
            ExchangeView { group_id, ..opened(user) },
            Phase::JoinUser,
        ),
        (ClientView::SendMessage { group_id, content }, Some(user)) => ask(
            RequestView::FindUserId { username: user },
            ExchangeView { group_id, content, ..opened(user) },
            Phase::PostUser,
        ),
        (ClientView::InviteUser { group, username }, Some(user)) => ask(
            RequestView::FindGroup { name: group },
            ExchangeView { group, guest: username, ..opened(user) },
            Phase::InviteGroup,
        ),
        (ClientView::AcceptInvite { group }, Some(user)) => ask(
            RequestView::FindGroup { name: group },
            ExchangeView { group, ..opened(user) },
            Phase::AcceptGroup,
        ),
        (ClientView::RejectInvite { group }, Some(user)) => ask(
            RequestView::FindGroupId { name: group },
            ExchangeView { group, ..opened(user) },
            Phase::RejectGroup,
        ),
        (ClientView::ListGroups, Some(user)) => ask(
            RequestView::FindUserId { username: user },
            opened(user),
            Phase::ListUser,
        ),
    }
}

/// Whether `answer` is of the kind that an exchange in `phase` waits for.
pub open spec fn fits(phase: Phase, answer: AnswerView) -> bool {
    answer is Failed || match phase {
        Phase::RegisterLookup | Phase::CreateUser | Phase::CreateGroup | Phase::ByIdGuest
        | Phase::JoinUser | Phase::PostUser | Phase::InviteInviter | Phase::InviteGuest
        | Phase::AcceptUser | Phase::RejectGroup | Phase::RejectUser
        | Phase::ListUser => answer is Id,
        Phase::ByIdInviter | Phase::InviteGroup | Phase::AcceptGroup => answer is Row,
        Phase::ByIdGroup => answer is Name,
        Phase::ListFind => answer is Groups,
        Phase::JoinDelete | Phase::AcceptDelete | Phase::RejectDelete => answer is Count,
        _ => answer is Done,
    }
}

/// How a registration goes on: a known user is welcomed back, a new one is written down.
pub open spec fn register_next(e: ExchangeView, answer: AnswerView) -> StepView {
    match (e.phase, answer) {
        (Phase::RegisterLookup, AnswerView::Id(_)) => ask(
            RequestView::Enroll { username: e.user },
            e,
            Phase::RegisterEnrollKnown,
        ),
        (Phase::RegisterLookup, AnswerView::Failed(FaultView::StoreLock(text))) => give_up(
            FaultView::StoreLock(text),
        ),
        (Phase::RegisterLookup, _) => ask(
            RequestView::InsertUser { username: e.user },
            e,
            Phase::RegisterInsert,
        ),
        (Phase::RegisterInsert, AnswerView::Failed(fault)) => tell(
            ServerView::RegisterResponse {
                success: false,
                reason: Some("Errore DB: "@ + fault_text(fault)),
            },
            e,
        ),
        (Phase::RegisterInsert, _) => ask(
            RequestView::Enroll { username: e.user },
            e,
            Phase::RegisterEnrollNew,
        ),
        (_, AnswerView::Failed(fault)) => give_up(fault),
        (Phase::RegisterEnrollKnown, _) => tell(
            ServerView::RegisterResponse { success: true, reason: Some("Bentornato!"@) },
            e,
        ),
        (_, _) => tell(ServerView::RegisterResponse { success: true, reason: None }, e),
    }
}

/// How the creation of a group goes on, in one transaction.
pub open spec fn create_next(e: ExchangeView, answer: AnswerView) -> StepView {
    match (e.phase, answer) {
        (_, AnswerView::Failed(fault)) => give_up(fault),
        (Phase::CreateBegin, _) => ask(
            RequestView::FindUserId { username: e.user },
            e,
            Phase::CreateUser,
        ),
        (Phase::CreateUser, AnswerView::Id(user_id)) => ask(
            RequestView::InsertGroup { name: e.group },
            ExchangeView { user_id, ..e },
            Phase::CreateGroup,
        ),
        (Phase::CreateGroup, AnswerView::Id(group_id)) => ask(
            RequestView::InsertMember { user_id: e.user_id, group_id },
            ExchangeView { group_id, ..e },
            Phase::CreateMember,
        ),
        (Phase::CreateMember, _) => ask(RequestView::Commit, e, Phase::CreateCommit),
        (_, _) => tell(ServerView::GroupCreated { id: e.group_id, name: e.group }, e),
    }
}

/// How an invite to a group by its number goes on.
pub open spec fn by_id_next(e: ExchangeView, answer: AnswerView) -> StepView {
    match (e.phase, answer) {
        (Phase::ByIdInviter, AnswerView::Row(user_id, inviter_name)) => ask(
            RequestView::FindUserId { username: e.guest },
            ExchangeView { user_id, inviter_name, ..e },
            Phase::ByIdGuest,
        ),
        (Phase::ByIdGuest, AnswerView::Id(guest_id)) => ask(
            RequestView::FindMember { user_id: e.user_id, group_id: e.group_id },
            ExchangeView { guest_id, ..e },
            Phase::ByIdMember,
        ),
        (Phase::ByIdGuest, _) => refuse(user_not_found(e.guest), e),
        (Phase::ByIdMember, AnswerView::Done) => ask(
            RequestView::FindGroupName { group_id: e.group_id },
            e,
            Phase::ByIdGroup,
        ),
        (Phase::ByIdMember, _) => refuse(
            "Solo i membri del gruppo possono invitare altri utenti."@,
            e,
        ),
        (Phase::ByIdGroup, AnswerView::Name(group_name)) => ask(
            RequestView::InsertInvite {
                invited_user_id: e.guest_id,
                group_id: e.group_id,
                inviter_user_id: e.user_id,
            },
            ExchangeView { group_name, ..e },
            Phase::ByIdInsert,
        ),
        (Phase::ByIdInsert, AnswerView::Done) => ask(
            RequestView::Notify {
                username: e.guest,
                message: ServerView::InviteReceived {
                    group_id: e.group_id,
                    group_name: e.group_name,
                    inviter_username: e.inviter_name,
                },
            },
            e,
            Phase::ByIdNotify,
        ),
        (Phase::ByIdInsert, _) => refuse("Invito già inviato o utente già nel gruppo."@, e),
        (_, AnswerView::Failed(fault)) => give_up(fault),
        (_, _) => refuse("Invito inviato."@, e),
    }
}

/// How joining a group by its number goes on: the invite is traded for membership in one
/// transaction, and the members are told.
pub open spec fn join_next(e: ExchangeView, answer: AnswerView) -> StepView {
    match (e.phase, answer) {
        (Phase::JoinInvite, AnswerView::Failed(_)) => refuse(
            "Non puoi unirti a questo gruppo senza un invito valido."@,
            e,
        ),
        (_, AnswerView::Failed(fault)) => give_up(fault),
        (Phase::JoinUser, AnswerView::Id(user_id)) => ask(
            RequestView::FindInvite { user_id, group_id: e.group_id },
            ExchangeView { user_id, ..e },
            Phase::JoinInvite,
        ),
        (Phase::JoinInvite, _) => ask(RequestView::Begin, e, Phase::JoinBegin),
        (Phase::JoinBegin, _) => ask(
            RequestView::DeleteInvite { user_id: e.user_id, group_id: e.group_id },
            e,
            Phase::JoinDelete,
        ),
        (Phase::JoinDelete, _) => ask(
            RequestView::InsertMember { user_id: e.user_id, group_id: e.group_id },
            e,
            Phase::JoinInsert,
        ),
        (Phase::JoinInsert, _) => ask(RequestView::Commit, e, Phase::JoinCommit),
        (_, _) => ask(
            RequestView::Broadcast {
                group_id: e.group_id,
                message: joined_news(e),
                exclude: None,
            },
            e,
            Phase::Closing,
        ),
    }
}

/// How posting to a group goes on, at the time `now`.
pub open spec fn post_next(e: ExchangeView, answer: AnswerView, now: i64) -> StepView {
    match (e.phase, answer) {
        (Phase::PostMember, AnswerView::Failed(_)) => refuse(
            "Non sei membro di questo gruppo."@,
            e,
        ),
        (_, AnswerView::Failed(fault)) => give_up(fault),
        (Phase::PostUser, AnswerView::Id(user_id)) => ask(
            RequestView::FindMember { user_id, group_id: e.group_id },
            ExchangeView { user_id, ..e },
            Phase::PostMember,
        ),
        (_, _) => ask(
            RequestView::Broadcast {
                group_id: e.group_id,
                message: ServerView::NewMessage {
                    group_id: e.group_id,
                    sender_username: e.user,
                    content: e.content,
                    timestamp: now,
                },
                exclude: None,
            },
            e,
            Phase::Closing,
        ),
    }
}

/// How an invite to a group by its name goes on.
pub open spec fn invite_next(e: ExchangeView, answer: AnswerView) -> StepView {
    match (e.phase, answer) {
        (Phase::InviteGroup, AnswerView::Row(group_id, group_name)) => ask(
            RequestView::FindUserId { username: e.user },
            ExchangeView { group_id, group_name, ..e },
            Phase::InviteInviter,
        ),
        (Phase::InviteGroup, AnswerView::Failed(FaultView::StoreLock(text))) => give_up(
            FaultView::StoreLock(text),
        ),
        (Phase::InviteGroup, _) => refuse(group_not_found(e.group), e),
        (Phase::InviteInviter, AnswerView::Id(user_id)) => ask(
            RequestView::FindMember { user_id, group_id: e.group_id },
            ExchangeView { user_id, ..e },
            Phase::InviteMember,
        ),
        (Phase::InviteInviter, _) => refuse("Utente non trovato."@, e),
        (Phase::InviteMember, AnswerView::Done) => ask(
            RequestView::FindUserId { username: e.guest },
            e,
            Phase::InviteGuest,
        ),
        (Phase::InviteMember, _) => refuse(
            "Solo i membri del gruppo possono invitare altri utenti."@,
            e,
        ),
        (Phase::InviteGuest, AnswerView::Id(guest_id)) => ask(
            RequestView::FindMember { user_id: guest_id, group_id: e.group_id },
            ExchangeView { guest_id, ..e },
            Phase::InviteAlready,
        ),
        (Phase::InviteGuest, _) => refuse(user_not_found(e.guest), e),
        (Phase::InviteAlready, AnswerView::Done) => refuse(already_member(e.guest), e),
        (Phase::InviteAlready, _) => ask(
            RequestView::InsertInviteIfAbsent {
                invited_user_id: e.guest_id,
                group_id: e.group_id,
                inviter_user_id: e.user_id,
            },
            e,
            Phase::InviteInsert,
        ),
        (Phase::InviteInsert, AnswerView::Done) => ask(
            RequestView::Notify {
                username: e.guest,
                message: ServerView::InviteReceived {
                    group_id: e.group_id,
                    group_name: e.group_name,
                    inviter_username: e.user,
                },
            },
            e,
            Phase::InviteNotify,
        ),
        (Phase::InviteInsert, _) => refuse("Invito già pendente o errore interno."@, e),
        (_, AnswerView::Failed(fault)) => give_up(fault),
        (_, _) => tell(ServerView::InviteSent { group: e.group_name, username: e.guest }, e),
    }
}

/// How accepting an invite by the group's name goes on: the invite is traded for membership in
/// one transaction, then the user and the other members are told.
pub open spec fn accept_next(e: ExchangeView, answer: AnswerView) -> StepView {
    match (e.phase, answer) {
        (Phase::AcceptGroup, AnswerView::Row(group_id, group_name)) => ask(
            RequestView::FindUserId { username: e.user },
            ExchangeView { group_id, group_name, ..e },
            Phase::AcceptUser,
        ),
        (Phase::AcceptGroup, AnswerView::Failed(FaultView::StoreLock(text))) => give_up(
            FaultView::StoreLock(text),
        ),
        (Phase::AcceptGroup, _) => refuse(group_not_found(e.group), e),
        (Phase::AcceptInvite, AnswerView::Failed(_)) => refuse(
            "Nessun invito valido trovato per questo gruppo."@,
            e,
        ),
        (_, AnswerView::Failed(fault)) => give_up(fault),
        (Phase::AcceptUser, AnswerView::Id(user_id)) => ask(
            RequestView::FindInvite { user_id, group_id: e.group_id },
            ExchangeView { user_id, ..e },
            Phase::AcceptInvite,
        ),
        (Phase::AcceptInvite, _) => ask(RequestView::Begin, e, Phase::AcceptBegin),
        (Phase::AcceptBegin, _) => ask(
            RequestView::DeleteInvite { user_id: e.user_id, group_id: e.group_id },
            e,
            Phase::AcceptDelete,
        ),
        (Phase::AcceptDelete, _) => ask(
            RequestView::InsertMember { user_id: e.user_id, group_id: e.group_id },
            e,
            Phase::AcceptInsert,
        ),
        (Phase::AcceptInsert, _) => ask(RequestView::Commit, e, Phase::AcceptCommit),
        (Phase::AcceptCommit, _) => ask(
            RequestView::Tell {
                message: ServerView::JoinedGroup {
                    group_id: e.group_id,
                    group_name: e.group_name,
                },
            },
            e,
            Phase::AcceptTell,
        ),
        (_, _) => ask(
            RequestView::Broadcast {
                group_id: e.group_id,
                message: joined_news(e),
                exclude: Some(e.user),
            },
            e,
            Phase::Closing,
        ),
    }
}

/// How turning down an invite goes on.
pub open spec fn reject_next(e: ExchangeView, answer: AnswerView) -> StepView {
    match (e.phase, answer) {
        (Phase::RejectGroup, AnswerView::Id(group_id)) => ask(
            RequestView::FindUserId { username: e.user },
            ExchangeView { group_id, ..e },
            Phase::RejectUser,
        ),
        (Phase::RejectGroup, AnswerView::Failed(FaultView::StoreLock(text))) => give_up(
            FaultView::StoreLock(text),
        ),
        (Phase::RejectGroup, _) => refuse(group_not_found(e.group), e),
        (_, AnswerView::Failed(fault)) => give_up(fault),
        (Phase::RejectUser, AnswerView::Id(user_id)) => ask(
            RequestView::DeleteInvite { user_id, group_id: e.group_id },
            ExchangeView { user_id, ..e },
            Phase::RejectDelete,
        ),
        (_, AnswerView::Count(0)) => refuse("Nessun invito da rifiutare per questo gruppo."@, e),
        (_, _) => tell(ServerView::InviteRejected { group: e.group }, e),
    }
}

/// How listing the user's groups goes on.
pub open spec fn list_next(e: ExchangeView, answer: AnswerView) -> StepView {
    match (e.phase, answer) {
        (_, AnswerView::Failed(fault)) => give_up(fault),
        (Phase::ListUser, AnswerView::Id(user_id)) => ask(
            RequestView::FindGroups { user_id },
            ExchangeView { user_id, ..e },
            Phase::ListFind,
        ),
        (_, AnswerView::Groups(groups)) => tell(ServerView::GroupList { groups }, e),
        (_, _) => StepView::Finished(Ok(())),
    }
}

/// How an exchange goes on when it is answered at the time `now`.
pub open spec fn next(e: ExchangeView, answer: AnswerView, now: i64) -> StepView {
    match e.phase {
        Phase::Closing => match answer {
            AnswerView::Failed(fault) => give_up(fault),
            _ => StepView::Finished(Ok(())),
        },
        Phase::RegisterLookup | Phase::RegisterInsert | Phase::RegisterEnrollKnown
        | Phase::RegisterEnrollNew => register_next(e, answer),
        Phase::CreateBegin | Phase::CreateUser | Phase::CreateGroup | Phase::CreateMember
        | Phase::CreateCommit => create_next(e, answer),
        Phase::ByIdInviter | Phase::ByIdGuest | Phase::ByIdMember | Phase::ByIdGroup
        | Phase::ByIdInsert | Phase::ByIdNotify => by_id_next(e, answer),
        Phase::JoinUser | Phase::JoinInvite | Phase::JoinBegin | Phase::JoinDelete
        | Phase::JoinInsert | Phase::JoinCommit => join_next(e, answer),
        Phase::PostUser | Phase::PostMember => post_next(e, answer, now),
        Phase::InviteGroup | Phase::InviteInviter | Phase::InviteMember | Phase::InviteGuest
        | Phase::InviteAlready | Phase::InviteInsert | Phase::InviteNotify => invite_next(
            e,
            answer,
        ),
        Phase::AcceptGroup | Phase::AcceptUser | Phase::AcceptInvite | Phase::AcceptBegin
        | Phase::AcceptDelete | Phase::AcceptInsert | Phase::AcceptCommit
        | Phase::AcceptTell => accept_next(e, answer),
        Phase::RejectGroup | Phase::RejectUser | Phase::RejectDelete => reject_next(e, answer),
        Phase::ListUser | Phase::ListFind => list_next(e, answer),
    }
}

/// Whom the client is registered as once the exchange is answered: a registration takes effect
/// when the connection has been enrolled.
pub open spec fn registered_after(
    e: ExchangeView,
    answer: AnswerView,
    current: Option<Seq<char>>,
) -> Option<Seq<char>> {
    match (e.phase, answer) {
        (Phase::RegisterEnrollKnown, AnswerView::Done) => Some(e.user),
        (Phase::RegisterEnrollNew, AnswerView::Done) => Some(e.user),
        _ => current,
    }
}

} // verus!
