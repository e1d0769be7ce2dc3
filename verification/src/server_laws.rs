//! Who hears of what the server does, what becomes of requests that fail, and what a client makes
//! of what it is told.
use crate::client::{received, AppView};
use crate::client_laws::{
    law_new_groups_are_entered, law_posts_are_filed_under_their_group, law_success_registers,
};
use crate::exchange::{AnswerView, ExchangeView, FaultView, Phase, RequestView, StepView};
use crate::messages::{ClientView, GroupView, ServerView};
use crate::responses::{
    accepted, announced, law_accept_invite, law_create_group, law_join_group,
    law_members_are_reached, law_nobody_else_is_reached, law_posts_reach_the_members, law_register,
    post_time,
};
use crate::rules::{begun, fits, next, registered_after};
use crate::state::deliveries;
use crate::world::{is_run, outcome, world_after, Run, World};
use vstd::prelude::*;

verus! {

/// What is announced in a group reaches every member who is connected and not left out, over that
/// member's own connection.
pub proof fn law_announcements_reach_the_members(
    before: World,
    group_id: i64,
    message: ServerView,
    exclude: Option<Seq<char>>,
    after: World,
    name: Seq<char>,
)
    requires
        announced(before, group_id, message, exclude, after),
        before.tables.has_member(name, group_id),
        before.active.contains_key(name),
        exclude != Some(name),
    ensures
        after.sent.contains((before.active[name], message)),
        exists|place: int|
            before.sent.len() <= place < after.sent.len() && #[trigger] after.sent[place] == (
                before.active[name],
                message,
            ),
{
    let names = choose|names: Seq<Seq<char>>| #[trigger]
        before.tables.lists_members(group_id, names) && after == World {
            sent: before.sent + deliveries(before.active, names, message, exclude),
            ..before
        };
    let list = deliveries(before.active, names, message, exclude);
    assert(names.contains(name));
    law_members_are_reached(before.active, names, message, exclude, name);
    let at = choose|at: int| 0 <= at < list.len() && list[at] == (before.active[name], message);
    assert(after.sent[before.sent.len() + at] == (before.active[name], message));
}

/// What is announced in a group reaches nobody else, and is not altered on the way.
pub proof fn law_announcements_reach_nobody_else(
    before: World,
    group_id: i64,
    message: ServerView,
    exclude: Option<Seq<char>>,
    after: World,
    place: int,
) -> (name: Seq<char>)
    requires
        announced(before, group_id, message, exclude, after),
        before.sent.len() <= place < after.sent.len(),
    ensures
        before.tables.has_member(name, group_id),
        before.active.contains_key(name),
        exclude != Some(name),
        after.sent[place] == (before.active[name], message),
{
    let names = choose|names: Seq<Seq<char>>| #[trigger]
        before.tables.lists_members(group_id, names) && after == World {
            sent: before.sent + deliveries(before.active, names, message, exclude),
            ..before
        };
    let list = deliveries(before.active, names, message, exclude);
    let at = place - before.sent.len();
    law_nobody_else_is_reached(before.active, names, message, exclude, at);
    let name = choose|name: Seq<char>|
        #![trigger names.contains(name)]
        names.contains(name) && exclude != Some(name) && before.active.contains_key(name)
            && list[at] == (before.active[name], message);
    assert(after.sent[place] == list[at]);
    name
}

/// The group that accepting an invite has made its user a member of, and what came of it.
proof fn lemma_accepted(
    user: Seq<char>,
    group: Seq<char>,
    connection: u64,
    w: World,
    run: Run,
    group_id: i64,
) -> (told: World)
    requires
        w.at_rest(),
        w.tables.has_user(user),
        is_run(begun(ClientView::AcceptInvite { group }, Some(user)), connection, w, run, false),
        !w.tables.members.contains((w.tables.number_of(user), group_id)),
        world_after(w, run).tables.members.contains((w.tables.number_of(user), group_id)),
    ensures
        told.tables.users == w.tables.users,
        told.tables.members == w.tables.members.insert((w.tables.number_of(user), group_id)),
        told.active == w.active,
        told.sent == w.sent.push((connection, ServerView::JoinedGroup { group_id, group_name: group })),
        announced(
            told,
            group_id,
            ServerView::UserJoinedGroup { group_id, username: user },
            Some(user),
            world_after(w, run),
        ),
{
    law_accept_invite(user, group, connection, w, run);
    let result = outcome(begun(ClientView::AcceptInvite { group }, Some(user)), run);
    let id = choose|id: i64| #[trigger]
        w.tables.is_group(id, group) && accepted(
            w,
            connection,
            user,
            id,
            group,
            result,
            world_after(w, run),
        );
    let user_id = w.tables.number_of(user);
    assert(w.tables.has_group(group));
    assert(id == group_id);
    w.with_tables(w.tables.admitted(user_id, group_id)).with_sent(
        connection,
        ServerView::JoinedGroup { group_id, group_name: group },
    )
}

/// Whoever accepts an invite, and becomes a member by it, is told so; and every other member who
/// is connected is told who has joined, whenever they connected.
pub proof fn law_accepting_reaches_the_members(
    user: Seq<char>,
    group: Seq<char>,
    connection: u64,
    w: World,
    run: Run,
    group_id: i64,
    name: Seq<char>,
)
    requires
        w.at_rest(),
        w.tables.has_user(user),
        is_run(begun(ClientView::AcceptInvite { group }, Some(user)), connection, w, run, false),
        !w.tables.members.contains((w.tables.number_of(user), group_id)),
        world_after(w, run).tables.members.contains((w.tables.number_of(user), group_id)),
    ensures
        world_after(w, run).sent.contains(
            (connection, ServerView::JoinedGroup { group_id, group_name: group }),
        ),
        w.tables.has_member(name, group_id) && name != user && w.active.contains_key(name)
            ==> world_after(w, run).sent.contains(
            (w.active[name], ServerView::UserJoinedGroup { group_id, username: user }),
        ),
{
    let told = lemma_accepted(user, group, connection, w, run, group_id);
    let after = world_after(w, run);
    assert(told.sent[w.sent.len() as int] == (
        connection,
        ServerView::JoinedGroup { group_id, group_name: group },
    ));
    assert(after.sent[w.sent.len() as int] == told.sent[w.sent.len() as int]);
    if w.tables.has_member(name, group_id) && name != user && w.active.contains_key(name) {
        let id = choose|id: i64|
            w.tables.is_user(id, name) && w.tables.members.contains((id, group_id));
        assert(told.tables.is_user(id, name) && told.tables.members.contains((id, group_id)));
        law_announcements_reach_the_members(
            told,
            group_id,
            ServerView::UserJoinedGroup { group_id, username: user },
            Some(user),
            after,
            name,
        );
    }
}

/// Accepting an invite is told to nobody else: what is sent is the news to the user, and then the
/// news of the user to connected members other than the user.
pub proof fn law_accepting_reaches_nobody_else(
    user: Seq<char>,
    group: Seq<char>,
    connection: u64,
    w: World,
    run: Run,
    group_id: i64,
    place: int,
)
    requires
        w.at_rest(),
        w.tables.has_user(user),
        is_run(begun(ClientView::AcceptInvite { group }, Some(user)), connection, w, run, false),
        !w.tables.members.contains((w.tables.number_of(user), group_id)),
        world_after(w, run).tables.members.contains((w.tables.number_of(user), group_id)),
        w.sent.len() <= place < world_after(w, run).sent.len(),
    ensures
        place == w.sent.len() ==> world_after(w, run).sent[place] == (
            connection,
            ServerView::JoinedGroup { group_id, group_name: group },
        ),
        place > w.sent.len() ==> exists|name: Seq<char>|
            {
                &&& #[trigger] w.tables.has_member(name, group_id)
                &&& name != user
                &&& w.active.contains_key(name)
                &&& world_after(w, run).sent[place] == (
                    w.active[name],
                    ServerView::UserJoinedGroup { group_id, username: user },
                )
            },
{
    let told = lemma_accepted(user, group, connection, w, run, group_id);
    let after = world_after(w, run);
    if place == w.sent.len() {
        assert(after.sent[place] == told.sent[place]);
    } else {
        let name = law_announcements_reach_nobody_else(
            told,
            group_id,
            ServerView::UserJoinedGroup { group_id, username: user },
            Some(user),
            after,
            place,
        );
        let id = choose|id: i64|
            told.tables.is_user(id, name) && told.tables.members.contains((id, group_id));
        let user_id = w.tables.number_of(user);
        assert(w.tables.is_user(user_id, user));
        assert(id != user_id);
        assert(w.tables.is_user(id, name) && w.tables.members.contains((id, group_id)));
        assert(w.tables.has_member(name, group_id));
    }
}

/// Whoever joins by a group's number is told of to every connected member, the new one included.
pub proof fn law_joining_reaches_the_members(
    user: Seq<char>,
    group_id: i64,
    connection: u64,
    w: World,
    run: Run,
    name: Seq<char>,
)
    requires
        w.at_rest(),
        w.tables.has_user(user),
        is_run(begun(ClientView::JoinGroup { group_id }, Some(user)), connection, w, run, false),
        !w.tables.members.contains((w.tables.number_of(user), group_id)),
        world_after(w, run).tables.members.contains((w.tables.number_of(user), group_id)),
        w.tables.has_member(name, group_id) || name == user,
        w.active.contains_key(name),
    ensures
        world_after(w, run).sent.contains(
            (w.active[name], ServerView::UserJoinedGroup { group_id, username: user }),
        ),
{
    law_join_group(user, group_id, connection, w, run);
    let user_id = w.tables.number_of(user);
    let told = w.with_tables(w.tables.admitted(user_id, group_id));
    if name == user {
        assert(told.tables.is_user(user_id, user) && told.tables.members.contains(
            (user_id, group_id),
        ));
    } else {
        let id = choose|id: i64|
            w.tables.is_user(id, name) && w.tables.members.contains((id, group_id));
        assert(told.tables.is_user(id, name) && told.tables.members.contains((id, group_id)));
    }
    law_announcements_reach_the_members(
        told,
        group_id,
        ServerView::UserJoinedGroup { group_id, username: user },
        None,
        world_after(w, run),
        name,
    );
}

/// Registering, under a new name or a known one, gets its client into the chat: the one message
/// that is sent goes to the client's connection, and a client that takes it in is registered,
/// under the name it had.
pub proof fn law_registering_gets_into_the_chat(
    username: Seq<char>,
    connection: u64,
    w: World,
    run: Run,
    app: AppView,
) -> (message: ServerView)
    requires
        w.at_rest(),
        is_run(begun(ClientView::Register { username }, None), connection, w, run, false),
    ensures
        world_after(w, run).sent == w.sent.push((connection, message)),
        received(app, message).is_registered,
        received(app, message).username == app.username,
{
    law_register(username, connection, w, run);
    let reason = if w.tables.has_user(username) {
        Some("Bentornato!"@)
    } else {
        None
    };
    law_success_registers(app, reason);
    ServerView::RegisterResponse { success: true, reason }
}

/// What a member posts is put into the chat of every connected member, under the group it was
/// posted to and with who posted it.
pub proof fn law_posts_are_read(
    user: Seq<char>,
    group_id: i64,
    content: Seq<char>,
    connection: u64,
    w: World,
    run: Run,
    name: Seq<char>,
    app: AppView,
) -> (message: ServerView)
    requires
        w.at_rest(),
        w.tables.has_user(user),
        w.tables.members.contains((w.tables.number_of(user), group_id)),
        is_run(
            begun(ClientView::SendMessage { group_id, content }, Some(user)),
            connection,
            w,
            run,
            false,
        ),
        w.tables.has_member(name, group_id),
        w.active.contains_key(name),
    ensures
        world_after(w, run).sent.contains((w.active[name], message)),
        ({
            let line = received(app, message).messages.last();
            &&& received(app, message).messages.drop_last() == app.messages
            &&& line.sender == user
            &&& line.content == content
            &&& line.group_id == Some(group_id)
            &&& !line.is_system
        }),
{
    law_posts_reach_the_members(user, group_id, content, connection, w, run, name);
    let group = law_posts_are_filed_under_their_group(
        app,
        group_id,
        user,
        content,
        post_time(run),
    );
    let message = ServerView::NewMessage {
        group_id,
        sender_username: user,
        content,
        timestamp: post_time(run),
    };
    assert(received(app, message).messages.drop_last() =~= app.messages);
    message
}

/// Whoever creates a group is in it, at the server and in the client: the one message that is
/// sent makes the client list the new group and look at it.
pub proof fn law_created_groups_are_entered(
    user: Seq<char>,
    name: Seq<char>,
    connection: u64,
    w: World,
    run: Run,
    app: AppView,
) -> (group_id: i64)
    requires
        w.at_rest(),
        w.tables.has_user(user),
        is_run(begun(ClientView::CreateGroup { name }, Some(user)), connection, w, run, false),
    ensures
        ({
            let message = ServerView::GroupCreated { id: group_id, name };
            let group = GroupView { id: group_id, name };
            &&& !w.tables.groups.contains_key(group_id)
            &&& world_after(w, run).tables.groups == w.tables.groups.insert(group_id, name)
            &&& world_after(w, run).tables.members == w.tables.members.insert(
                (w.tables.number_of(user), group_id),
            )
            &&& world_after(w, run).tables.users == w.tables.users
            &&& world_after(w, run).tables.invites == w.tables.invites
            &&& world_after(w, run).sent == w.sent.push((connection, message))
            &&& received(app, message).active_group == Some(group)
            &&& received(app, message).groups == app.groups.push(group)
        }),
{
    law_create_group(user, name, connection, w, run);
    let group_id = choose|group_id: i64|
        {
            &&& !w.tables.groups.contains_key(group_id)
            &&& world_after(w, run) == w.with_tables(
                #[trigger] w.tables.founded(w.tables.number_of(user), group_id, name),
            ).with_sent(connection, ServerView::GroupCreated { id: group_id, name })
            &&& forall|id: i64| #[trigger]
                world_after(w, run).tables.members.contains((id, group_id)) <==> id
                    == w.tables.number_of(user)
        };
    law_new_groups_are_entered(app, group_id, name);
    group_id
}

/// How a fault reads.
pub open spec fn reading(fault: FaultView) -> Seq<char> {
    match fault {
        FaultView::StoreLock(text) => "Lock DB error: "@ + text,
        FaultView::ActiveLock(text) => "Lock error: "@ + text,
        FaultView::Store(text) => text,
        FaultView::Channel(text) => text,
    }
}

/// A request that fails is never taken for one that worked: the exchange does not end well on it,
/// and where it ends it says what has failed.
pub proof fn law_failures_are_not_passed_over(e: ExchangeView, fault: FaultView, now: i64)
    ensures
        next(e, AnswerView::Failed(fault), now) != StepView::Finished(Ok(())),
        next(e, AnswerView::Failed(fault), now) matches StepView::Finished(result) ==> result
            == Err::<(), Seq<char>>(reading(fault)),
        registered_after(e, AnswerView::Failed(fault), None) is None,
{
}

/// Whether an exchange in `phase` waits on something that may well not be there: a user, a group,
/// a membership, an invite, or room for a new row.
pub open spec fn may_be_missing(phase: Phase) -> bool {
    match phase {
        Phase::RegisterLookup | Phase::RegisterInsert => true,
        Phase::ByIdGuest | Phase::ByIdMember | Phase::ByIdInsert => true,
        Phase::JoinInvite | Phase::PostMember => true,
        Phase::InviteGroup | Phase::InviteInviter | Phase::InviteMember | Phase::InviteGuest
        | Phase::InviteAlready | Phase::InviteInsert => true,
        Phase::AcceptGroup | Phase::AcceptInvite | Phase::RejectGroup => true,
        _ => false,
    }
}

/// Where nothing is to be missing, any failure ends the exchange, with what has failed.
pub proof fn law_other_failures_end_the_exchange(e: ExchangeView, fault: FaultView, now: i64)
    requires
        !may_be_missing(e.phase),
    ensures
        next(e, AnswerView::Failed(fault), now) == StepView::Finished(Err(reading(fault))),
{
}

/// What an exchange asks for.
pub open spec fn asks(step: StepView, request: RequestView) -> bool {
    step matches StepView::Ask { request: asked, .. } && asked == request
}

/// The client is told `text` as an error.
pub open spec fn tells_error(step: StepView, text: Seq<char>) -> bool {
    asks(step, RequestView::Tell { message: ServerView::Error { message: text } })
}

/// Where something is missing, the client is told what, but for two cases: an unknown name is
/// written down as a new user, and a guest who is no member yet is invited.
pub proof fn law_what_is_missing_is_told(e: ExchangeView, text: Seq<char>, now: i64)
    requires
        may_be_missing(e.phase),
    ensures
        ({
            let step = next(e, AnswerView::Failed(FaultView::Store(text)), now);
            match e.phase {
                Phase::RegisterLookup => asks(step, RequestView::InsertUser { username: e.user }),
                Phase::RegisterInsert => asks(
                    step,
                    RequestView::Tell {
                        message: ServerView::RegisterResponse {
                            success: false,
                            reason: Some("Errore DB: "@ + text),
                        },
                    },
                ),
                Phase::ByIdGuest | Phase::InviteGuest => tells_error(
                    step,
                    "Utente '"@ + e.guest + "' non trovato."@,
                ),
                Phase::ByIdMember | Phase::InviteMember => tells_error(
                    step,
                    "Solo i membri del gruppo possono invitare altri utenti."@,
                ),
                Phase::ByIdInsert => tells_error(
                    step,
                    "Invito già inviato o utente già nel gruppo."@,
                ),
                Phase::JoinInvite => tells_error(
                    step,
                    "Non puoi unirti a questo gruppo senza un invito valido."@,
                ),
                Phase::PostMember => tells_error(step, "Non sei membro di questo gruppo."@),
                Phase::InviteGroup | Phase::AcceptGroup | Phase::RejectGroup => tells_error(
                    step,
                    "Gruppo '"@ + e.group + "' non trovato."@,
                ),
                Phase::InviteInviter => tells_error(step, "Utente non trovato."@),
                Phase::InviteAlready => asks(
                    step,
                    RequestView::InsertInviteIfAbsent {
                        invited_user_id: e.guest_id,
                        group_id: e.group_id,
                        inviter_user_id: e.user_id,
                    },
                ),
                Phase::InviteInsert => tells_error(step, "Invito già pendente o errore interno."@),
                Phase::AcceptInvite => tells_error(
                    step,
                    "Nessun invito valido trovato per questo gruppo."@,
                ),
                _ => false,
            }
        }),
{
}

/// A database that cannot be locked ends any exchange at once, with the reason.
pub proof fn law_a_lock_that_fails_ends_the_exchange(
    message: ClientView,
    current: Option<Seq<char>>,
    text: Seq<char>,
    now: i64,
)
    requires
        current is Some <==> !(message is Register),
    ensures
        begun(message, current) matches StepView::Ask { then, .. } && next(
            then,
            AnswerView::Failed(FaultView::StoreLock(text)),
            now,
        ) == StepView::Finished(Err("Lock DB error: "@ + text)),
{
}

/// The last word of an exchange: once it is said, the exchange has ended well; if it cannot be
/// said, the exchange has failed.
pub proof fn law_the_last_word(e: ExchangeView, text: Seq<char>, now: i64)
    requires
        e.phase is Closing,
    ensures
        next(e, AnswerView::Done, now) == StepView::Finished(Ok(())),
        next(e, AnswerView::Failed(FaultView::Channel(text)), now) == StepView::Finished(
            Err(text),
        ),
{
}

/// A post bears the time at which its sender was found to be a member.
pub proof fn law_posts_bear_their_time(e: ExchangeView, now: i64)
    requires
        e.phase is PostMember,
    ensures
        asks(
            next(e, AnswerView::Done, now),
            RequestView::Broadcast {
                group_id: e.group_id,
                message: ServerView::NewMessage {
                    group_id: e.group_id,
                    sender_username: e.user,
                    content: e.content,
                    timestamp: now,
                },
                exclude: None,
            },
        ),
{
}

/// Whether `answer` is an answer to `request`, or a failure.
pub open spec fn answers(request: RequestView, answer: AnswerView) -> bool {
    answer is Failed || match request {
        RequestView::FindUserId { .. } | RequestView::FindGroupId { .. }
        | RequestView::InsertGroup { .. } => answer is Id,
        RequestView::FindUser { .. } | RequestView::FindGroup { .. } => answer is Row,
        RequestView::FindGroupName { .. } => answer is Name,
        RequestView::FindGroups { .. } => answer is Groups,
        RequestView::DeleteInvite { .. } => answer is Count,
        _ => answer is Done,
    }
}

/// Whether an exchange takes the answers to what it has asked for, and no others.
pub open spec fn takes_its_answers(step: StepView) -> bool {
    step matches StepView::Ask { request, then } ==> forall|answer: AnswerView| #[trigger]
        fits(then.phase, answer) == answers(request, answer)
}

/// An exchange takes the answers to what it has asked for, and no others, from its beginning to
/// its end.
pub proof fn law_only_answers_are_taken(
    message: ClientView,
    current: Option<Seq<char>>,
    request: RequestView,
    then: ExchangeView,
    answer: AnswerView,
    now: i64,
)
    ensures
        takes_its_answers(begun(message, current)),
        takes_its_answers(StepView::Ask { request, then }) && answers(request, answer)
            ==> takes_its_answers(next(then, answer, now)),
{
    if takes_its_answers(StepView::Ask { request, then }) && answers(request, answer) {
        assert(fits(then.phase, answer));
    }
}

} // verus!
