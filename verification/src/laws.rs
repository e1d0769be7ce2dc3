//! What holds of every exchange.
use crate::exchange::{
    AnswerView, ExchangeView, Phase, RequestView, StepView,
};
use crate::messages::ClientView;
use crate::rules::{begun, fits, next};
use crate::world::{is_run, turns, user_after, world_after, Run, Tables, World};
use vstd::prelude::*;

verus! {

/// How many requests an exchange makes at most, the one it waits on included.
pub open spec fn requests_left(step: StepView) -> nat {
    match step {
        StepView::Finished(_) => 0,
        StepView::Ask { then, .. } => match then.phase {
            Phase::Closing => 1,
            Phase::RegisterEnrollKnown | Phase::RegisterEnrollNew => 2,
            Phase::RegisterInsert => 3,
            Phase::RegisterLookup => 4,
            Phase::CreateCommit => 2,
            Phase::CreateMember => 3,
            Phase::CreateGroup => 4,
            Phase::CreateUser => 5,
            Phase::CreateBegin => 6,
            Phase::ByIdNotify => 2,
            Phase::ByIdInsert => 3,
            Phase::ByIdGroup => 4,
            Phase::ByIdMember => 5,
            Phase::ByIdGuest => 6,
            Phase::ByIdInviter => 7,
            Phase::JoinCommit => 2,
            Phase::JoinInsert => 3,
            Phase::JoinDelete => 4,
            Phase::JoinBegin => 5,
            Phase::JoinInvite => 6,
            Phase::JoinUser => 7,
            Phase::PostMember => 2,
            Phase::PostUser => 3,
            Phase::InviteNotify => 2,
            Phase::InviteInsert => 3,
            Phase::InviteAlready => 4,
            Phase::InviteGuest => 5,
            Phase::InviteMember => 6,
            Phase::InviteInviter => 7,
            Phase::InviteGroup => 8,
            Phase::AcceptTell => 2,
            Phase::AcceptCommit => 3,
            Phase::AcceptInsert => 4,
            Phase::AcceptDelete => 5,
            Phase::AcceptBegin => 6,
            Phase::AcceptInvite => 7,
            Phase::AcceptUser => 8,
            Phase::AcceptGroup => 9,
            Phase::RejectDelete => 2,
            Phase::RejectUser => 3,
            Phase::RejectGroup => 4,
            Phase::ListFind => 2,
            Phase::ListUser => 3,
        },
    }
}

proof fn lemma_requests_run_out(
    step: StepView,
    connection: u64,
    w: World,
    run: Run,
    faults: bool,
)
    requires
        is_run(step, connection, w, run, faults),
    ensures
        turns(run) <= requests_left(step),
    decreases run,
{
    if let Run::Turn { answer, now, world, rest } = run {
        if let StepView::Ask { request, then } = step {
            lemma_requests_run_out(next(then, answer, now), connection, world, *rest, faults);
        }
    }
}

/// Where an exchange stands once it has been given these answers, each at its time; an exchange
/// that is over takes no more of them.
pub open spec fn answered(step: StepView, answers: Seq<(AnswerView, i64)>) -> StepView
    decreases answers.len(),
{
    match step {
        StepView::Ask { then, .. } if answers.len() > 0 => answered(
            next(then, answers[0].0, answers[0].1),
            answers.skip(1),
        ),
        _ => step,
    }
}

proof fn lemma_answers_run_out(step: StepView, answers: Seq<(AnswerView, i64)>)
    requires
        requests_left(step) <= answers.len(),
    ensures
        answered(step, answers) is Finished,
    decreases answers.len(),
{
    if let StepView::Ask { request, then } = step {
        law_each_answer_counts(request, then, answers[0].0, answers[0].1);
        lemma_answers_run_out(next(then, answers[0].0, answers[0].1), answers.skip(1));
    }
}

/// Whatever an exchange is answered, it has fewer requests left to make than before.
pub proof fn law_each_answer_counts(
    request: RequestView,
    then: ExchangeView,
    answer: AnswerView,
    now: i64,
)
    ensures
        requests_left(next(then, answer, now)) < requests_left(StepView::Ask { request, then }),
{
}

/// Every exchange ends: whatever it is answered, it is over after nine answers.
pub proof fn law_exchange_ends(
    message: ClientView,
    current: Option<Seq<char>>,
    answers: Seq<(AnswerView, i64)>,
)
    requires
        answers.len() >= 9,
    ensures
        answered(begun(message, current), answers) is Finished,
{
    lemma_answers_run_out(begun(message, current), answers);
}

/// No run of an exchange takes more than nine requests.
pub proof fn law_runs_are_short(
    message: ClientView,
    current: Option<Seq<char>>,
    connection: u64,
    w: World,
    run: Run,
    faults: bool,
)
    requires
        is_run(begun(message, current), connection, w, run, faults),
    ensures
        turns(run) <= 9,
{
    lemma_requests_run_out(begun(message, current), connection, w, run, faults);
}

/// What one exchange on `message` may make of the tables.
pub open spec fn allowed(
    before: Tables,
    current: Option<Seq<char>>,
    message: ClientView,
    after: Tables,
) -> bool {
    after == before || match (message, current) {
        (ClientView::Register { username }, None) => exists|id: i64|
            {
                &&& !before.has_user(username)
                &&& !before.users.contains_key(id)
                &&& after == #[trigger] before.with_user(id, username)
            },
        (ClientView::CreateGroup { name }, Some(user)) => exists|user_id: i64, group_id: i64|
            {
                &&& before.is_user(user_id, user)
                &&& !before.groups.contains_key(group_id)
                &&& after == #[trigger] before.founded(user_id, group_id, name)
            },
        (ClientView::InviteUser { group, username }, Some(user)) => exists|
            inviter: i64,
            guest: i64,
            group_id: i64,
        |
            {
                &&& before.is_group(group_id, group)
                &&& invite_allowed(before, user, inviter, username, guest, group_id)
                &&& after == #[trigger] before.with_invite(guest, group_id, inviter)
            },
        (ClientView::InviteToGroup { username_to_invite, group_id }, Some(user)) => exists|
            inviter: i64,
            guest: i64,
        |
            {
                &&& invite_allowed(before, user, inviter, username_to_invite, guest, group_id)
                &&& after == #[trigger] before.with_invite(guest, group_id, inviter)
            },
        (ClientView::JoinGroup { group_id }, Some(user)) => exists|user_id: i64|
            {
                &&& before.is_user(user_id, user)
                &&& before.invites.contains_key((user_id, group_id))
                &&& !before.members.contains((user_id, group_id))
                &&& after == #[trigger] before.admitted(user_id, group_id)
            },
        (ClientView::AcceptInvite { group }, Some(user)) => exists|user_id: i64, group_id: i64|
            {
                &&& before.is_user(user_id, user)
                &&& before.is_group(group_id, group)
                &&& before.invites.contains_key((user_id, group_id))
                &&& !before.members.contains((user_id, group_id))
                &&& after == #[trigger] before.admitted(user_id, group_id)
            },
        (ClientView::RejectInvite { group }, Some(user)) => exists|user_id: i64, group_id: i64|
            {
                &&& before.is_user(user_id, user)
                &&& before.is_group(group_id, group)
                &&& before.invites.contains_key((user_id, group_id))
                &&& after == #[trigger] before.without_invite(user_id, group_id)
            },
        _ => false,
    }
}

/// When `user` may invite `username` to a group: as a member, and not twice.
pub open spec fn invite_allowed(
    tables: Tables,
    user: Seq<char>,
    inviter: i64,
    username: Seq<char>,
    guest: i64,
    group_id: i64,
) -> bool {
    &&& tables.is_user(inviter, user)
    &&& tables.is_user(guest, username)
    &&& tables.members.contains((inviter, group_id))
    &&& !tables.invites.contains_key((guest, group_id))
}

proof fn lemma_register_allowed(
    username: Seq<char>,
    current: Option<Seq<char>>,
    connection: u64,
    w: World,
    run: Run,
)
    requires
        w.at_rest(),
        is_run(begun(ClientView::Register { username }, current), connection, w, run, true),
    ensures
        allowed(
            w.tables,
            current,
            ClientView::Register { username },
            world_after(w, run).tables,
        ),
{
    reveal_with_fuel(is_run, 6);
    reveal_with_fuel(world_after, 6);
}

proof fn lemma_create_allowed(
    user: Seq<char>,
    name: Seq<char>,
    connection: u64,
    w: World,
    run: Run,
)
    requires
        w.at_rest(),
        is_run(begun(ClientView::CreateGroup { name }, Some(user)), connection, w, run, true),
    ensures
        allowed(
            w.tables,
            Some(user),
            ClientView::CreateGroup { name },
            world_after(w, run).tables,
        ),
{
    reveal_with_fuel(is_run, 8);
    reveal_with_fuel(world_after, 8);
    if let Run::Turn { rest, .. } = run {
        if let Run::Turn { answer: AnswerView::Id(user_id), rest, .. } = *rest {
            if let Run::Turn { answer: AnswerView::Id(group_id), .. } = *rest {
                let after = w.tables.founded(user_id, group_id, name);
            }
        }
    }
}

proof fn lemma_invite_allowed(
    user: Seq<char>,
    group: Seq<char>,
    username: Seq<char>,
    connection: u64,
    w: World,
    run: Run,
)
    requires
        w.at_rest(),
        is_run(
            begun(ClientView::InviteUser { group, username }, Some(user)),
            connection,
            w,
            run,
            true,
        ),
    ensures
        allowed(
            w.tables,
            Some(user),
            ClientView::InviteUser { group, username },
            world_after(w, run).tables,
        ),
{
    reveal_with_fuel(is_run, 10);
    reveal_with_fuel(world_after, 10);
}

proof fn lemma_by_id_allowed(
    user: Seq<char>,
    username_to_invite: Seq<char>,
    group_id: i64,
    connection: u64,
    w: World,
    run: Run,
)
    requires
        w.at_rest(),
        is_run(
            begun(ClientView::InviteToGroup { username_to_invite, group_id }, Some(user)),
            connection,
            w,
            run,
            true,
        ),
    ensures
        allowed(
            w.tables,
            Some(user),
            ClientView::InviteToGroup { username_to_invite, group_id },
            world_after(w, run).tables,
        ),
{
    reveal_with_fuel(is_run, 9);
    reveal_with_fuel(world_after, 9);
}

proof fn lemma_join_allowed(user: Seq<char>, group_id: i64, connection: u64, w: World, run: Run)
    requires
        w.at_rest(),
        is_run(begun(ClientView::JoinGroup { group_id }, Some(user)), connection, w, run, true),
    ensures
        allowed(
            w.tables,
            Some(user),
            ClientView::JoinGroup { group_id },
            world_after(w, run).tables,
        ),
{
    reveal_with_fuel(is_run, 9);
    reveal_with_fuel(world_after, 9);
    if let Run::Turn { answer: AnswerView::Id(user_id), .. } = run {
        let after = w.tables.admitted(user_id, group_id);
    }
}

proof fn lemma_post_allowed(
    user: Seq<char>,
    group_id: i64,
    content: Seq<char>,
    connection: u64,
    w: World,
    run: Run,
)
    requires
        w.at_rest(),
        is_run(
            begun(ClientView::SendMessage { group_id, content }, Some(user)),
            connection,
            w,
            run,
            true,
        ),
    ensures
        world_after(w, run).tables == w.tables,
{
    reveal_with_fuel(is_run, 5);
    reveal_with_fuel(world_after, 5);
}

proof fn lemma_list_allowed(user: Seq<char>, connection: u64, w: World, run: Run)
    requires
        w.at_rest(),
        is_run(begun(ClientView::ListGroups, Some(user)), connection, w, run, true),
    ensures
        world_after(w, run).tables == w.tables,
{
    reveal_with_fuel(is_run, 5);
    reveal_with_fuel(world_after, 5);
}

proof fn lemma_accept_allowed(
    user: Seq<char>,
    group: Seq<char>,
    connection: u64,
    w: World,
    run: Run,
)
    requires
        w.at_rest(),
        is_run(begun(ClientView::AcceptInvite { group }, Some(user)), connection, w, run, true),
    ensures
        allowed(
            w.tables,
            Some(user),
            ClientView::AcceptInvite { group },
            world_after(w, run).tables,
        ),
{
    reveal_with_fuel(is_run, 11);
    reveal_with_fuel(world_after, 11);
    if let Run::Turn { answer: AnswerView::Row(group_id, _), rest, .. } = run {
        if let Run::Turn { answer: AnswerView::Id(user_id), .. } = *rest {
            let after = w.tables.admitted(user_id, group_id);
        }
    }
}

proof fn lemma_reject_allowed(
    user: Seq<char>,
    group: Seq<char>,
    connection: u64,
    w: World,
    run: Run,
)
    requires
        w.at_rest(),
        is_run(begun(ClientView::RejectInvite { group }, Some(user)), connection, w, run, true),
    ensures
        allowed(
            w.tables,
            Some(user),
            ClientView::RejectInvite { group },
            world_after(w, run).tables,
        ),
{
    reveal_with_fuel(is_run, 6);
    reveal_with_fuel(world_after, 6);
    if let Run::Turn { answer: AnswerView::Id(group_id), rest, .. } = run {
        if let Run::Turn { answer: AnswerView::Id(user_id), .. } = *rest {
            if !w.tables.invites.contains_key((user_id, group_id)) {
                assert(w.tables.without_invite(user_id, group_id) =~= w.tables);
            }
        }
    }
}

/// Every exchange, whatever fails in it, leaves the tables as they were or makes the one change
/// that its message is for, and never a part of that change.
pub proof fn law_all_or_nothing(
    message: ClientView,
    current: Option<Seq<char>>,
    connection: u64,
    w: World,
    run: Run,
)
    requires
        w.at_rest(),
        is_run(begun(message, current), connection, w, run, true),
    ensures
        allowed(w.tables, current, message, world_after(w, run).tables),
{
    match (message, current) {
        (ClientView::Register { username }, _) => {
            lemma_register_allowed(username, current, connection, w, run);
        },
        (ClientView::CreateGroup { name }, Some(user)) => {
            lemma_create_allowed(user, name, connection, w, run);
        },
        (ClientView::InviteUser { group, username }, Some(user)) => {
            lemma_invite_allowed(user, group, username, connection, w, run);
        },
        (ClientView::InviteToGroup { username_to_invite, group_id }, Some(user)) => {
            lemma_by_id_allowed(user, username_to_invite, group_id, connection, w, run);
        },
        (ClientView::JoinGroup { group_id }, Some(user)) => {
            lemma_join_allowed(user, group_id, connection, w, run);
        },
        (ClientView::SendMessage { group_id, content }, Some(user)) => {
            lemma_post_allowed(user, group_id, content, connection, w, run);
        },
        (ClientView::AcceptInvite { group }, Some(user)) => {
            lemma_accept_allowed(user, group, connection, w, run);
        },
        (ClientView::RejectInvite { group }, Some(user)) => {
            lemma_reject_allowed(user, group, connection, w, run);
        },
        (ClientView::ListGroups, Some(user)) => {
            lemma_list_allowed(user, connection, w, run);
        },
        _ => {},
    }
}

/// No exchange leaves a transaction open, and the tables stay valid: user names stay unique, and
/// members and invites are of users and groups that exist.
pub proof fn law_tables_stay_valid(
    message: ClientView,
    current: Option<Seq<char>>,
    connection: u64,
    w: World,
    run: Run,
)
    requires
        w.at_rest(),
        is_run(begun(message, current), connection, w, run, true),
    ensures
        world_after(w, run).at_rest(),
{
    law_all_or_nothing(message, current, connection, w, run);
    lemma_settled(w, run);
    let before = w.tables;
    let after = world_after(w, run).tables;
    match (message, current) {
        (ClientView::Register { username }, None) => {
            if after != before {
                let id = choose|id: i64|
                    {
                        &&& !before.has_user(username)
                        &&& !before.users.contains_key(id)
                        &&& after == #[trigger] before.with_user(id, username)
                    };
                assert forall|a: i64, b: i64|
                    after.users.contains_key(a) && after.users.contains_key(b)
                        && #[trigger] after.users[a] == #[trigger] after.users[b] implies a
                    == b by {
                    if a == id && b != id {
                        assert(before.is_user(b, username));
                    }
                    if b == id && a != id {
                        assert(before.is_user(a, username));
                    }
                }
            }
        },
        _ => {},
    }
}

proof fn lemma_settled(w: World, run: Run)
    ensures
        world_after(w, run).saved is None,
    decreases run,
{
    if let Run::Turn { world, rest, .. } = run {
        lemma_settled(world, *rest);
    }
}

/// Groups are by invite only: an exchange makes a user a member of a group only if it is that
/// user's own, and the user either has just created the group or had an invite to it, which is
/// used up.
pub proof fn law_invite_only(
    message: ClientView,
    current: Option<Seq<char>>,
    connection: u64,
    w: World,
    run: Run,
    user_id: i64,
    group_id: i64,
)
    requires
        w.at_rest(),
        is_run(begun(message, current), connection, w, run, true),
        !w.tables.members.contains((user_id, group_id)),
        world_after(w, run).tables.members.contains((user_id, group_id)),
    ensures
        current matches Some(user) && w.tables.is_user(user_id, user),
        (message is CreateGroup && !w.tables.groups.contains_key(group_id)) || (
        w.tables.invites.contains_key((user_id, group_id)) && !world_after(
            w,
            run,
        ).tables.invites.contains_key((user_id, group_id))),
{
    law_all_or_nothing(message, current, connection, w, run);
}

/// Only members invite: an invite that an exchange adds was sent by its user, who is a member of
/// the group, to the user and the group that the message names.
pub proof fn law_only_members_invite(
    message: ClientView,
    current: Option<Seq<char>>,
    connection: u64,
    w: World,
    run: Run,
    guest: i64,
    group_id: i64,
)
    requires
        w.at_rest(),
        is_run(begun(message, current), connection, w, run, true),
        !w.tables.invites.contains_key((guest, group_id)),
        world_after(w, run).tables.invites.contains_key((guest, group_id)),
    ensures
        ({
            let inviter = world_after(w, run).tables.invites[(guest, group_id)];
            &&& current matches Some(user) && w.tables.is_user(inviter, user)
            &&& w.tables.members.contains((inviter, group_id))
        }),
        match message {
            ClientView::InviteUser { group, username } => w.tables.is_group(group_id, group)
                && w.tables.is_user(guest, username),
            ClientView::InviteToGroup { username_to_invite, group_id: named } => group_id == named
                && w.tables.is_user(guest, username_to_invite),
            _ => false,
        },
{
    law_all_or_nothing(message, current, connection, w, run);
}

/// Invites are personal: only the invited user's own acceptance or rejection takes an invite
/// away, and none is ever rewritten.
pub proof fn law_invites_are_personal(
    message: ClientView,
    current: Option<Seq<char>>,
    connection: u64,
    w: World,
    run: Run,
    guest: i64,
    group_id: i64,
)
    requires
        w.at_rest(),
        is_run(begun(message, current), connection, w, run, true),
        w.tables.invites.contains_key((guest, group_id)),
    ensures
        ({
            let after = world_after(w, run).tables;
            if after.invites.contains_key((guest, group_id)) {
                after.invites[(guest, group_id)] == w.tables.invites[(guest, group_id)]
            } else {
                &&& current matches Some(user) && w.tables.is_user(guest, user)
                &&& message is JoinGroup || message is AcceptInvite || message is RejectInvite
            }
        }),
{
    law_all_or_nothing(message, current, connection, w, run);
}

/// Users, groups and memberships are never lost or renamed.
pub proof fn law_nothing_is_lost(
    message: ClientView,
    current: Option<Seq<char>>,
    connection: u64,
    w: World,
    run: Run,
)
    requires
        w.at_rest(),
        is_run(begun(message, current), connection, w, run, true),
    ensures
        w.tables.users.submap_of(world_after(w, run).tables.users),
        w.tables.groups.submap_of(world_after(w, run).tables.groups),
        w.tables.members.subset_of(world_after(w, run).tables.members),
{
    law_all_or_nothing(message, current, connection, w, run);
}

/// A client that has not registered gets nothing done: any message but a registration ends at
/// once, and changes nothing.
pub proof fn law_registration_comes_first(
    message: ClientView,
    connection: u64,
    w: World,
    run: Run,
    faults: bool,
)
    requires
        w.at_rest(),
        !(message is Register),
        is_run(begun(message, None), connection, w, run, faults),
    ensures
        run is End,
        world_after(w, run) == w,
        begun(message, None) == StepView::Finished(Err("Registrazione richiesta"@)),
{
}

/// A registration is for good: no message of a registered client changes whom it is registered
/// as, and an unregistered one can only become whom it asks to be.
pub proof fn law_registration_stays(
    message: ClientView,
    current: Option<Seq<char>>,
    connection: u64,
    w: World,
    run: Run,
    faults: bool,
)
    requires
        is_run(begun(message, current), connection, w, run, faults),
    ensures
        ({
            let after = user_after(begun(message, current), run, current);
            after == current || (current is None && (message matches ClientView::Register {
                username,
            } && after == Some(username)))
        }),
{
    match message {
        ClientView::Register { username } => {
            reveal_with_fuel(is_run, 6);
            reveal_with_fuel(user_after, 6);
        },
        _ => {
            lemma_user_kept(begun(message, current), connection, w, run, faults, current);
        },
    }
}

/// Whether an exchange is not one of the two that register.
spec fn keeps_user(step: StepView) -> bool {
    match step {
        StepView::Finished(_) => true,
        StepView::Ask { then, .. } => match then.phase {
            Phase::RegisterLookup | Phase::RegisterInsert | Phase::RegisterEnrollKnown
            | Phase::RegisterEnrollNew => false,
            _ => true,
        },
    }
}

proof fn lemma_user_kept(
    step: StepView,
    connection: u64,
    w: World,
    run: Run,
    faults: bool,
    current: Option<Seq<char>>,
)
    requires
        is_run(step, connection, w, run, faults),
        keeps_user(step),
    ensures
        user_after(step, run, current) == current,
    decreases run,
{
    if let Run::Turn { answer, now, world, rest } = run {
        if let StepView::Ask { request, then } = step {
            lemma_user_kept(
                next(then, answer, now),
                connection,
                world,
                *rest,
                faults,
                current,
            );
        }
    }
}

/// Whoever a client is registered as has a row among the users, once the exchange has ended.
pub proof fn law_registered_user_exists(
    message: ClientView,
    current: Option<Seq<char>>,
    connection: u64,
    w: World,
    run: Run,
)
    requires
        w.at_rest(),
        is_run(begun(message, current), connection, w, run, true),
        current matches Some(user) ==> w.tables.has_user(user),
    ensures
        user_after(begun(message, current), run, current) matches Some(user) ==> world_after(
            w,
            run,
        ).tables.has_user(user),
{
    law_registration_stays(message, current, connection, w, run, true);
    law_nothing_is_lost(message, current, connection, w, run);
    let before = w.tables;
    let after = world_after(w, run).tables;
    match (message, current) {
        (ClientView::Register { username }, None) => {
            reveal_with_fuel(is_run, 6);
            reveal_with_fuel(user_after, 6);
            reveal_with_fuel(world_after, 6);
            if before.has_user(username) {
                assert(after.is_user(before.number_of(username), username));
            } else if user_after(begun(message, current), run, current) is Some {
                let id = choose|id: i64|
                    {
                        &&& !before.has_user(username)
                        &&& !before.users.contains_key(id)
                        &&& after == #[trigger] before.with_user(id, username)
                    };
                assert(after.is_user(id, username));
            }
        },
        (_, Some(user)) => {
            assert(after.is_user(before.number_of(user), user));
        },
        _ => {},
    }
}

/// Whether every answer of the run is of the kind that the exchange waits for.
pub open spec fn answers_fit(step: StepView, run: Run) -> bool
    decreases run,
{
    match (step, run) {
        (StepView::Ask { then, .. }, Run::Turn { answer, now, rest, .. }) => {
            &&& fits(then.phase, answer)
            &&& answers_fit(next(then, answer, now), *rest)
        },
        _ => true,
    }
}

/// The kind of answer that serves `request` is the kind that an exchange in `phase` waits for.
spec fn in_step(step: StepView) -> bool {
    match step {
        StepView::Finished(_) => true,
        StepView::Ask { request, then } => match request {
            RequestView::FindUserId { .. } | RequestView::FindGroupId { .. }
            | RequestView::InsertGroup { .. } => fits(then.phase, AnswerView::Id(0)),
            RequestView::FindUser { .. } | RequestView::FindGroup { .. } => fits(
                then.phase,
                AnswerView::Row(0, Seq::empty()),
            ),
            RequestView::FindGroupName { .. } => fits(then.phase, AnswerView::Name(Seq::empty())),
            RequestView::FindGroups { .. } => fits(then.phase, AnswerView::Groups(Seq::empty())),
            RequestView::DeleteInvite { .. } => fits(then.phase, AnswerView::Count(0)),
            _ => fits(then.phase, AnswerView::Done),
        },
    }
}

proof fn lemma_answers_fit(step: StepView, connection: u64, w: World, run: Run, faults: bool)
    requires
        is_run(step, connection, w, run, faults),
        in_step(step),
    ensures
        answers_fit(step, run),
    decreases run,
{
    if let Run::Turn { answer, now, world, rest } = run {
        if let StepView::Ask { request, then } = step {
            assert(fits(then.phase, answer));
            assert(in_step(next(then, answer, now)));
            lemma_answers_fit(next(then, answer, now), connection, world, *rest, faults);
        }
    }
}

/// What a request can be answered is always something the exchange can go on with.
pub proof fn law_answers_fit(
    message: ClientView,
    current: Option<Seq<char>>,
    connection: u64,
    w: World,
    run: Run,
    faults: bool,
)
    requires
        is_run(begun(message, current), connection, w, run, faults),
    ensures
        answers_fit(begun(message, current), run),
{
    lemma_answers_fit(begun(message, current), connection, w, run, faults);
}

} // verus!
