//! What comes of each message when nothing fails.
use crate::client::{command_text, commanded, law_commands, lists_name, received, AppView};
use crate::exchange::{AnswerView, StepView};
use crate::laws::law_tables_stay_valid;
use crate::messages::{ClientView, GroupView, ServerView};
use crate::rules::{begun, next};
use crate::state::deliveries;
use crate::text::{is_word, joined};
use crate::world::{is_run, outcome, user_after, world_after, Run, Tables, World};
use vstd::prelude::*;

verus! {

/// The client on `connection` is told an error, and nothing else happens.
pub open spec fn refused(w: World, connection: u64, text: Seq<char>) -> World {
    w.with_sent(connection, ServerView::Error { message: text })
}

/// A user is sent a message, if connected.
pub open spec fn notified(w: World, username: Seq<char>, message: ServerView) -> World {
    if w.active.contains_key(username) {
        w.with_sent(w.active[username], message)
    } else {
        w
    }
}

/// The connected members of a group are sent a message, in some order.
pub open spec fn announced(
    before: World,
    group_id: i64,
    message: ServerView,
    exclude: Option<Seq<char>>,
    after: World,
) -> bool {
    exists|names: Seq<Seq<char>>| #[trigger]
        before.tables.lists_members(group_id, names) && after == World {
            sent: before.sent + deliveries(before.active, names, message, exclude),
            ..before
        }
}

proof fn lemma_one_number(tables: Tables, id: i64, username: Seq<char>)
    requires
        tables.valid(),
        tables.is_user(id, username),
    ensures
        id == tables.number_of(username),
{
    assert(tables.is_user(tables.number_of(username), username));
}

/// Users are kept without a password: registering a name that is known logs its user in, and
/// changes no table; registering a new one writes it down. Either way the user is from then on
/// reached over this connection.
pub proof fn law_register(username: Seq<char>, connection: u64, w: World, run: Run)
    requires
        w.at_rest(),
        is_run(begun(ClientView::Register { username }, None), connection, w, run, false),
    ensures
        outcome(begun(ClientView::Register { username }, None), run) is Ok,
        user_after(begun(ClientView::Register { username }, None), run, None) == Some(username),
        ({
            let enrolled = World { active: w.active.insert(username, connection), ..w };
            if w.tables.has_user(username) {
                world_after(w, run) == enrolled.with_sent(
                    connection,
                    ServerView::RegisterResponse { success: true, reason: Some("Bentornato!"@) },
                )
            } else {
                exists|id: i64|
                    !w.tables.users.contains_key(id) && world_after(w, run)
                        == enrolled.with_tables(
                        #[trigger] w.tables.with_user(id, username),
                    ).with_sent(
                        connection,
                        ServerView::RegisterResponse { success: true, reason: None },
                    )
            }
        }),
{
    reveal_with_fuel(is_run, 6);
    reveal_with_fuel(outcome, 6);
    reveal_with_fuel(user_after, 6);
    reveal_with_fuel(world_after, 6);
}

/// A client registers once: a second registration is turned down.
pub proof fn law_register_once(
    username: Seq<char>,
    current: Seq<char>,
    connection: u64,
    w: World,
    run: Run,
)
    requires
        w.at_rest(),
        is_run(
            begun(ClientView::Register { username }, Some(current)),
            connection,
            w,
            run,
            false,
        ),
    ensures
        outcome(begun(ClientView::Register { username }, Some(current)), run) is Ok,
        world_after(w, run) == w.with_sent(
            connection,
            ServerView::RegisterResponse { success: false, reason: Some("Sei già registrato."@) },
        ),
{
    reveal_with_fuel(is_run, 3);
    reveal_with_fuel(outcome, 3);
    reveal_with_fuel(world_after, 3);
}

/// A user who creates a group is its first member, and the only one.
pub proof fn law_create_group(
    user: Seq<char>,
    name: Seq<char>,
    connection: u64,
    w: World,
    run: Run,
)
    requires
        w.at_rest(),
        w.tables.has_user(user),
        is_run(begun(ClientView::CreateGroup { name }, Some(user)), connection, w, run, false),
    ensures
        outcome(begun(ClientView::CreateGroup { name }, Some(user)), run) is Ok,
        exists|group_id: i64|
            {
                &&& !w.tables.groups.contains_key(group_id)
                &&& world_after(w, run) == w.with_tables(
                    #[trigger] w.tables.founded(w.tables.number_of(user), group_id, name),
                ).with_sent(connection, ServerView::GroupCreated { id: group_id, name })
                &&& forall|id: i64| #[trigger]
                    world_after(w, run).tables.members.contains((id, group_id)) <==> id
                        == w.tables.number_of(user)
            },
{
    reveal_with_fuel(is_run, 8);
    reveal_with_fuel(outcome, 8);
    reveal_with_fuel(world_after, 8);
    if let Run::Turn { rest, .. } = run {
        if let Run::Turn { answer: AnswerView::Id(user_id), rest, .. } = *rest {
            lemma_one_number(w.tables, user_id, user);
            if let Run::Turn { answer: AnswerView::Id(group_id), .. } = *rest {
                let after = w.tables.founded(user_id, group_id, name);
                assert forall|id: i64| #[trigger]
                    after.members.contains((id, group_id)) implies id == user_id by {
                    assert(!w.tables.members.contains((id, group_id)));
                }
            }
        }
    }
}

/// What comes of inviting `guest` to the group `group_id`, whose name is `group`.
pub open spec fn invited(
    w: World,
    connection: u64,
    user: Seq<char>,
    group_id: i64,
    group: Seq<char>,
    guest: Seq<char>,
) -> World {
    let tables = w.tables;
    let inviter_id = tables.number_of(user);
    let guest_id = tables.number_of(guest);
    if !tables.members.contains((inviter_id, group_id)) {
        refused(w, connection, "Solo i membri del gruppo possono invitare altri utenti."@)
    } else if !tables.has_user(guest) {
        refused(w, connection, "Utente '"@ + guest + "' non trovato."@)
    } else if tables.members.contains((guest_id, group_id)) {
        refused(w, connection, "'"@ + guest + "' è già membro del gruppo."@)
    } else {
        let asked = if tables.invites.contains_key((guest_id, group_id)) {
            w
        } else {
            w.with_tables(tables.with_invite(guest_id, group_id, inviter_id))
        };
        notified(
            asked,
            guest,
            ServerView::InviteReceived { group_id, group_name: group, inviter_username: user },
        ).with_sent(connection, ServerView::InviteSent { group, username: guest })
    }
}

/// Inviting by a group's name: only members invite, only users are invited, and not those who
/// are members already. The invite stays pending for that user, who is told if connected.
pub proof fn law_invite_user(
    user: Seq<char>,
    group: Seq<char>,
    username: Seq<char>,
    connection: u64,
    w: World,
    run: Run,
)
    requires
        w.at_rest(),
        w.tables.has_user(user),
        is_run(
            begun(ClientView::InviteUser { group, username }, Some(user)),
            connection,
            w,
            run,
            false,
        ),
    ensures
        outcome(begun(ClientView::InviteUser { group, username }, Some(user)), run) is Ok,
        if w.tables.has_group(group) {
            exists|group_id: i64| #[trigger]
                w.tables.is_group(group_id, group) && world_after(w, run) == invited(
                    w,
                    connection,
                    user,
                    group_id,
                    group,
                    username,
                )
        } else {
            world_after(w, run) == refused(w, connection, "Gruppo '"@ + group + "' non trovato."@)
        },
{
    reveal_with_fuel(is_run, 10);
    reveal_with_fuel(outcome, 10);
    reveal_with_fuel(world_after, 10);
    if let Run::Turn { answer: AnswerView::Row(group_id, _), rest, .. } = run {
        assert(w.tables.is_group(group_id, group));
        if let Run::Turn { answer: AnswerView::Id(user_id), rest, .. } = *rest {
            lemma_one_number(w.tables, user_id, user);
            if let Run::Turn { rest, .. } = *rest {
                if let Run::Turn { answer: AnswerView::Id(guest_id), .. } = *rest {
                    if w.tables.members.contains((user_id, group_id)) {
                        lemma_one_number(w.tables, guest_id, username);
                    }
                }
            }
        }
    }
}

/// What comes of inviting `guest` to the group with the number `group_id`.
pub open spec fn invited_by_id(
    w: World,
    connection: u64,
    user: Seq<char>,
    group_id: i64,
    guest: Seq<char>,
) -> World {
    let tables = w.tables;
    let inviter_id = tables.number_of(user);
    let guest_id = tables.number_of(guest);
    if !tables.has_user(guest) {
        refused(w, connection, "Utente '"@ + guest + "' non trovato."@)
    } else if !tables.members.contains((inviter_id, group_id)) {
        refused(w, connection, "Solo i membri del gruppo possono invitare altri utenti."@)
    } else if tables.invites.contains_key((guest_id, group_id)) {
        refused(w, connection, "Invito già inviato o utente già nel gruppo."@)
    } else {
        refused(
            notified(
                w.with_tables(tables.with_invite(guest_id, group_id, inviter_id)),
                guest,
                ServerView::InviteReceived {
                    group_id,
                    group_name: tables.groups[group_id],
                    inviter_username: user,
                },
            ),
            connection,
            "Invito inviato."@,
        )
    }
}

/// Inviting by a group's number: only members invite, only users are invited, and not twice.
pub proof fn law_invite_by_id(
    user: Seq<char>,
    group_id: i64,
    username_to_invite: Seq<char>,
    connection: u64,
    w: World,
    run: Run,
)
    requires
        w.at_rest(),
        w.tables.has_user(user),
        is_run(
            begun(ClientView::InviteToGroup { username_to_invite, group_id }, Some(user)),
            connection,
            w,
            run,
            false,
        ),
    ensures
        outcome(
            begun(ClientView::InviteToGroup { username_to_invite, group_id }, Some(user)),
            run,
        ) is Ok,
        world_after(w, run) == invited_by_id(w, connection, user, group_id, username_to_invite),
{
    reveal_with_fuel(is_run, 9);
    reveal_with_fuel(outcome, 9);
    reveal_with_fuel(world_after, 9);
    if let Run::Turn { answer: AnswerView::Row(user_id, _), rest, .. } = run {
        lemma_one_number(w.tables, user_id, user);
        if let Run::Turn { answer: AnswerView::Id(guest_id), .. } = *rest {
            lemma_one_number(w.tables, guest_id, username_to_invite);
        }
    }
}

/// Joining by a group's number: without an invite it is turned down; with one, the invite is
/// removed, the user is a member, and the connected members are told, the new one among them.
/// A user who is a member already keeps the invite, and the exchange fails.
pub proof fn law_join_group(user: Seq<char>, group_id: i64, connection: u64, w: World, run: Run)
    requires
        w.at_rest(),
        w.tables.has_user(user),
        is_run(begun(ClientView::JoinGroup { group_id }, Some(user)), connection, w, run, false),
    ensures
        ({
            let start = begun(ClientView::JoinGroup { group_id }, Some(user));
            let user_id = w.tables.number_of(user);
            if !w.tables.invites.contains_key((user_id, group_id)) {
                &&& outcome(start, run) is Ok
                &&& world_after(w, run) == refused(
                    w,
                    connection,
                    "Non puoi unirti a questo gruppo senza un invito valido."@,
                )
            } else if w.tables.members.contains((user_id, group_id)) {
                &&& outcome(start, run) is Err
                &&& world_after(w, run) == w
            } else {
                &&& outcome(start, run) is Ok
                &&& announced(
                    w.with_tables(w.tables.admitted(user_id, group_id)),
                    group_id,
                    ServerView::UserJoinedGroup { group_id, username: user },
                    None,
                    world_after(w, run),
                )
            }
        }),
{
    reveal_with_fuel(is_run, 9);
    reveal_with_fuel(outcome, 9);
    reveal_with_fuel(world_after, 9);
    if let Run::Turn { answer: AnswerView::Id(user_id), .. } = run {
        lemma_one_number(w.tables, user_id, user);
    }
}

/// What comes of accepting an invite to the group `group_id`, whose name is `group`: without an
/// invite it is turned down; with one, the invite is removed, the user is a member and is told
/// so, and so are the other connected members. A user who is a member already keeps the invite,
/// and the exchange fails.
pub open spec fn accepted(
    w: World,
    connection: u64,
    user: Seq<char>,
    group_id: i64,
    group: Seq<char>,
    result: Result<(), Seq<char>>,
    after: World,
) -> bool {
    let user_id = w.tables.number_of(user);
    if !w.tables.invites.contains_key((user_id, group_id)) {
        &&& result is Ok
        &&& after == refused(
            w,
            connection,
            "Nessun invito valido trovato per questo gruppo."@,
        )
    } else if w.tables.members.contains((user_id, group_id)) {
        &&& result is Err
        &&& after == w
    } else {
        &&& result is Ok
        &&& announced(
            w.with_tables(w.tables.admitted(user_id, group_id)).with_sent(
                connection,
                ServerView::JoinedGroup { group_id, group_name: group },
            ),
            group_id,
            ServerView::UserJoinedGroup { group_id, username: user },
            Some(user),
            after,
        )
    }
}

/// Accepting an invite by the group's name takes it off the pending ones and makes the user a
/// member, at once.
pub proof fn law_accept_invite(
    user: Seq<char>,
    group: Seq<char>,
    connection: u64,
    w: World,
    run: Run,
)
    requires
        w.at_rest(),
        w.tables.has_user(user),
        is_run(begun(ClientView::AcceptInvite { group }, Some(user)), connection, w, run, false),
    ensures
        ({
            let result = outcome(begun(ClientView::AcceptInvite { group }, Some(user)), run);
            if w.tables.has_group(group) {
                exists|group_id: i64| #[trigger]
                    w.tables.is_group(group_id, group) && accepted(
                        w,
                        connection,
                        user,
                        group_id,
                        group,
                        result,
                        world_after(w, run),
                    )
            } else {
                &&& result is Ok
                &&& world_after(w, run) == refused(w, connection, "Gruppo '"@ + group + "' non trovato."@)
            }
        }),
{
    reveal_with_fuel(is_run, 11);
    reveal_with_fuel(outcome, 11);
    reveal_with_fuel(world_after, 11);
    if let Run::Turn { answer: AnswerView::Row(group_id, _), rest, .. } = run {
        assert(w.tables.is_group(group_id, group));
        if let Run::Turn { answer: AnswerView::Id(user_id), .. } = *rest {
            lemma_one_number(w.tables, user_id, user);
        }
    }
}

/// Turning an invite down takes it off the pending ones and nothing else; where there is none,
/// the client is told.
pub proof fn law_reject_invite(
    user: Seq<char>,
    group: Seq<char>,
    connection: u64,
    w: World,
    run: Run,
)
    requires
        w.at_rest(),
        w.tables.has_user(user),
        is_run(begun(ClientView::RejectInvite { group }, Some(user)), connection, w, run, false),
    ensures
        outcome(begun(ClientView::RejectInvite { group }, Some(user)), run) is Ok,
        if w.tables.has_group(group) {
            exists|group_id: i64| #[trigger]
                w.tables.is_group(group_id, group) && world_after(w, run) == rejected(
                    w,
                    connection,
                    w.tables.number_of(user),
                    group_id,
                    group,
                )
        } else {
            world_after(w, run) == refused(w, connection, "Gruppo '"@ + group + "' non trovato."@)
        },
{
    reveal_with_fuel(is_run, 6);
    reveal_with_fuel(outcome, 6);
    reveal_with_fuel(world_after, 6);
    if let Run::Turn { answer: AnswerView::Id(group_id), rest, .. } = run {
        assert(w.tables.is_group(group_id, group));
        if let Run::Turn { answer: AnswerView::Id(user_id), .. } = *rest {
            lemma_one_number(w.tables, user_id, user);
            if !w.tables.invites.contains_key((user_id, group_id)) {
                assert(w.tables.without_invite(user_id, group_id) =~= w.tables);
            }
        }
    }
}

/// What comes of turning down the invite of `user_id` to the group.
pub open spec fn rejected(
    w: World,
    connection: u64,
    user_id: i64,
    group_id: i64,
    group: Seq<char>,
) -> World {
    if w.tables.invites.contains_key((user_id, group_id)) {
        w.with_tables(w.tables.without_invite(user_id, group_id)).with_sent(
            connection,
            ServerView::InviteRejected { group },
        )
    } else {
        refused(w, connection, "Nessun invito da rifiutare per questo gruppo."@)
    }
}

/// Only members post to a group; what they post goes to all its connected members, the sender
/// among them, with the time of the post, and no table changes.
pub proof fn law_post(
    user: Seq<char>,
    group_id: i64,
    content: Seq<char>,
    connection: u64,
    w: World,
    run: Run,
)
    requires
        w.at_rest(),
        w.tables.has_user(user),
        is_run(
            begun(ClientView::SendMessage { group_id, content }, Some(user)),
            connection,
            w,
            run,
            false,
        ),
    ensures
        outcome(begun(ClientView::SendMessage { group_id, content }, Some(user)), run) is Ok,
        if w.tables.members.contains((w.tables.number_of(user), group_id)) {
            announced(
                w,
                group_id,
                ServerView::NewMessage {
                    group_id,
                    sender_username: user,
                    content,
                    timestamp: post_time(run),
                },
                None,
                world_after(w, run),
            )
        } else {
            world_after(w, run) == refused(w, connection, "Non sei membro di questo gruppo."@)
        },
{
    reveal_with_fuel(is_run, 5);
    reveal_with_fuel(outcome, 5);
    reveal_with_fuel(world_after, 5);
    if let Run::Turn { answer: AnswerView::Id(user_id), rest, .. } = run {
        lemma_one_number(w.tables, user_id, user);
    }
}

/// The time of a post: when its sender was found to be a member, which is the second answer.
pub open spec fn post_time(run: Run) -> i64 {
    match run {
        Run::Turn { rest, .. } => match *rest {
            Run::Turn { now, .. } => now,
            Run::End => 0,
        },
        Run::End => 0,
    }
}

/// What the members of a group get of a post.
pub open spec fn posted(
    group_id: i64,
    user: Seq<char>,
    content: Seq<char>,
    timestamp: i64,
) -> ServerView {
    ServerView::NewMessage { group_id, sender_username: user, content, timestamp }
}

/// A user who asks for the list of groups is told the groups that the user is a member of, each
/// once, and nothing else happens.
pub proof fn law_list_groups(user: Seq<char>, connection: u64, w: World, run: Run)
    requires
        w.at_rest(),
        w.tables.has_user(user),
        is_run(begun(ClientView::ListGroups, Some(user)), connection, w, run, false),
    ensures
        outcome(begun(ClientView::ListGroups, Some(user)), run) is Ok,
        exists|groups: Seq<GroupView>| #[trigger]
            w.tables.lists_groups(w.tables.number_of(user), groups) && world_after(w, run)
                == w.with_sent(connection, ServerView::GroupList { groups }),
{
    reveal_with_fuel(is_run, 5);
    reveal_with_fuel(outcome, 5);
    reveal_with_fuel(world_after, 5);
    if let Run::Turn { answer: AnswerView::Id(user_id), .. } = run {
        lemma_one_number(w.tables, user_id, user);
    }
}

/// Once a client has the list of its user's groups, `/invite` goes by name to each of them, even
/// to one whose name reads as a number.
pub proof fn law_own_groups_go_by_name(
    tables: Tables,
    user_id: i64,
    groups: Seq<GroupView>,
    group_id: i64,
    app: AppView,
    guest: Seq<char>,
    name: Seq<Seq<char>>,
)
    requires
        tables.lists_groups(user_id, groups),
        tables.members.contains((user_id, group_id)),
        tables.is_group(group_id, joined(name, seq![' '])),
        is_word(guest),
        name.len() > 0,
        forall|i: int| 0 <= i < name.len() ==> is_word(#[trigger] name[i]),
    ensures
        commanded(
            received(app, ServerView::GroupList { groups }),
            command_text("/invite"@, seq![guest] + name),
        ).1 == Some(
            ClientView::InviteUser { group: joined(name, seq![' ']), username: guest },
        ),
{
    let group = GroupView { id: group_id, name: joined(name, seq![' ']) };
    assert(groups.contains(group));
    let at = choose|at: int| 0 <= at < groups.len() && groups[at] == group;
    assert(groups[at].name == group.name);
    let listing = received(app, ServerView::GroupList { groups });
    assert(lists_name(listing.groups, group.name));
    law_commands(listing, guest, name, 0);
}

/// A message to a group is handed to each connected member who is not left out.
pub proof fn law_members_are_reached(
    active: Map<Seq<char>, u64>,
    names: Seq<Seq<char>>,
    message: ServerView,
    exclude: Option<Seq<char>>,
    name: Seq<char>,
)
    requires
        names.contains(name),
        exclude != Some(name),
        active.contains_key(name),
    ensures
        deliveries(active, names, message, exclude).contains((active[name], message)),
    decreases names.len(),
{
    let front = names.drop_last();
    let before = deliveries(active, front, message, exclude);
    let all = deliveries(active, names, message, exclude);
    if names.last() == name {
        assert(all.last() == (active[name], message));
    } else {
        let at = choose|at: int| 0 <= at < names.len() && names[at] == name;
        assert(front[at] == name);
        law_members_are_reached(active, front, message, exclude, name);
        let place = choose|place: int|
            0 <= place < before.len() && before[place] == (active[name], message);
        assert(all[place] == before[place]);
    }
}

/// A message to a group is handed to nobody else: each delivery is to a listed member who is
/// connected and not left out, and is the message itself.
pub proof fn law_nobody_else_is_reached(
    active: Map<Seq<char>, u64>,
    names: Seq<Seq<char>>,
    message: ServerView,
    exclude: Option<Seq<char>>,
    place: int,
)
    requires
        0 <= place < deliveries(active, names, message, exclude).len(),
    ensures
        exists|name: Seq<char>|
            #![trigger names.contains(name)]
            names.contains(name) && exclude != Some(name) && active.contains_key(name) && deliveries(
                active,
                names,
                message,
                exclude,
            )[place] == (active[name], message),
    decreases names.len(),
{
    let front = names.drop_last();
    let before = deliveries(active, front, message, exclude);
    if place < before.len() {
        law_nobody_else_is_reached(active, front, message, exclude, place);
        let name = choose|name: Seq<char>|
            #![trigger front.contains(name)]
            front.contains(name) && exclude != Some(name) && active.contains_key(name)
                && before[place] == (
                active[name],
                message,
            );
        let at = choose|at: int| 0 <= at < front.len() && front[at] == name;
        assert(names[at] == name);
        assert(names.contains(name));
    } else {
        assert(names[names.len() - 1] == names.last());
        assert(names.contains(names.last()));
    }
}

/// What a post hands to connections stays in the group: each delivery is the post itself, to a
/// connected member.
pub proof fn law_posts_stay_in_the_group(
    user: Seq<char>,
    group_id: i64,
    content: Seq<char>,
    connection: u64,
    w: World,
    run: Run,
    place: int,
)
    requires
        w.at_rest(),
        w.tables.has_user(user),
        w.tables.members.contains((w.tables.number_of(user), group_id)),
        is_run(
            begun(ClientView::SendMessage { group_id, content }, Some(user)),
            connection,
            w,
            run,
            false,
        ),
        w.sent.len() <= place < world_after(w, run).sent.len(),
    ensures
        exists|name: Seq<char>|
            {
                &&& #[trigger] w.tables.has_member(name, group_id)
                &&& w.active.contains_key(name)
                &&& world_after(w, run).sent[place] == (
                    w.active[name],
                    ServerView::NewMessage {
                        group_id,
                        sender_username: user,
                        content,
                        timestamp: post_time(run),
                    },
                )
            },
{
    law_post(user, group_id, content, connection, w, run);
    let after = world_after(w, run);
    let message = posted(group_id, user, content, post_time(run));
    let names = choose|names: Seq<Seq<char>>| #[trigger]
        w.tables.lists_members(group_id, names) && after == World {
            sent: w.sent + deliveries(w.active, names, message, None),
            ..w
        };
    let list = deliveries(w.active, names, message, None);
    law_nobody_else_is_reached(w.active, names, message, None, place - w.sent.len());
    let name = choose|name: Seq<char>|
        #![trigger names.contains(name)]
        names.contains(name) && w.active.contains_key(name) && list[place - w.sent.len()] == (
            w.active[name],
            message,
        );
    assert(w.tables.has_member(name, group_id));
    assert(after.sent[place] == (w.active[name], message));
}

/// A post reaches every connected member of its group.
pub proof fn law_posts_reach_the_members(
    user: Seq<char>,
    group_id: i64,
    content: Seq<char>,
    connection: u64,
    w: World,
    run: Run,
    name: Seq<char>,
)
    requires
        w.at_rest(),
        w.tables.has_user(user),
        w.tables.members.contains((w.tables.number_of(user), group_id)),
        is_run(
            begun(ClientView::SendMessage { group_id, content }, Some(user)),
            connection,
            w,
            run,
            false,
        ),
        w.tables.has_member(name, group_id),
        w.active.contains_key(name),
    ensures
        world_after(w, run).sent.contains(
            (
                w.active[name],
                ServerView::NewMessage {
                    group_id,
                    sender_username: user,
                    content,
                    timestamp: post_time(run),
                },
            ),
        ),
{
    law_post(user, group_id, content, connection, w, run);
    let after = world_after(w, run);
    let message = posted(group_id, user, content, post_time(run));
    let names = choose|names: Seq<Seq<char>>| #[trigger]
        w.tables.lists_members(group_id, names) && after == World {
            sent: w.sent + deliveries(w.active, names, message, None),
            ..w
        };
    let list = deliveries(w.active, names, message, None);
    assert(names.contains(name));
    law_members_are_reached(w.active, names, message, None, name);
    let place = choose|place: int| 0 <= place < list.len() && list[place] == (
        w.active[name],
        message,
    );
    assert(after.sent[w.sent.len() + place] == (w.active[name], message));
}

proof fn lemma_faultless_run(step: StepView, connection: u64, w: World, run: Run)
    requires
        is_run(step, connection, w, run, false),
    ensures
        is_run(step, connection, w, run, true),
    decreases run,
{
    if let Run::Turn { answer, now, world, rest } = run {
        if let StepView::Ask { request, then } = step {
            lemma_faultless_run(next(then, answer, now), connection, world, *rest);
        }
    }
}

/// Whoever a member has invited by number, and is no member yet, can join by number: the invite
/// is gone then, and the guest is a member.
pub proof fn law_invited_can_join(
    user: Seq<char>,
    guest: Seq<char>,
    group_id: i64,
    connections: (u64, u64),
    w: World,
    invite: Run,
    join: Run,
)
    requires
        w.at_rest(),
        w.tables.has_user(user),
        w.tables.has_user(guest),
        w.tables.members.contains((w.tables.number_of(user), group_id)),
        !w.tables.members.contains((w.tables.number_of(guest), group_id)),
        is_run(
            begun(
                ClientView::InviteToGroup { username_to_invite: guest, group_id },
                Some(user),
            ),
            connections.0,
            w,
            invite,
            false,
        ),
        is_run(
            begun(ClientView::JoinGroup { group_id }, Some(guest)),
            connections.1,
            world_after(w, invite),
            join,
            false,
        ),
    ensures
        ({
            let tables = world_after(world_after(w, invite), join).tables;
            let guest_id = w.tables.number_of(guest);
            &&& tables.members.contains((guest_id, group_id))
            &&& !tables.invites.contains_key((guest_id, group_id))
        }),
{
    let message = ClientView::InviteToGroup { username_to_invite: guest, group_id };
    law_invite_by_id(user, group_id, guest, connections.0, w, invite);
    lemma_faultless_run(begun(message, Some(user)), connections.0, w, invite);
    law_tables_stay_valid(message, Some(user), connections.0, w, invite);
    let asked = world_after(w, invite);
    let guest_id = w.tables.number_of(guest);
    assert(asked.tables.is_user(guest_id, guest));
    lemma_one_number(asked.tables, guest_id, guest);
    law_join_group(guest, group_id, connections.1, asked, join);
}

/// Whoever a member has invited by name, and is no member yet, can accept by name, as long as no
/// two groups have that name: the invite is gone then, and the guest is a member.
pub proof fn law_invited_can_accept(
    user: Seq<char>,
    guest: Seq<char>,
    group: Seq<char>,
    group_id: i64,
    connections: (u64, u64),
    w: World,
    invite: Run,
    accept: Run,
)
    requires
        w.at_rest(),
        w.tables.has_user(user),
        w.tables.has_user(guest),
        w.tables.is_group(group_id, group),
        forall|other: i64| #[trigger] w.tables.is_group(other, group) ==> other == group_id,
        w.tables.members.contains((w.tables.number_of(user), group_id)),
        !w.tables.members.contains((w.tables.number_of(guest), group_id)),
        is_run(
            begun(ClientView::InviteUser { group, username: guest }, Some(user)),
            connections.0,
            w,
            invite,
            false,
        ),
        is_run(
            begun(ClientView::AcceptInvite { group }, Some(guest)),
            connections.1,
            world_after(w, invite),
            accept,
            false,
        ),
    ensures
        ({
            let tables = world_after(world_after(w, invite), accept).tables;
            let guest_id = w.tables.number_of(guest);
            &&& tables.members.contains((guest_id, group_id))
            &&& !tables.invites.contains_key((guest_id, group_id))
        }),
{
    let message = ClientView::InviteUser { group, username: guest };
    law_invite_user(user, group, guest, connections.0, w, invite);
    lemma_faultless_run(begun(message, Some(user)), connections.0, w, invite);
    law_tables_stay_valid(message, Some(user), connections.0, w, invite);
    let asked = world_after(w, invite);
    let guest_id = w.tables.number_of(guest);
    assert(asked.tables.groups == w.tables.groups);
    assert(asked.tables.is_group(group_id, group));
    assert forall|other: i64| #[trigger] asked.tables.is_group(other, group) implies other
        == group_id by {
        assert(w.tables.is_group(other, group));
    }
    assert(asked.tables.is_user(guest_id, guest));
    lemma_one_number(asked.tables, guest_id, guest);
    law_accept_invite(guest, group, connections.1, asked, accept);
}

/// Once an invite has been turned down, it is no good for joining any more.
pub proof fn law_rejected_cannot_join(
    user: Seq<char>,
    group: Seq<char>,
    group_id: i64,
    connection: u64,
    w: World,
    reject: Run,
    join: Run,
)
    requires
        w.at_rest(),
        w.tables.has_user(user),
        w.tables.is_group(group_id, group),
        forall|other: i64| #[trigger] w.tables.is_group(other, group) ==> other == group_id,
        is_run(
            begun(ClientView::RejectInvite { group }, Some(user)),
            connection,
            w,
            reject,
            false,
        ),
        is_run(
            begun(ClientView::JoinGroup { group_id }, Some(user)),
            connection,
            world_after(w, reject),
            join,
            false,
        ),
    ensures
        world_after(world_after(w, reject), join) == refused(
            world_after(w, reject),
            connection,
            "Non puoi unirti a questo gruppo senza un invito valido."@,
        ),
{
    let message = ClientView::RejectInvite { group };
    law_reject_invite(user, group, connection, w, reject);
    lemma_faultless_run(begun(message, Some(user)), connection, w, reject);
    law_tables_stay_valid(message, Some(user), connection, w, reject);
    let refusing = world_after(w, reject);
    let user_id = w.tables.number_of(user);
    assert(refusing.tables.is_user(user_id, user));
    lemma_one_number(refusing.tables, user_id, user);
    law_join_group(user, group_id, connection, refusing, join);
}

} // verus!
