//! What the client does about all that is typed into it and all that the server says.
use crate::client::{
    active_id, client_views, commanded, fresh, mentions, name_of, received, received_all, replied,
    replied_all, server_views, shown_lines, signed_up, submitted, AppView, ChatMessage, ChatView,
    RuggineApp, HELP,
};
use crate::messages::{ClientMessage, ClientView, GroupView, ServerMessage, ServerView};
use crate::text::{i64_of, int_text, is_blank, is_white, joined, law_trimming, words};
use vstd::prelude::*;

verus! {

/// A line of the client's own.
pub open spec fn notice(text: Seq<char>) -> ChatView {
    ChatView {
        sender: "Sistema"@,
        content: text,
        group_name: None,
        group_id: None,
        is_system: true,
    }
}

/// `after` is `before` with one line more in the chat, and nothing else.
pub open spec fn only_adds(before: AppView, after: AppView, line: ChatView) -> bool {
    &&& after.messages == before.messages.push(line)
    &&& after.username_input == before.username_input
    &&& after.username == before.username
    &&& after.is_registered == before.is_registered
    &&& after.input_buffer == before.input_buffer
    &&& after.groups == before.groups
    &&& after.active_group == before.active_group
    &&& after.connection_status == before.connection_status
}

/// `after` is `before` with one line more in the chat and one group more, which is the active
/// one, and nothing else.
pub open spec fn only_enters(
    before: AppView,
    after: AppView,
    text: Seq<char>,
    group: GroupView,
) -> bool {
    &&& after.messages == before.messages.push(notice(text))
    &&& after.groups == before.groups.push(group)
    &&& after.active_group == Some(group)
    &&& after.username_input == before.username_input
    &&& after.username == before.username
    &&& after.is_registered == before.is_registered
    &&& after.input_buffer == before.input_buffer
    &&& after.connection_status == before.connection_status
}

/// A client begins without a name, without groups, not registered, and with a welcome.
pub proof fn law_a_client_begins()
    ensures
        fresh().username_input.len() == 0,
        fresh().username.len() == 0,
        !fresh().is_registered,
        fresh().input_buffer.len() == 0,
        fresh().groups.len() == 0,
        fresh().active_group is None,
        fresh().connection_status == "Connessione in corso..."@,
        fresh().messages == seq![
            notice("Benvenuto in Ruggine! Inserisci il tuo username per connetterti."@),
        ],
{
}

/// A registration that succeeds, whatever the reason that comes with it, registers the client
/// under the name it has asked for: the client says so, asks for its groups, and changes nothing
/// else.
pub proof fn law_success_registers(app: AppView, reason: Option<Seq<char>>)
    ensures
        ({
            let message = ServerView::RegisterResponse { success: true, reason };
            let after = received(app, message);
            &&& after.is_registered
            &&& only_adds(
                AppView { is_registered: true, ..app },
                after,
                notice("✅ Connesso come '"@ + app.username + "'"@),
            )
            &&& replied(message) == Some(ClientView::ListGroups)
        }),
{
}

/// A registration that is turned down registers nobody: the client gives the name up, says why,
/// and sends nothing.
pub proof fn law_refusal_does_not_register(app: AppView, reason: Option<Seq<char>>)
    ensures
        ({
            let message = ServerView::RegisterResponse { success: false, reason };
            let after = received(app, message);
            let why = match reason {
                Some(text) => text,
                None => "Errore"@,
            };
            &&& after.username.len() == 0
            &&& only_adds(
                AppView { username: Seq::empty(), ..app },
                after,
                notice("❌ "@ + why),
            )
            &&& replied(message) is None
        }),
{
}

/// Once registered, always registered, whatever the server says and the user does. And nothing
/// registers a client but a registration that succeeds.
pub proof fn law_registration_lasts(app: AppView, message: ServerView, input: Seq<char>)
    requires
        words(input).len() > 0,
    ensures
        app.is_registered ==> received(app, message).is_registered,
        received(app, message).is_registered && !app.is_registered ==> (message matches
            ServerView::RegisterResponse { success, .. } && success),
        submitted(app).0.is_registered == app.is_registered,
        signed_up(app).0.is_registered == app.is_registered,
        commanded(app, input).0.is_registered == app.is_registered,
{
}

/// The client answers nothing but a registration that succeeds.
pub proof fn law_only_success_is_answered(message: ServerView)
    requires
        !(message matches ServerView::RegisterResponse { success, .. } && success),
    ensures
        replied(message) is None,
{
}

/// An error is put into the chat and is the state of the connection from then on.
pub proof fn law_errors_are_shown(app: AppView, text: Seq<char>)
    ensures
        ({
            let after = received(app, ServerView::Error { message: text });
            &&& after.connection_status == text
            &&& only_adds(AppView { connection_status: text, ..app }, after, notice(text))
        }),
{
}

/// The list of groups takes the place of the one before, whatever that was. A client without an
/// active group makes the first of them active; one with an active group keeps it. That there are
/// none is said.
pub proof fn law_the_list_is_taken_over(app: AppView, groups: Seq<GroupView>)
    ensures
        ({
            let after = received(app, ServerView::GroupList { groups });
            &&& after.groups == groups
            &&& app.active_group is Some ==> after.active_group == app.active_group
            &&& app.active_group is None && groups.len() > 0 ==> after.active_group == Some(
                groups[0],
            )
            &&& app.active_group is None && groups.len() == 0 ==> after.active_group is None
            &&& groups.len() > 0 ==> after.messages == app.messages
            &&& groups.len() == 0 ==> after.messages == app.messages.push(
                notice("Nessun gruppo ancora. Usa /create <nome> per crearne uno."@),
            )
            &&& after.username_input == app.username_input
            &&& after.username == app.username
            &&& after.is_registered == app.is_registered
            &&& after.input_buffer == app.input_buffer
            &&& after.connection_status == app.connection_status
        }),
{
}

/// A post is filed under its own group, whichever is active: it adds one line with its sender,
/// its content and its group's number, and changes nothing else. The line bears the name under
/// which the client lists the group, or else its number.
pub proof fn law_posts_are_filed_under_their_group(
    app: AppView,
    group_id: i64,
    sender: Seq<char>,
    content: Seq<char>,
    timestamp: i64,
) -> (name: Seq<char>)
    ensures
        only_adds(
            app,
            received(
                app,
                ServerView::NewMessage { group_id, sender_username: sender, content, timestamp },
            ),
            ChatView {
                sender,
                content,
                group_name: Some(name),
                group_id: Some(group_id),
                is_system: false,
            },
        ),
        forall|i: int|
            0 <= i < app.groups.len() && (#[trigger] app.groups[i]).id == group_id && (forall|
                j: int,
            |
                0 <= j < i ==> (#[trigger] app.groups[j]).id != group_id) ==> name
                == app.groups[i].name,
        (forall|i: int| 0 <= i < app.groups.len() ==> (#[trigger] app.groups[i]).id != group_id)
            ==> name == "Gruppo "@ + int_text(group_id as int),
{
    lemma_name_of(app.groups, group_id);
    match name_of(app.groups, group_id) {
        Some(name) => name,
        None => "Gruppo "@ + int_text(group_id as int),
    }
}

/// A post is shown while its group is the active one, and at no other time.
pub proof fn law_posts_are_shown_in_their_group(
    app: AppView,
    group_id: i64,
    sender: Seq<char>,
    content: Seq<char>,
    timestamp: i64,
    active: Option<GroupView>,
)
    ensures
        ({
            let after = received(
                app,
                ServerView::NewMessage { group_id, sender_username: sender, content, timestamp },
            );
            let looking = AppView { active_group: active, ..after };
            shown_lines(looking.messages, active_id(looking)).contains(app.messages.len() as int)
                == (active matches Some(group) && group.id == group_id)
        }),
{
    let after = received(
        app,
        ServerView::NewMessage { group_id, sender_username: sender, content, timestamp },
    );
    let name = law_posts_are_filed_under_their_group(app, group_id, sender, content, timestamp);
    let looking = AppView { active_group: active, ..after };
    law_lines_are_shown_by_group(after.messages, active_id(looking));
    assert(after.messages[app.messages.len() as int].group_id == Some(group_id));
}

/// Which lines are shown: the client's own, and those of the active group, in order.
pub proof fn law_lines_are_shown_by_group(lines: Seq<ChatView>, active: Option<i64>)
    ensures
        forall|i: int, j: int|
            0 <= i < j < shown_lines(lines, active).len() ==> #[trigger] shown_lines(
                lines,
                active,
            )[i] < #[trigger] shown_lines(lines, active)[j],
        forall|i: int| #[trigger]
            shown_lines(lines, active).contains(i) <==> 0 <= i < lines.len() && (
            lines[i].is_system || lines[i].group_id == active),
    decreases lines.len(),
{
    let list = shown_lines(lines, active);
    if lines.len() > 0 {
        let front = lines.drop_last();
        let before = shown_lines(front, active);
        law_lines_are_shown_by_group(front, active);
        let last = lines.len() - 1;
        assert forall|i: int| #[trigger] list.contains(i) <==> 0 <= i < lines.len() && (
        lines[i].is_system || lines[i].group_id == active) by {
            if list.contains(i) {
                let at = choose|at: int| 0 <= at < list.len() && list[at] == i;
                if at < before.len() {
                    assert(before[at] == i);
                    assert(before.contains(i));
                    assert(front[i] == lines[i]);
                }
            }
            if 0 <= i < lines.len() && (lines[i].is_system || lines[i].group_id == active) {
                if i < last {
                    assert(front[i] == lines[i]);
                    assert(before.contains(i));
                    let at = choose|at: int| 0 <= at < before.len() && before[at] == i;
                    assert(list[at] == i);
                } else {
                    assert(list[list.len() - 1] == i);
                }
            }
        }
        assert forall|i: int, j: int| 0 <= i < j < list.len() implies #[trigger] list[i]
            < #[trigger] list[j] by {
            if j < before.len() {
                assert(before[i] < before[j]);
            } else {
                assert(before.contains(before[i]));
            }
        }
    }
}

/// A client without an active group is shown its own lines and those of no group; one with an
/// active group is looking at that group's.
pub proof fn law_the_active_group_is_looked_at(app: AppView)
    ensures
        active_id(app) == (match app.active_group {
            Some(group) => Some(group.id),
            None => None,
        }),
{
}

proof fn lemma_name_of(groups: Seq<GroupView>, id: i64)
    ensures
        forall|i: int|
            0 <= i < groups.len() && (#[trigger] groups[i]).id == id && (forall|j: int|
                0 <= j < i ==> (#[trigger] groups[j]).id != id) ==> name_of(groups, id) == Some(
                groups[i].name,
            ),
        (forall|i: int| 0 <= i < groups.len() ==> (#[trigger] groups[i]).id != id) ==> name_of(
            groups,
            id,
        ) is None,
    decreases groups.len(),
{
    if groups.len() > 0 && groups[0].id != id {
        let rest = groups.skip(1);
        lemma_name_of(rest, id);
        assert forall|i: int|
            0 <= i < groups.len() && (#[trigger] groups[i]).id == id && (forall|j: int|
                0 <= j < i ==> (#[trigger] groups[j]).id != id) implies name_of(groups, id)
            == Some(groups[i].name) by {
            assert(rest[i - 1] == groups[i]);
            assert forall|j: int| 0 <= j < i - 1 implies (#[trigger] rest[j]).id != id by {
                assert(rest[j] == groups[j + 1]);
            }
        }
        if forall|i: int| 0 <= i < groups.len() ==> (#[trigger] groups[i]).id != id {
            assert forall|i: int| 0 <= i < rest.len() implies (#[trigger] rest[i]).id != id by {
                assert(rest[i] == groups[i + 1]);
            }
        }
    }
}

/// The name of a group, by its number, is that of the first group with the number, if there is
/// one.
pub proof fn law_groups_are_named(groups: Seq<GroupView>, id: i64, at: int)
    requires
        0 <= at < groups.len(),
        groups[at].id == id,
        forall|j: int| 0 <= j < at ==> (#[trigger] groups[j]).id != id,
    ensures
        name_of(groups, id) == Some(groups[at].name),
        name_of(groups.take(at), id) is None,
{
    lemma_name_of(groups, id);
    let front = groups.take(at);
    assert forall|j: int| 0 <= j < front.len() implies (#[trigger] front[j]).id != id by {
        assert(front[j] == groups[j]);
    }
    lemma_name_of(front, id);
}

/// A group that was created or joined is listed and becomes the active one, and this is said.
pub proof fn law_new_groups_are_entered(app: AppView, id: i64, name: Seq<char>)
    ensures
        only_enters(
            app,
            received(app, ServerView::GroupCreated { id, name }),
            "✅ Gruppo '"@ + name + "' creato (ID: "@ + int_text(id as int) + ")"@,
            GroupView { id, name },
        ),
        only_enters(
            app,
            received(app, ServerView::JoinedGroup { group_id: id, group_name: name }),
            "✅ Unito al gruppo '"@ + name + "'"@,
            GroupView { id, name },
        ),
{
}

/// An invite is told with who sent it, for which group, and what to type to accept it or to turn
/// it down; that one was sent or turned down is told too. Nothing else comes of it.
pub proof fn law_invites_are_told(
    app: AppView,
    group_id: i64,
    group: Seq<char>,
    username: Seq<char>,
)
    ensures
        only_adds(
            app,
            received(
                app,
                ServerView::InviteReceived {
                    group_id,
                    group_name: group,
                    inviter_username: username,
                },
            ),
            notice(
                "📩 Invito da '"@ + username + "' per il gruppo '"@ + group + "' → /accept "@
                    + group + " oppure /reject "@ + group,
            ),
        ),
        only_adds(
            app,
            received(app, ServerView::InviteSent { group, username }),
            notice("✅ Invito inviato a '"@ + username + "' per '"@ + group + "'"@),
        ),
        only_adds(
            app,
            received(app, ServerView::InviteRejected { group }),
            notice("❌ Invito rifiutato per '"@ + group + "'"@),
        ),
{
}

/// That somebody has joined a group is told under the name the client lists the group by, or else
/// under its number. Nothing else comes of it.
pub proof fn law_joining_is_told(app: AppView, group_id: i64, username: Seq<char>) -> (name: Seq<
    char,
>)
    ensures
        only_adds(
            app,
            received(app, ServerView::UserJoinedGroup { group_id, username }),
            notice("👤 '"@ + username + "' si è unito a '"@ + name + "'"@),
        ),
        forall|i: int|
            0 <= i < app.groups.len() && (#[trigger] app.groups[i]).id == group_id && (forall|
                j: int,
            |
                0 <= j < i ==> (#[trigger] app.groups[j]).id != group_id) ==> name
                == app.groups[i].name,
        (forall|i: int| 0 <= i < app.groups.len() ==> (#[trigger] app.groups[i]).id != group_id)
            ==> name == int_text(group_id as int),
{
    lemma_name_of(app.groups, group_id);
    match name_of(app.groups, group_id) {
        Some(name) => name,
        None => int_text(group_id as int),
    }
}

/// Messages of the server are taken in one after the other, none is left out, and each is
/// answered in its turn: two lists in a row are one list.
pub proof fn law_messages_are_taken_in_order(
    app: AppView,
    a: Seq<ServerView>,
    b: Seq<ServerView>,
    message: ServerView,
)
    ensures
        received_all(app, a + b) == received_all(received_all(app, a), b),
        replied_all(a + b) == replied_all(a) + replied_all(b),
        received_all(app, seq![message]) == received(app, message),
        replied_all(seq![message]) == match replied(message) {
            Some(reply) => seq![reply],
            None => Seq::empty(),
        },
        received_all(app, Seq::empty()) == app,
    decreases b.len(),
{
    let one = seq![message];
    assert(one.drop_last() =~= Seq::empty());
    assert(one.last() == message);
    assert(received_all(app, one.drop_last()) == app);
    assert(replied_all(one.drop_last()) =~= Seq::empty());
    assert(replied_all(one) =~= match replied(message) {
        Some(reply) => seq![reply],
        None => Seq::empty(),
    });
    if b.len() == 0 {
        assert(a + b =~= a);
        assert(replied_all(a) + replied_all(b) =~= replied_all(a));
    } else {
        assert((a + b).drop_last() =~= a + b.drop_last());
        assert((a + b).last() == b.last());
        law_messages_are_taken_in_order(app, a, b.drop_last(), message);
        assert(replied_all(a + b) =~= replied_all(a) + replied_all(b));
    }
}

/// What is typed, with or without white space around it, goes to the active group, whatever other
/// groups there are, unless it is a command: it is posted there, put into the chat as the user's
/// own, and the input is empty again. Nothing else changes.
pub proof fn law_input_is_posted_to_the_active_group(
    app: AppView,
    before: Seq<char>,
    content: Seq<char>,
    behind: Seq<char>,
    group: GroupView,
)
    requires
        app.input_buffer == before + content + behind,
        is_blank(before),
        is_blank(behind),
        content.len() > 0,
        !is_white(content[0]) && !is_white(content.last()),
        content[0] != '/',
        app.active_group == Some(group),
    ensures
        submitted(app).1 == Some(ClientView::SendMessage { group_id: group.id, content }),
        only_adds(
            AppView { input_buffer: Seq::empty(), ..app },
            submitted(app).0,
            ChatView {
                sender: "Tu"@,
                content,
                group_name: Some(group.name),
                group_id: Some(group.id),
                is_system: false,
            },
        ),
{
    law_trimming(before, content, behind);
}

/// Without an active group nothing is posted, and the user is told so.
pub proof fn law_nothing_is_posted_without_a_group(
    app: AppView,
    before: Seq<char>,
    content: Seq<char>,
    behind: Seq<char>,
)
    requires
        app.input_buffer == before + content + behind,
        is_blank(before),
        is_blank(behind),
        content.len() > 0,
        !is_white(content[0]) && !is_white(content.last()),
        content[0] != '/',
        app.active_group is None,
    ensures
        submitted(app).1 is None,
        only_adds(
            AppView { input_buffer: Seq::empty(), ..app },
            submitted(app).0,
            notice("❌ Nessun gruppo attivo. Crea uno con /create <nome>"@),
        ),
{
    law_trimming(before, content, behind);
}

/// What begins with a slash is carried out as a command, whatever white space is around it, and
/// the input is empty again.
pub proof fn law_slashes_are_commands(
    app: AppView,
    before: Seq<char>,
    content: Seq<char>,
    behind: Seq<char>,
)
    requires
        app.input_buffer == before + content + behind,
        is_blank(before),
        is_blank(behind),
        content.len() > 0,
        content[0] == '/',
        !is_white(content.last()),
    ensures
        submitted(app) == commanded(AppView { input_buffer: Seq::empty(), ..app }, content),
{
    law_trimming(before, content, behind);
}

/// White space alone is not sent off: nothing happens.
pub proof fn law_blank_input_is_left_alone(app: AppView)
    requires
        is_blank(app.input_buffer),
    ensures
        submitted(app) == (app, None::<ClientView>),
{
    law_trimming(app.input_buffer, Seq::empty(), Seq::empty());
    assert(app.input_buffer + Seq::empty() + Seq::empty() =~= app.input_buffer);
}

/// Signing up asks the server for the name that was typed, without the white space around it, and
/// keeps that name. The client is not registered by that, and nothing else changes.
pub proof fn law_signing_up(
    app: AppView,
    before: Seq<char>,
    name: Seq<char>,
    behind: Seq<char>,
)
    requires
        app.username_input == before + name + behind,
        is_blank(before),
        is_blank(behind),
        name.len() > 0 ==> !is_white(name[0]) && !is_white(name.last()),
    ensures
        name.len() > 0 ==> signed_up(app) == (
            AppView { username: name, ..app },
            Some(ClientView::Register { username: name }),
        ),
        name.len() == 0 ==> signed_up(app) == (app, None::<ClientView>),
{
    law_trimming(before, name, behind);
}

/// How a command is spaced makes no difference: only its words count.
pub proof fn law_only_the_words_of_a_command_count(app: AppView, a: Seq<char>, b: Seq<char>)
    requires
        words(a) == words(b),
        words(a).len() > 0,
    ensures
        commanded(app, a) == commanded(app, b),
{
}

/// A command that sends something changes nothing in the client. One that sends nothing adds one
/// line of the client's own, and changes nothing else. No command posts, registers or lists.
pub proof fn law_commands_send_or_say(app: AppView, input: Seq<char>)
    requires
        words(input).len() > 0,
    ensures
        match commanded(app, input).1 {
            Some(message) => {
                &&& commanded(app, input).0 == app
                &&& !(message is SendMessage || message is Register || message is ListGroups)
            },
            None => exists|text: Seq<char>|
                only_adds(app, commanded(app, input).0, #[trigger] notice(text)),
        },
{
    if commanded(app, input).1 is None {
        let text = commanded(app, input).0.messages.last().content;
        assert(only_adds(app, commanded(app, input).0, notice(text)));
    }
}

proof fn lemma_names_differ()
    ensures
        "/create"@[1] == 'c',
        "/accept"@[1] == 'a',
        "/reject"@[1] == 'r',
        "/invite"@[1] == 'i',
        "/join"@[1] == 'j',
        "/help"@[1] == 'h',
{
    reveal_strlit("/create");
    reveal_strlit("/accept");
    reveal_strlit("/reject");
    reveal_strlit("/invite");
    reveal_strlit("/join");
    reveal_strlit("/help");
}

/// A command that there is not is said to be unknown, and nothing is sent.
pub proof fn law_other_commands_are_unknown(app: AppView, input: Seq<char>)
    requires
        words(input).len() > 0,
        words(input)[0] != "/create"@,
        words(input)[0] != "/invite"@,
        words(input)[0] != "/accept"@,
        words(input)[0] != "/reject"@,
        words(input)[0] != "/join"@,
        words(input)[0] != "/help"@,
    ensures
        commanded(app, input).1 is None,
        only_adds(
            app,
            commanded(app, input).0,
            notice("Comando sconosciuto: "@ + words(input)[0] + ". Usa /help"@),
        ),
{
}

/// So is one that lacks what it needs: a group, a user and a group, or a number.
pub proof fn law_incomplete_commands_are_unknown(app: AppView, input: Seq<char>)
    requires
        ({
            let parts = words(input);
            ||| parts == seq!["/create"@]
            ||| parts == seq!["/accept"@]
            ||| parts == seq!["/reject"@]
            ||| parts.len() > 0 && parts[0] == "/invite"@ && parts.len() < 3
            ||| parts.len() > 0 && parts[0] == "/join"@ && i64_of(
                joined(parts.skip(1), seq![' ']),
            ) is None
        }),
    ensures
        commanded(app, input).1 is None,
        only_adds(
            app,
            commanded(app, input).0,
            notice("Comando sconosciuto: "@ + words(input)[0] + ". Usa /help"@),
        ),
{
    lemma_names_differ();
    let parts = words(input);
    assert(parts.len() > 0);
}

/// What stands behind `/help` makes no difference.
pub proof fn law_help_whatever_follows(app: AppView, input: Seq<char>)
    requires
        words(input).len() > 0,
        words(input)[0] == "/help"@,
    ensures
        commanded(app, input).1 is None,
        only_adds(app, commanded(app, input).0, notice(HELP@)),
{
    lemma_names_differ();
}

/// The help says of each command what it needs and what it is for.
pub proof fn law_help_explains_every_command()
    ensures
        mentions(HELP@, "/create <nome> per creare un nuovo gruppo"@),
        mentions(HELP@, "/invite <user> <gruppo> per invitare l'utente <user> al gruppo <gruppo>"@),
        mentions(HELP@, "/accept <gruppo> per accettare l'invito al gruppo <gruppo>"@),
        mentions(HELP@, "/reject <gruppo> per rifiutare l'invito al gruppo <gruppo>"@),
        mentions(HELP@, "/join <id> per accettare l'invito al gruppo con numero <id>"@),
        mentions(HELP@, "/help per mostrare tutti i comandi"@),
{
    reveal_strlit(
        "Comandi:\n /create <nome> per creare un nuovo gruppo\n| /invite <user> <gruppo> per invitare l'utente <user> al gruppo <gruppo>\n | /accept <gruppo> per accettare l'invito al gruppo <gruppo>\n | /reject <gruppo> per rifiutare l'invito al gruppo <gruppo>\n | /join <id> per accettare l'invito al gruppo con numero <id>\n | /help per mostrare tutti i comandi",
    );
    reveal_strlit("/create <nome> per creare un nuovo gruppo");
    assert(HELP@.subrange(10, 10int + "/create <nome> per creare un nuovo gruppo"@.len()) =~= "/create <nome> per creare un nuovo gruppo"@);
    reveal_strlit("/invite <user> <gruppo> per invitare l'utente <user> al gruppo <gruppo>");
    assert(HELP@.subrange(54, 54int + "/invite <user> <gruppo> per invitare l'utente <user> al gruppo <gruppo>"@.len()) =~= "/invite <user> <gruppo> per invitare l'utente <user> al gruppo <gruppo>"@);
    reveal_strlit("/accept <gruppo> per accettare l'invito al gruppo <gruppo>");
    assert(HELP@.subrange(129, 129int + "/accept <gruppo> per accettare l'invito al gruppo <gruppo>"@.len()) =~= "/accept <gruppo> per accettare l'invito al gruppo <gruppo>"@);
    reveal_strlit("/reject <gruppo> per rifiutare l'invito al gruppo <gruppo>");
    assert(HELP@.subrange(191, 191int + "/reject <gruppo> per rifiutare l'invito al gruppo <gruppo>"@.len()) =~= "/reject <gruppo> per rifiutare l'invito al gruppo <gruppo>"@);
    reveal_strlit("/join <id> per accettare l'invito al gruppo con numero <id>");
    assert(HELP@.subrange(253, 253int + "/join <id> per accettare l'invito al gruppo con numero <id>"@.len()) =~= "/join <id> per accettare l'invito al gruppo con numero <id>"@);
    reveal_strlit("/help per mostrare tutti i comandi");
    assert(HELP@.subrange(316, 316int + "/help per mostrare tutti i comandi"@.len()) =~= "/help per mostrare tutti i comandi"@);
}

/// What each command sends, in terms of its words: those behind the command, or behind the user
/// to invite, make up the group's name.
pub proof fn law_commands_by_words(app: AppView, input: Seq<char>)
    requires
        words(input).len() >= 2,
    ensures
        ({
            let parts = words(input);
            let rest = joined(parts.skip(1), seq![' ']);
            let sent = commanded(app, input).1;
            &&& parts[0] == "/create"@ ==> sent == Some(ClientView::CreateGroup { name: rest })
            &&& parts[0] == "/accept"@ ==> sent == Some(ClientView::AcceptInvite { group: rest })
            &&& parts[0] == "/reject"@ ==> sent == Some(ClientView::RejectInvite { group: rest })
            &&& parts[0] == "/join"@ && i64_of(rest) is Some ==> sent == Some(
                ClientView::JoinGroup { group_id: i64_of(rest)->0 },
            )
        }),
        ({
            let parts = words(input);
            let group = joined(parts.skip(2), seq![' ']);
            let sent = commanded(app, input).1;
            let listed = exists|i: int|
                0 <= i < app.groups.len() && (#[trigger] app.groups[i]).name == group;
            parts[0] == "/invite"@ && parts.len() >= 3 ==> if !listed && i64_of(group) is Some {
                sent == Some(
                    ClientView::InviteToGroup {
                        username_to_invite: parts[1],
                        group_id: i64_of(group)->0,
                    },
                )
            } else {
                sent == Some(ClientView::InviteUser { group, username: parts[1] })
            }
        }),
{
    lemma_names_differ();
}

/// No line of the chat is lost to a command, or to any number of messages of the server.
pub proof fn law_lines_stay(app: AppView, input: Seq<char>, list: Seq<ServerView>)
    requires
        words(input).len() > 0,
    ensures
        app.messages.is_prefix_of(commanded(app, input).0.messages),
        app.messages.is_prefix_of(received_all(app, list).messages),
    decreases list.len(),
{
    if list.len() > 0 {
        law_lines_stay(app, input, list.drop_last());
        let before = received_all(app, list.drop_last());
        let after = received(before, list.last());
        assert(before.messages.is_prefix_of(after.messages));
        assert(app.messages =~= after.messages.take(app.messages.len() as int));
    }
}

/// What is typed is left alone by the server: no message of it changes what stands in the two
/// inputs.
pub proof fn law_inputs_are_the_users(app: AppView, message: ServerView)
    ensures
        received(app, message).input_buffer == app.input_buffer,
        received(app, message).username_input == app.username_input,
{
}

/// Lists of messages are viewed message by message, in order.
pub proof fn law_messages_are_viewed_one_by_one(
    from_server: Seq<ServerMessage>,
    to_server: Seq<ClientMessage>,
    at: int,
)
    ensures
        server_views(from_server).len() == from_server.len(),
        0 <= at < from_server.len() ==> server_views(from_server)[at] == from_server[at]@,
        client_views(to_server).len() == to_server.len(),
        0 <= at < to_server.len() ==> client_views(to_server)[at] == to_server[at]@,
{
}

/// The view of a client shows all there is to it.
pub proof fn law_a_client_is_viewed_whole(app: RuggineApp, line: ChatMessage, at: int)
    ensures
        app@.username_input == app.username_input@,
        app@.username == app.username@,
        app@.is_registered == app.is_registered,
        app@.messages.len() == app.messages@.len(),
        0 <= at < app.messages@.len() ==> app@.messages[at] == app.messages@[at]@,
        app@.input_buffer == app.input_buffer@,
        app@.groups.len() == app.groups@.len(),
        0 <= at < app.groups@.len() ==> app@.groups[at] == app.groups@[at]@,
        app@.active_group == (match app.active_group {
            Some(group) => Some(group@),
            None => None,
        }),
        app@.connection_status == app.connection_status@,
        line@.sender == line.sender@,
        line@.content == line.content@,
        line@.group_name == (match line.group_name {
            Some(name) => Some(name@),
            None => None,
        }),
        line@.group_id == line.group_id,
        line@.is_system == line.is_system,
{
}

} // verus!
