//! What the requests of an exchange mean: the tables they read and write, the users that are
//! connected, and what is handed to connections.
use crate::exchange::{AnswerView, FaultView, RequestView, StepView};
use crate::messages::{GroupView, ServerView};
use crate::rules::{next, registered_after};
use crate::state::deliveries;
use vstd::prelude::*;

verus! {

/// The tables of the database. Members and invites are keyed by user and group.
#[verifier::ext_equal]
pub struct Tables {
    pub users: Map<i64, Seq<char>>,
    pub groups: Map<i64, Seq<char>>,
    pub members: Set<(i64, i64)>,
    /// Who has invited the user to the group.
    pub invites: Map<(i64, i64), i64>,
}

impl Tables {
    /// Whether `id` is the number of the user `username`.
    pub open spec fn is_user(self, id: i64, username: Seq<char>) -> bool {
        self.users.contains_key(id) && self.users[id] == username
    }

    /// Whether there is a user `username`.
    pub open spec fn has_user(self, username: Seq<char>) -> bool {
        exists|id: i64| self.is_user(id, username)
    }

    /// The number of the user `username`, if there is one.
    pub open spec fn number_of(self, username: Seq<char>) -> i64 {
        choose|id: i64| self.is_user(id, username)
    }

    /// Whether `id` is the number of a group `name`.
    pub open spec fn is_group(self, id: i64, name: Seq<char>) -> bool {
        self.groups.contains_key(id) && self.groups[id] == name
    }

    /// Whether there is a group `name`.
    pub open spec fn has_group(self, name: Seq<char>) -> bool {
        exists|id: i64| self.is_group(id, name)
    }

    /// Whether `username` is a member of the group.
    pub open spec fn has_member(self, username: Seq<char>, group_id: i64) -> bool {
        exists|id: i64| self.is_user(id, username) && self.members.contains((id, group_id))
    }

    /// What the schema guarantees: no two users of one name, and members and invites only of
    /// users and groups that exist.
    pub open spec fn valid(self) -> bool {
        &&& forall|a: i64, b: i64|
            self.users.contains_key(a) && self.users.contains_key(b) && #[trigger] self.users[a]
                == #[trigger] self.users[b] ==> a == b
        &&& forall|u: i64, g: i64| #[trigger]
            self.members.contains((u, g)) ==> self.users.contains_key(u)
                && self.groups.contains_key(g)
        &&& forall|u: i64, g: i64| #[trigger]
            self.invites.contains_key((u, g)) ==> self.users.contains_key(u)
                && self.groups.contains_key(g) && self.users.contains_key(self.invites[(u, g)])
    }

    /// With a user more.
    pub open spec fn with_user(self, id: i64, username: Seq<char>) -> Tables {
        Tables { users: self.users.insert(id, username), ..self }
    }

    /// With a group more.
    pub open spec fn with_group(self, id: i64, name: Seq<char>) -> Tables {
        Tables { groups: self.groups.insert(id, name), ..self }
    }

    /// With a member more.
    pub open spec fn with_member(self, user_id: i64, group_id: i64) -> Tables {
        Tables { members: self.members.insert((user_id, group_id)), ..self }
    }

    /// With an invite more.
    pub open spec fn with_invite(self, invited: i64, group_id: i64, inviter: i64) -> Tables {
        Tables { invites: self.invites.insert((invited, group_id), inviter), ..self }
    }

    /// Without the user's invite to the group.
    pub open spec fn without_invite(self, user_id: i64, group_id: i64) -> Tables {
        Tables { invites: self.invites.remove((user_id, group_id)), ..self }
    }

    /// With a new group and its first member.
    pub open spec fn founded(self, user_id: i64, group_id: i64, name: Seq<char>) -> Tables {
        self.with_group(group_id, name).with_member(user_id, group_id)
    }

    /// With the user's invite to the group traded for membership.
    pub open spec fn admitted(self, user_id: i64, group_id: i64) -> Tables {
        self.without_invite(user_id, group_id).with_member(user_id, group_id)
    }

    /// Whether `groups` lists the groups that the user is a member of, each once.
    pub open spec fn lists_groups(self, user_id: i64, groups: Seq<GroupView>) -> bool {
        &&& groups.no_duplicates()
        &&& forall|group: GroupView| #[trigger]
            groups.contains(group) <==> self.is_group(group.id, group.name)
                && self.members.contains((user_id, group.id))
    }

    /// Whether `names` lists the members of the group, each once.
    pub open spec fn lists_members(self, group_id: i64, names: Seq<Seq<char>>) -> bool {
        &&& names.no_duplicates()
        &&& forall|name: Seq<char>| #[trigger]
            names.contains(name) <==> self.has_member(name, group_id)
    }
}

/// Everything that exchanges act on.
pub struct World {
    pub tables: Tables,
    /// The tables as they were when the open transaction began.
    pub saved: Option<Tables>,
    /// Over which connection each connected user is reached.
    pub active: Map<Seq<char>, u64>,
    /// What has been handed to connections.
    pub sent: Seq<(u64, ServerView)>,
}

impl World {
    /// The world with the tables changed.
    pub open spec fn with_tables(self, tables: Tables) -> World {
        World { tables, ..self }
    }

    /// The world with a message handed to a connection.
    pub open spec fn with_sent(self, connection: u64, message: ServerView) -> World {
        World { sent: self.sent.push((connection, message)), ..self }
    }

    /// A transaction that is still open when an exchange ends is rolled back.
    pub open spec fn settled(self) -> World {
        match self.saved {
            Some(tables) => World { tables, saved: None, ..self },
            None => self,
        }
    }

    /// Between exchanges: the tables are valid and no transaction is open.
    pub open spec fn at_rest(self) -> bool {
        self.saved is None && self.tables.valid()
    }
}

/// Whether a statement was turned down by the database.
pub open spec fn turned_down(answer: AnswerView) -> bool {
    answer matches AnswerView::Failed(FaultView::Store(_))
}

/// What `request`, made for the client on `connection`, does to the world, and how it is
/// answered.
pub open spec fn served(
    pre: World,
    connection: u64,
    request: RequestView,
    answer: AnswerView,
    post: World,
) -> bool {
    let tables = pre.tables;
    match request {
        RequestView::FindUserId { username } => post == pre && (if tables.has_user(username) {
            answer matches AnswerView::Id(id) && tables.is_user(id, username)
        } else {
            turned_down(answer)
        }),
        RequestView::FindUser { username } => post == pre && (if tables.has_user(username) {
            answer matches AnswerView::Row(id, name) && tables.is_user(id, username) && name
                == username
        } else {
            turned_down(answer)
        }),
        RequestView::InsertUser { username } => if tables.has_user(username) {
            turned_down(answer) && post == pre
        } else {
            answer is Done && exists|id: i64|
                !tables.users.contains_key(id) && post == pre.with_tables(
                    #[trigger] tables.with_user(id, username),
                )
        },
        RequestView::FindGroupId { name } => post == pre && (if tables.has_group(name) {
            answer matches AnswerView::Id(id) && tables.is_group(id, name)
        } else {
            turned_down(answer)
        }),
        RequestView::FindGroup { name } => post == pre && (if tables.has_group(name) {
            answer matches AnswerView::Row(id, found) && tables.is_group(id, name) && found == name
        } else {
            turned_down(answer)
        }),
        RequestView::FindGroupName { group_id } => post == pre && (if tables.groups.contains_key(
            group_id,
        ) {
            answer matches AnswerView::Name(name) && name == tables.groups[group_id]
        } else {
            turned_down(answer)
        }),
        RequestView::FindGroups { user_id } => post == pre && (answer matches AnswerView::Groups(
            groups,
        ) && tables.lists_groups(user_id, groups)),
        RequestView::InsertGroup { name } => answer matches AnswerView::Id(id)
            && !tables.groups.contains_key(id) && post == pre.with_tables(
            tables.with_group(id, name),
        ),
        RequestView::FindMember { user_id, group_id } => post == pre && (
        if tables.members.contains((user_id, group_id)) {
            answer is Done
        } else {
            turned_down(answer)
        }),
        RequestView::InsertMember { user_id, group_id } => if tables.users.contains_key(user_id)
            && tables.groups.contains_key(group_id) && !tables.members.contains(
            (user_id, group_id),
        ) {
            answer is Done && post == pre.with_tables(tables.with_member(user_id, group_id))
        } else {
            turned_down(answer) && post == pre
        },
        RequestView::FindInvite { user_id, group_id } => post == pre && (
        if tables.invites.contains_key((user_id, group_id)) {
            answer is Done
        } else {
            turned_down(answer)
        }),
        RequestView::InsertInvite { invited_user_id, group_id, inviter_user_id } =>
        if invite_can_stand(tables, invited_user_id, group_id, inviter_user_id)
            && !tables.invites.contains_key((invited_user_id, group_id)) {
            answer is Done && post == pre.with_tables(
                tables.with_invite(invited_user_id, group_id, inviter_user_id),
            )
        } else {
            turned_down(answer) && post == pre
        },
        RequestView::InsertInviteIfAbsent { invited_user_id, group_id, inviter_user_id } =>
        if tables.invites.contains_key((invited_user_id, group_id)) {
            answer is Done && post == pre
        } else if invite_can_stand(tables, invited_user_id, group_id, inviter_user_id) {
            answer is Done && post == pre.with_tables(
                tables.with_invite(invited_user_id, group_id, inviter_user_id),
            )
        } else {
            turned_down(answer) && post == pre
        },
        RequestView::DeleteInvite { user_id, group_id } => answer == AnswerView::Count(
            if tables.invites.contains_key((user_id, group_id)) {
                1
            } else {
                0
            },
        ) && post == pre.with_tables(tables.without_invite(user_id, group_id)),
        RequestView::Begin => if pre.saved is None {
            answer is Done && post == World { saved: Some(tables), ..pre }
        } else {
            turned_down(answer) && post == pre
        },
        RequestView::Commit => if pre.saved is Some {
            answer is Done && post == World { saved: None, ..pre }
        } else {
            turned_down(answer) && post == pre
        },
        RequestView::Enroll { username } => answer is Done && post == World {
            active: pre.active.insert(username, connection),
            ..pre
        },
        RequestView::Notify { username, message } => answer is Done && post == (
        if pre.active.contains_key(username) {
            pre.with_sent(pre.active[username], message)
        } else {
            pre
        }),
        RequestView::Broadcast { group_id, message, exclude } => answer is Done && exists|
            names: Seq<Seq<char>>,
        | #[trigger]
            tables.lists_members(group_id, names) && post == World {
                sent: pre.sent + deliveries(pre.active, names, message, exclude),
                ..pre
            },
        RequestView::Tell { message } => answer is Done && post == pre.with_sent(
            connection,
            message,
        ),
    }
}

/// Whether the users and the group of an invite exist.
pub open spec fn invite_can_stand(
    tables: Tables,
    invited: i64,
    group_id: i64,
    inviter: i64,
) -> bool {
    tables.users.contains_key(invited) && tables.groups.contains_key(group_id)
        && tables.users.contains_key(inviter)
}

/// What can come of a request: it is served, or, where `faults` may happen, it fails and changes
/// nothing.
pub open spec fn happens(
    pre: World,
    connection: u64,
    request: RequestView,
    answer: AnswerView,
    post: World,
    faults: bool,
) -> bool {
    ||| served(pre, connection, request, answer, post)
    ||| faults && answer is Failed && post == pre
}

/// The answers that an exchange is given, each with the time and the world it leaves behind.
pub enum Run {
    End,
    Turn { answer: AnswerView, now: i64, world: World, rest: Box<Run> },
}

/// Whether `run` takes an exchange from `step`, in the world `w`, to its end.
pub open spec fn is_run(
    step: StepView,
    connection: u64,
    w: World,
    run: Run,
    faults: bool,
) -> bool
    decreases run,
{
    match (step, run) {
        (StepView::Finished(_), Run::End) => true,
        (StepView::Ask { request, then }, Run::Turn { answer, now, world, rest }) => {
            &&& happens(w, connection, request, answer, world, faults)
            &&& is_run(next(then, answer, now), connection, world, *rest, faults)
        },
        _ => false,
    }
}

/// How many answers a run holds.
pub open spec fn turns(run: Run) -> nat
    decreases run,
{
    match run {
        Run::End => 0,
        Run::Turn { rest, .. } => 1 + turns(*rest),
    }
}

/// How the exchange ends.
pub open spec fn outcome(step: StepView, run: Run) -> Result<(), Seq<char>>
    decreases run,
{
    match (step, run) {
        (StepView::Finished(result), _) => result,
        (StepView::Ask { then, .. }, Run::Turn { answer, now, rest, .. }) => outcome(
            next(then, answer, now),
            *rest,
        ),
        _ => Ok(()),
    }
}

/// The world when the exchange has ended.
pub open spec fn world_after(w: World, run: Run) -> World
    decreases run,
{
    match run {
        Run::End => w.settled(),
        Run::Turn { world, rest, .. } => world_after(world, *rest),
    }
}

/// Whom the client is registered as when the exchange has ended.
pub open spec fn user_after(
    step: StepView,
    run: Run,
    current: Option<Seq<char>>,
) -> Option<Seq<char>>
    decreases run,
{
    match (step, run) {
        (StepView::Ask { then, .. }, Run::Turn { answer, now, rest, .. }) => user_after(
            next(then, answer, now),
            *rest,
            registered_after(then, answer, current),
        ),
        _ => current,
    }
}

} // verus!
