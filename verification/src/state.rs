//! Who is connected, and who gets what is said in a group.
use crate::messages::{option_text, ServerMessage, ServerView};
use crate::text::views;
use vstd::hash_map::StringHashMap;
use vstd::prelude::*;

verus! {

/// The connected users: for each, the number of the connection where the user is reached.
pub struct AppState {
    active_users: StringHashMap<u64>,
}

impl View for AppState {
    type V = Map<Seq<char>, u64>;

    closed spec fn view(&self) -> Map<Seq<char>, u64> {
        self.active_users@
    }
}

/// Whether a message to a group goes to the member `name`: connected, and not left out.
pub open spec fn receives(
    active: Map<Seq<char>, u64>,
    exclude: Option<Seq<char>>,
    name: Seq<char>,
) -> bool {
    exclude != Some(name) && active.contains_key(name)
}

/// What is handed to which connection when `message` goes to the members `names`.
pub open spec fn deliveries(
    active: Map<Seq<char>, u64>,
    names: Seq<Seq<char>>,
    message: ServerView,
    exclude: Option<Seq<char>>,
) -> Seq<(u64, ServerView)>
    decreases names.len(),
{
    if names.len() == 0 {
        Seq::empty()
    } else {
        let before = deliveries(active, names.drop_last(), message, exclude);
        if receives(active, exclude, names.last()) {
            before.push((active[names.last()], message))
        } else {
            before
        }
    }
}

/// The views of a list of deliveries.
pub open spec fn delivery_views(list: Seq<(u64, ServerMessage)>) -> Seq<(u64, ServerView)> {
    list.map_values(|d: (u64, ServerMessage)| (d.0, d.1@))
}

impl AppState {
    /// Nobody is connected.
    pub fn new() -> (state: Self)
        ensures
            state@ == Map::<Seq<char>, u64>::empty(),
    {
        AppState { active_users: StringHashMap::new() }
    }

    /// From now on `username` is reached over `connection`.
    pub fn enroll(&mut self, username: String, connection: u64)
        ensures
            final(self)@ == old(self)@.insert(username@, connection),
    {
        self.active_users.insert(username, connection);
    }

    /// The connection over which `username` is reached, if there is one.
    pub fn connection_of(&self, username: &str) -> (connection: Option<u64>)
        ensures
            connection == (if self@.contains_key(username@) {
                Some(self@[username@])
            } else {
                None
            }),
    {
        match self.active_users.get(username) {
            Some(connection) => Some(*connection),
            None => None,
        }
    }

    /// A connection has been closed: whoever it had registered is not connected any more.
    pub fn disconnect(&mut self, current_user: &Option<String>)
        ensures
            final(self)@ == (match option_text(*current_user) {
                Some(username) => old(self)@.remove(username),
                None => old(self)@,
            }),
    {
        match current_user {
            Some(username) => {
                self.active_users.remove(username.as_str());
            },
            None => {},
        }
    }

    /// What to hand to which connection so that `message` reaches the connected members of a
    /// group, in the order of `member_usernames`, but for the user to `exclude`.
    pub fn broadcast_to_group(
        &self,
        member_usernames: &Vec<String>,
        message: &ServerMessage,
        exclude: &Option<String>,
    ) -> (list: Vec<(u64, ServerMessage)>)
        ensures
            delivery_views(list@) == deliveries(
                self@,
                views(member_usernames@),
                message@,
                option_text(*exclude),
            ),
    {
        let mut list: Vec<(u64, ServerMessage)> = Vec::new();
        let ghost names = views(member_usernames@);
        let mut at: usize = 0;
        proof {
            assert(delivery_views(list@) =~= Seq::empty());
        }
        while at < member_usernames.len()
            invariant
                at <= member_usernames.len(),
                names == views(member_usernames@),
                delivery_views(list@) == deliveries(
                    self@,
                    names.take(at as int),
                    message@,
                    option_text(*exclude),
                ),
            decreases member_usernames.len() - at,
        {
            let username = &member_usernames[at];
            let skipped = match exclude {
                Some(excluded) => *username == *excluded,
                None => false,
            };
            let ghost before = list@;
            if !skipped {
                match self.connection_of(username.as_str()) {
                    Some(connection) => {
                        let copy = message.clone();
                        list.push((connection, copy));
                        proof {
                            assert(delivery_views(list@) =~= delivery_views(before).push(
                                (connection, message@),
                            ));
                        }
                    },
                    None => {},
                }
            }
            proof {
                assert(names.take(at + 1).drop_last() =~= names.take(at as int));
                assert(names.take(at + 1).last() == username@);
            }
            at = at + 1;
        }
        proof {
            assert(names.take(at as int) =~= names);
        }
        list
    }
}

/// Everybody on the list who is connected and not left out is handed the message once, over the
/// user's own connection; nobody else is handed anything.
pub proof fn law_delivery_to_one(
    active: Map<Seq<char>, u64>,
    name: Seq<char>,
    message: ServerView,
    exclude: Option<Seq<char>>,
)
    ensures
        exclude != Some(name) && active.contains_key(name) ==> deliveries(
            active,
            seq![name],
            message,
            exclude,
        ) == seq![(active[name], message)],
        exclude == Some(name) || !active.contains_key(name) ==> deliveries(
            active,
            seq![name],
            message,
            exclude,
        ).len() == 0,
{
    let one = seq![name];
    assert(one.drop_last() =~= Seq::empty());
    assert(deliveries(active, one.drop_last(), message, exclude) =~= Seq::empty());
    if receives(active, exclude, name) {
        assert(deliveries(active, one, message, exclude) =~= seq![(active[name], message)]);
    }
}

/// Whom else a message goes to makes no difference to anybody: two lists in a row are one list,
/// in its order.
pub proof fn law_deliveries_in_order(
    active: Map<Seq<char>, u64>,
    a: Seq<Seq<char>>,
    b: Seq<Seq<char>>,
    message: ServerView,
    exclude: Option<Seq<char>>,
)
    ensures
        deliveries(active, a + b, message, exclude) == deliveries(active, a, message, exclude)
            + deliveries(active, b, message, exclude),
    decreases b.len(),
{
    let all = a + b;
    if b.len() == 0 {
        assert(all =~= a);
    } else {
        assert(all.drop_last() =~= a + b.drop_last());
        assert(all.last() == b.last());
        law_deliveries_in_order(active, a, b.drop_last(), message, exclude);
    }
    assert(deliveries(active, all, message, exclude) =~= deliveries(active, a, message, exclude)
        + deliveries(active, b, message, exclude));
}

/// What happens to the others makes no difference to a user: a message goes to the same
/// connection, or to none, in any two tables that agree on the user.
pub proof fn law_only_ones_own_connection_counts(
    active: Map<Seq<char>, u64>,
    other: Map<Seq<char>, u64>,
    name: Seq<char>,
    message: ServerView,
    exclude: Option<Seq<char>>,
)
    requires
        active.contains_key(name) == other.contains_key(name),
        active.contains_key(name) ==> active[name] == other[name],
    ensures
        deliveries(active, seq![name], message, exclude) == deliveries(
            other,
            seq![name],
            message,
            exclude,
        ),
{
    law_delivery_to_one(active, name, message, exclude);
    law_delivery_to_one(other, name, message, exclude);
    assert(deliveries(active, seq![name], message, exclude) =~= deliveries(
        other,
        seq![name],
        message,
        exclude,
    ));
}

/// Whoever has been disconnected gets nothing more, and nobody else notices: what is handed out is
/// what would be if that user were left out.
pub proof fn law_the_disconnected_get_nothing(
    active: Map<Seq<char>, u64>,
    names: Seq<Seq<char>>,
    message: ServerView,
    user: Seq<char>,
)
    ensures
        deliveries(active.remove(user), names, message, None) == deliveries(
            active,
            names,
            message,
            Some(user),
        ),
    decreases names.len(),
{
    if names.len() > 0 {
        law_the_disconnected_get_nothing(active, names.drop_last(), message, user);
    }
}

/// Deliveries are viewed one by one, in order.
pub proof fn law_deliveries_are_viewed_one_by_one(list: Seq<(u64, ServerMessage)>, at: int)
    ensures
        delivery_views(list).len() == list.len(),
        0 <= at < list.len() ==> delivery_views(list)[at] == (list[at].0, list[at].1@),
{
}

} // verus!
