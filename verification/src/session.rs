//! A client's connection from its first frame to its last, with no other at work meanwhile.
use crate::connection::{heeded, reported, FrameView, IncomingView};
use crate::laws::{law_registered_user_exists, law_registration_stays, law_tables_stay_valid};
use crate::messages::{ClientView, ServerView};
use crate::responses::{law_post, law_posts_reach_the_members};
use crate::rules::begun;
use crate::world::{is_run, outcome, user_after, world_after, Run, World};
use vstd::prelude::*;

verus! {

/// How things stand between two frames: the world, and whom the client is registered as.
pub struct Standing {
    pub world: World,
    pub current: Option<Seq<char>>,
}

/// The client is handed a message; where `faults` may happen, it may be lost.
pub open spec fn handed(
    before: World,
    connection: u64,
    message: ServerView,
    after: World,
    faults: bool,
) -> bool {
    ||| after == before.with_sent(connection, message)
    ||| faults && after == before
}

/// The exchange on `message` takes the course `run`, and the client is told if it has failed.
pub open spec fn conversed(
    before: Standing,
    connection: u64,
    message: ClientView,
    run: Run,
    after: Standing,
    faults: bool,
) -> bool {
    let start = begun(message, before.current);
    let world = world_after(before.world, run);
    &&& is_run(start, connection, before.world, run, faults)
    &&& after.current == user_after(start, run, before.current)
    &&& match reported(outcome(start, run)) {
        Some(report) => handed(world, connection, report, after.world, faults),
        None => after.world == world,
    }
}

/// What can come of a frame.
pub open spec fn dealt_with(
    before: Standing,
    connection: u64,
    frame: FrameView,
    after: Standing,
    faults: bool,
) -> bool {
    match heeded(frame) {
        IncomingView::Handle(message) => exists|run: Run|
            conversed(before, connection, message, run, after, faults),
        IncomingView::Tell(message) => {
            &&& after.current == before.current
            &&& handed(before.world, connection, message, after.world, faults)
        },
        IncomingView::Ignore | IncomingView::Stop => after == before,
    }
}

/// Whether things can stand like `end` when these frames have arrived one after the other, and
/// then no more.
pub open spec fn session(
    start: Standing,
    connection: u64,
    frames: Seq<FrameView>,
    end: Standing,
    faults: bool,
) -> bool
    decreases frames.len(),
{
    if frames.len() == 0 || heeded(frames[0]) is Stop {
        end == start
    } else {
        exists|mid: Standing|
            {
                &&& #[trigger] dealt_with(start, connection, frames[0], mid, faults)
                &&& session(mid, connection, frames.skip(1), end, faults)
            }
    }
}

/// Nothing that arrives behind a close or a failure is dealt with: tables, connected users, what
/// is sent and whom the client is registered as can come out just as if the frames had ended
/// there.
pub proof fn law_nothing_is_read_after_the_end(
    start: Standing,
    connection: u64,
    before: Seq<FrameView>,
    last: FrameView,
    behind: Seq<FrameView>,
    end: Standing,
    faults: bool,
)
    requires
        last is Close || last is Failed,
    ensures
        session(start, connection, before.push(last) + behind, end, faults) == session(
            start,
            connection,
            before,
            end,
            faults,
        ),
    decreases before.len(),
{
    let frames = before.push(last) + behind;
    if before.len() == 0 {
        assert(frames[0] == last);
    } else {
        let rest = before.skip(1);
        assert(frames[0] == before[0]);
        assert(frames.skip(1) =~= rest.push(last) + behind);
        assert forall|mid: Standing| #[trigger]
            dealt_with(start, connection, before[0], mid, faults) implies session(
            mid,
            connection,
            frames.skip(1),
            end,
            faults,
        ) == session(mid, connection, rest, end, faults) by {
            law_nothing_is_read_after_the_end(mid, connection, rest, last, behind, end, faults);
        }
    }
}

/// Frames other than texts, closes and failures have no effect: what comes out is as if they had
/// not arrived.
pub proof fn law_other_frames_have_no_effect(
    start: Standing,
    connection: u64,
    before: Seq<FrameView>,
    other: FrameView,
    behind: Seq<FrameView>,
    end: Standing,
    faults: bool,
)
    requires
        other is Binary || other is Ping || other is Other,
    ensures
        session(start, connection, before.push(other) + behind, end, faults) == session(
            start,
            connection,
            before + behind,
            end,
            faults,
        ),
    decreases before.len(),
{
    let frames = before.push(other) + behind;
    let without = before + behind;
    if before.len() == 0 {
        assert(frames[0] == other);
        assert(frames.skip(1) =~= without);
        assert(dealt_with(start, connection, other, start, faults));
    } else {
        let rest = before.skip(1);
        assert(frames[0] == before[0] && without[0] == before[0]);
        assert(frames.skip(1) =~= rest.push(other) + behind);
        assert(without.skip(1) =~= rest + behind);
        assert forall|mid: Standing| #[trigger]
            dealt_with(start, connection, before[0], mid, faults) implies session(
            mid,
            connection,
            frames.skip(1),
            end,
            faults,
        ) == session(mid, connection, without.skip(1), end, faults) by {
            law_other_frames_have_no_effect(mid, connection, rest, other, behind, end, faults);
        }
    }
}

/// Between any two frames, whatever has arrived and failed before, the tables are valid, no
/// transaction is open, and whoever the client is registered as is a user.
pub proof fn law_sessions_keep_order(
    start: Standing,
    connection: u64,
    frames: Seq<FrameView>,
    end: Standing,
)
    requires
        start.world.at_rest(),
        start.current matches Some(user) ==> start.world.tables.has_user(user),
        session(start, connection, frames, end, true),
    ensures
        end.world.at_rest(),
        end.current matches Some(user) ==> end.world.tables.has_user(user),
    decreases frames.len(),
{
    if frames.len() > 0 && !(heeded(frames[0]) is Stop) {
        let mid = choose|mid: Standing|
            {
                &&& #[trigger] dealt_with(start, connection, frames[0], mid, true)
                &&& session(mid, connection, frames.skip(1), end, true)
            };
        if let IncomingView::Handle(message) = heeded(frames[0]) {
            let run = choose|run: Run|
                conversed(start, connection, message, run, mid, true);
            law_tables_stay_valid(message, start.current, connection, start.world, run);
            law_registered_user_exists(message, start.current, connection, start.world, run);
        }
        law_sessions_keep_order(mid, connection, frames.skip(1), end);
    }
}

/// A text that holds a message is dealt with, whatever message it is: what can come of it is just
/// what can come of the exchange on that message, and the client is told if that has failed.
pub proof fn law_every_message_gets_its_exchange(
    start: Standing,
    connection: u64,
    message: ClientView,
    end: Standing,
    faults: bool,
)
    ensures
        session(start, connection, seq![FrameView::Text(Some(message))], end, faults) == exists|
            run: Run,
        |
            {
                let begins = begun(message, start.current);
                let after = world_after(start.world, run);
                &&& #[trigger] is_run(
                    begun(message, start.current),
                    connection,
                    start.world,
                    run,
                    faults,
                )
                &&& end.current == user_after(begins, run, start.current)
                &&& outcome(begins, run) is Ok ==> end.world == after
                &&& outcome(begins, run) matches Err(text) ==> end.world == after.with_sent(
                    connection,
                    ServerView::Error { message: text },
                ) || (faults && end.world == after)
            },
{
    let frame = FrameView::Text(Some(message));
    let begins = begun(message, start.current);
    lemma_one_frame(start, connection, frame, end, faults);
    assert(session(start, connection, seq![frame], end, faults) == dealt_with(
        start,
        connection,
        frame,
        end,
        faults,
    ));
    if dealt_with(start, connection, frame, end, faults) {
        let run = choose|run: Run| conversed(start, connection, message, run, end, faults);
        assert(is_run(begins, connection, start.world, run, faults));
    }
    assert forall|run: Run|
        {
            let after = world_after(start.world, run);
            &&& #[trigger] is_run(begins, connection, start.world, run, faults)
            &&& end.current == user_after(begins, run, start.current)
            &&& outcome(begins, run) is Ok ==> end.world == after
            &&& outcome(begins, run) matches Err(text) ==> end.world == after.with_sent(
                connection,
                ServerView::Error { message: text },
            ) || (faults && end.world == after)
        } implies dealt_with(start, connection, frame, end, faults) by {
        assert(conversed(start, connection, message, run, end, faults));
    }
}

proof fn lemma_one_frame(
    start: Standing,
    connection: u64,
    frame: FrameView,
    end: Standing,
    faults: bool,
)
    requires
        !(heeded(frame) is Stop),
    ensures
        session(start, connection, seq![frame], end, faults) == dealt_with(
            start,
            connection,
            frame,
            end,
            faults,
        ),
{
    let frames = seq![frame];
    assert(frames[0] == frame);
    assert(frames.skip(1).len() == 0);
    if dealt_with(start, connection, frame, end, faults) {
        assert(dealt_with(start, connection, frames[0], end, faults));
        assert(session(end, connection, frames.skip(1), end, faults));
        assert(session(start, connection, frames, end, faults));
    }
    if session(start, connection, frames, end, faults) {
        let mid = choose|mid: Standing|
            {
                &&& #[trigger] dealt_with(start, connection, frames[0], mid, faults)
                &&& session(mid, connection, frames.skip(1), end, faults)
            };
        assert(mid == end);
    }
}

/// A text that holds no message is answered with an error, and nothing else comes of it.
pub proof fn law_other_texts_are_answered(start: Standing, connection: u64, end: Standing)
    ensures
        session(start, connection, seq![FrameView::Text(None)], end, false) == (end == Standing {
            world: World {
                sent: start.world.sent.push(
                    (connection, ServerView::Error { message: "JSON non valido"@ }),
                ),
                ..start.world
            },
            ..start
        }),
{
    lemma_one_frame(start, connection, FrameView::Text(None), end, false);
}

/// Frames are dealt with one after the other, each where the one before has left things: what can
/// come of two lists in a row is what can come of the second after the first.
pub proof fn law_frames_one_after_the_other(
    start: Standing,
    connection: u64,
    a: Seq<FrameView>,
    b: Seq<FrameView>,
    end: Standing,
    faults: bool,
)
    requires
        forall|i: int| 0 <= i < a.len() ==> !((#[trigger] a[i]) is Close || a[i] is Failed),
    ensures
        session(start, connection, a + b, end, faults) == exists|mid: Standing|
            #[trigger] session(start, connection, a, mid, faults) && session(
                mid,
                connection,
                b,
                end,
                faults,
            ),
    decreases a.len(),
{
    let all = a + b;
    if a.len() == 0 {
        assert(all =~= b);
        assert(session(start, connection, a, start, faults));
    } else {
        let rest = a.skip(1);
        assert(all[0] == a[0]);
        assert(all.skip(1) =~= rest + b);
        assert(!(a[0] is Close || a[0] is Failed));
        assert forall|i: int| 0 <= i < rest.len() implies !((#[trigger] rest[i]) is Close
            || rest[i] is Failed) by {
            assert(rest[i] == a[i + 1]);
        }
        if session(start, connection, all, end, faults) {
            let first = choose|first: Standing|
                {
                    &&& #[trigger] dealt_with(start, connection, all[0], first, faults)
                    &&& session(first, connection, all.skip(1), end, faults)
                };
            law_frames_one_after_the_other(first, connection, rest, b, end, faults);
            let mid = choose|mid: Standing| #[trigger]
                session(first, connection, rest, mid, faults) && session(
                    mid,
                    connection,
                    b,
                    end,
                    faults,
                );
            assert(session(start, connection, a, mid, faults));
        }
        if exists|mid: Standing| #[trigger]
            session(start, connection, a, mid, faults) && session(mid, connection, b, end, faults) {
            let mid = choose|mid: Standing| #[trigger]
                session(start, connection, a, mid, faults) && session(
                    mid,
                    connection,
                    b,
                    end,
                    faults,
                );
            let first = choose|first: Standing|
                {
                    &&& #[trigger] dealt_with(start, connection, a[0], first, faults)
                    &&& session(first, connection, rest, mid, faults)
                };
            law_frames_one_after_the_other(first, connection, rest, b, end, faults);
            assert(dealt_with(start, connection, all[0], first, faults));
        }
    }
}

/// A member's post that arrives as a text reaches every connected member of the group, with who
/// posted it and at some time.
pub proof fn law_posts_that_arrive_reach_the_members(
    start: Standing,
    connection: u64,
    user: Seq<char>,
    group_id: i64,
    content: Seq<char>,
    end: Standing,
    name: Seq<char>,
)
    requires
        start.world.at_rest(),
        start.current == Some(user),
        start.world.tables.has_user(user),
        start.world.tables.members.contains((start.world.tables.number_of(user), group_id)),
        start.world.tables.has_member(name, group_id),
        start.world.active.contains_key(name),
        session(
            start,
            connection,
            seq![FrameView::Text(Some(ClientView::SendMessage { group_id, content }))],
            end,
            false,
        ),
    ensures
        exists|timestamp: i64| #[trigger]
            end.world.sent.contains(
                (
                    start.world.active[name],
                    ServerView::NewMessage {
                        group_id,
                        sender_username: user,
                        content,
                        timestamp,
                    },
                ),
            ),
        end.world.tables == start.world.tables,
        end.current == start.current,
{
    let message = ClientView::SendMessage { group_id, content };
    let begins = begun(message, start.current);
    law_every_message_gets_its_exchange(start, connection, message, end, false);
    let run = choose|run: Run|
        {
            let after = world_after(start.world, run);
            &&& #[trigger] is_run(begins, connection, start.world, run, false)
            &&& end.current == user_after(begins, run, start.current)
            &&& outcome(begins, run) is Ok ==> end.world == after
            &&& outcome(begins, run) matches Err(text) ==> end.world == after.with_sent(
                connection,
                ServerView::Error { message: text },
            ) || (false && end.world == after)
        };
    law_post(user, group_id, content, connection, start.world, run);
    law_posts_reach_the_members(user, group_id, content, connection, start.world, run, name);
    law_registration_stays(message, start.current, connection, start.world, run, false);
}

} // verus!
