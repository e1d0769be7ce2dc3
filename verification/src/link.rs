//! The server's connection, as a client sees it.
use crate::connection::{forwarded, law_one_text_each_in_order, Outgoing};
use crate::messages::{option_server, ServerMessage, ServerView};
use vstd::prelude::*;
use vstd::string::*;

verus! {

/// How the link to the server goes.
#[derive(Debug, PartialEq, Eq)]
pub enum LinkEvent {
    /// There is no connection, and why.
    ConnectFailed(String),
    Connected,
    /// The next message to the server, as a text.
    Encoded(String),
    /// The next message to the server has no text.
    NotEncoded,
    Sent,
    NotSent,
    /// A text from the server: the message it holds, if it holds one.
    Text(Option<ServerMessage>),
    /// Anything but a text from the server.
    Other,
    /// The connection has failed.
    Failed,
    /// The message was taken in.
    Taken,
    /// Nobody takes messages in any more.
    NotTaken,
    /// One of the two directions has ended.
    Ended,
}

/// The view of a [`LinkEvent`].
pub enum LinkEventView {
    ConnectFailed(Seq<char>),
    Connected,
    Encoded(Seq<char>),
    NotEncoded,
    Sent,
    NotSent,
    Text(Option<ServerView>),
    Other,
    Failed,
    Taken,
    NotTaken,
    Ended,
}

impl View for LinkEvent {
    type V = LinkEventView;

    open spec fn view(&self) -> LinkEventView {
        match *self {
            LinkEvent::ConnectFailed(why) => LinkEventView::ConnectFailed(why@),
            LinkEvent::Connected => LinkEventView::Connected,
            LinkEvent::Encoded(text) => LinkEventView::Encoded(text@),
            LinkEvent::NotEncoded => LinkEventView::NotEncoded,
            LinkEvent::Sent => LinkEventView::Sent,
            LinkEvent::NotSent => LinkEventView::NotSent,
            LinkEvent::Text(message) => LinkEventView::Text(option_server(message)),
            LinkEvent::Other => LinkEventView::Other,
            LinkEvent::Failed => LinkEventView::Failed,
            LinkEvent::Taken => LinkEventView::Taken,
            LinkEvent::NotTaken => LinkEventView::NotTaken,
            LinkEvent::Ended => LinkEventView::Ended,
        }
    }
}

/// What to do about the link.
#[derive(Debug, PartialEq, Eq)]
pub enum LinkAction {
    /// Show a message, and go on.
    Show(ServerMessage),
    /// Show a message, and leave it at that.
    ShowAndStop(ServerMessage),
    Send(String),
    Next,
    Stop,
}

/// The view of a [`LinkAction`].
pub enum LinkActionView {
    Show(ServerView),
    ShowAndStop(ServerView),
    Send(Seq<char>),
    Next,
    Stop,
}

impl View for LinkAction {
    type V = LinkActionView;

    open spec fn view(&self) -> LinkActionView {
        match *self {
            LinkAction::Show(message) => LinkActionView::Show(message@),
            LinkAction::ShowAndStop(message) => LinkActionView::ShowAndStop(message@),
            LinkAction::Send(text) => LinkActionView::Send(text@),
            LinkAction::Next => LinkActionView::Next,
            LinkAction::Stop => LinkActionView::Stop,
        }
    }
}

/// How the link goes on. That it is made, cannot be made, or is over, is shown; texts that hold
/// no message and all other frames are passed over.
pub open spec fn link_next(event: LinkEventView) -> LinkActionView {
    match event {
        LinkEventView::ConnectFailed(why) => LinkActionView::ShowAndStop(
            ServerView::Error { message: "Connessione fallita: "@ + why },
        ),
        LinkEventView::Connected => LinkActionView::Show(
            ServerView::Error { message: "Connesso al server!"@ },
        ),
        LinkEventView::Encoded(text) => LinkActionView::Send(text),
        LinkEventView::Text(Some(message)) => LinkActionView::Show(message),
        LinkEventView::NotEncoded | LinkEventView::Sent | LinkEventView::Text(None)
        | LinkEventView::Other | LinkEventView::Taken => LinkActionView::Next,
        LinkEventView::NotSent | LinkEventView::NotTaken
        | LinkEventView::Failed => LinkActionView::Stop,
        LinkEventView::Ended => LinkActionView::ShowAndStop(
            ServerView::Error { message: "Disconnesso dal server."@ },
        ),
    }
}

/// Decides how the link goes on.
pub fn websocket_task(event: LinkEvent) -> (action: LinkAction)
    ensures
        action@ == link_next(event@),
{
    match event {
        LinkEvent::ConnectFailed(why) => {
            let mut message = "Connessione fallita: ".to_owned();
            message.append(why.as_str());
            LinkAction::ShowAndStop(ServerMessage::Error { message })
        },
        LinkEvent::Connected => LinkAction::Show(
            ServerMessage::Error { message: "Connesso al server!".to_owned() },
        ),
        LinkEvent::Encoded(text) => LinkAction::Send(text),
        LinkEvent::Text(Some(message)) => LinkAction::Show(message),
        LinkEvent::NotEncoded
        | LinkEvent::Sent
        | LinkEvent::Text(None)
        | LinkEvent::Other
        | LinkEvent::Taken => LinkAction::Next,
        LinkEvent::NotSent | LinkEvent::NotTaken | LinkEvent::Failed => LinkAction::Stop,
        LinkEvent::Ended => LinkAction::ShowAndStop(
            ServerMessage::Error { message: "Disconnesso dal server.".to_owned() },
        ),
    }
}

/// What comes from the server, and whether the window still takes messages in.
pub struct Arrival {
    pub event: LinkEventView,
    pub taken: bool,
}

/// What the window gets of these arrivals, one after the other.
pub open spec fn taken_in(list: Seq<Arrival>) -> Seq<ServerView>
    decreases list.len(),
{
    if list.len() == 0 {
        Seq::empty()
    } else {
        match link_next(list[0].event) {
            LinkActionView::Show(message) => if list[0].taken {
                match link_next(LinkEventView::Taken) {
                    LinkActionView::Next => seq![message] + taken_in(list.skip(1)),
                    _ => seq![message],
                }
            } else {
                match link_next(LinkEventView::NotTaken) {
                    LinkActionView::Next => taken_in(list.skip(1)),
                    _ => Seq::empty(),
                }
            },
            LinkActionView::ShowAndStop(message) => if list[0].taken {
                seq![message]
            } else {
                Seq::empty()
            },
            LinkActionView::Send(_) | LinkActionView::Next => taken_in(list.skip(1)),
            LinkActionView::Stop => Seq::empty(),
        }
    }
}

/// What an action shows.
pub open spec fn told(action: LinkActionView) -> Seq<ServerView> {
    match action {
        LinkActionView::Show(message) => seq![message],
        LinkActionView::ShowAndStop(message) => seq![message],
        _ => Seq::empty(),
    }
}

/// What the window, while it is there, gets of a link from its making to its end: how it was
/// made, what arrived, and that it is over; or only why it could not be made.
pub open spec fn link_shows(made: Result<(), Seq<char>>, list: Seq<Arrival>) -> Seq<ServerView> {
    match made {
        Ok(()) => told(link_next(LinkEventView::Connected)) + taken_in(list) + told(
            link_next(LinkEventView::Ended),
        ),
        Err(why) => told(link_next(LinkEventView::ConnectFailed(why))),
    }
}

/// The texts that go out to the server when these messages are sent one after the other.
pub open spec fn sent_out(list: Seq<Outgoing>) -> Seq<Seq<char>>
    decreases list.len(),
{
    if list.len() == 0 {
        Seq::empty()
    } else {
        let offered = match list[0].text {
            Some(text) => LinkEventView::Encoded(text),
            None => LinkEventView::NotEncoded,
        };
        match link_next(offered) {
            LinkActionView::Send(text) => if list[0].taken {
                match link_next(LinkEventView::Sent) {
                    LinkActionView::Stop => seq![text],
                    _ => seq![text] + sent_out(list.skip(1)),
                }
            } else {
                match link_next(LinkEventView::NotSent) {
                    LinkActionView::Stop => Seq::empty(),
                    _ => sent_out(list.skip(1)),
                }
            },
            _ => sent_out(list.skip(1)),
        }
    }
}

/// The client's messages go out to the server as the server's go out to a client: one text each,
/// in order, and none once sending has failed.
pub proof fn law_sent_as_forwarded(list: Seq<Outgoing>)
    ensures
        sent_out(list) == forwarded(list),
    decreases list.len(),
{
    if list.len() > 0 {
        law_sent_as_forwarded(list.skip(1));
        assert(Seq::<Seq<char>>::empty() + forwarded(list.skip(1)) =~= forwarded(list.skip(1)));
    }
}

/// Nothing is shown of what comes behind a failure of the connection, or behind a message that
/// nobody took in.
pub proof fn law_nothing_is_shown_after_the_end(
    before: Seq<Arrival>,
    last: Arrival,
    behind: Seq<Arrival>,
)
    requires
        last.event is Failed || (last.event matches LinkEventView::Text(Some(_)) && !last.taken),
    ensures
        taken_in(before.push(last) + behind) == taken_in(before),
    decreases before.len(),
{
    let list = before.push(last) + behind;
    if before.len() == 0 {
        assert(list[0] == last);
    } else {
        assert(list[0] == before[0]);
        assert(list.skip(1) =~= before.skip(1).push(last) + behind);
        law_nothing_is_shown_after_the_end(before.skip(1), last, behind);
    }
}

/// Frames as they come from the server, a text or something else, while the window takes
/// everything in and `decode` tells which message a text holds.
pub open spec fn arrivals(
    frames: Seq<Option<Seq<char>>>,
    decode: spec_fn(Seq<char>) -> Option<ServerView>,
) -> Seq<Arrival> {
    frames.map_values(
        |frame: Option<Seq<char>>|
            Arrival {
                event: match frame {
                    Some(text) => LinkEventView::Text(decode(text)),
                    None => LinkEventView::Other,
                },
                taken: true,
            },
    )
}

/// The texts among these frames that hold a message, in order.
pub open spec fn meaningful(
    frames: Seq<Option<Seq<char>>>,
    decode: spec_fn(Seq<char>) -> Option<ServerView>,
) -> Seq<Seq<char>>
    decreases frames.len(),
{
    if frames.len() == 0 {
        Seq::empty()
    } else {
        match frames[0] {
            Some(text) if decode(text) is Some => seq![text] + meaningful(frames.skip(1), decode),
            _ => meaningful(frames.skip(1), decode),
        }
    }
}

proof fn lemma_taken_in(
    frames: Seq<Option<Seq<char>>>,
    decode: spec_fn(Seq<char>) -> Option<ServerView>,
)
    ensures
        ({
            let shown = taken_in(arrivals(frames, decode));
            let texts = meaningful(frames, decode);
            &&& shown.len() == texts.len()
            &&& forall|i: int|
                0 <= i < texts.len() ==> Some(#[trigger] shown[i]) == decode(texts[i])
        }),
    decreases frames.len(),
{
    let list = arrivals(frames, decode);
    if frames.len() > 0 {
        let rest = frames.skip(1);
        lemma_taken_in(rest, decode);
        assert(list.skip(1) =~= arrivals(rest, decode));
        let shown = taken_in(list);
        let texts = meaningful(frames, decode);
        assert forall|i: int| 0 <= i < texts.len() implies Some(#[trigger] shown[i]) == decode(
            texts[i],
        ) by {
            if texts.len() > meaningful(rest, decode).len() && i > 0 {
                assert(shown[i] == taken_in(arrivals(rest, decode))[i - 1]);
                assert(texts[i] == meaningful(rest, decode)[i - 1]);
            }
        }
    }
}

/// Messages on their way out under an encoding, over a connection that takes them all.
pub open spec fn outgoing(
    messages: Seq<ServerView>,
    encode: spec_fn(ServerView) -> Option<Seq<char>>,
) -> Seq<Outgoing> {
    messages.map_values(|m: ServerView| Outgoing { text: encode(m), taken: true })
}

/// What the server forwards reaches the window, as it was and in order, between the news that
/// the link is made and the news that it is over. Whatever else arrives, texts that hold no
/// message and frames that are no text, is passed over. This holds of any encoding of messages as
/// texts that decoding undoes.
pub proof fn law_server_messages_reach_the_window(
    messages: Seq<ServerView>,
    encode: spec_fn(ServerView) -> Option<Seq<char>>,
    decode: spec_fn(Seq<char>) -> Option<ServerView>,
    frames: Seq<Option<Seq<char>>>,
)
    requires
        forall|i: int|
            0 <= i < messages.len() ==> (encode(#[trigger] messages[i]) matches Some(text)
                && decode(text) == Some(messages[i])),
        meaningful(frames, decode) == forwarded(outgoing(messages, encode)),
    ensures
        link_shows(Ok(()), arrivals(frames, decode)) == seq![
            ServerView::Error { message: "Connesso al server!"@ },
        ] + messages + seq![ServerView::Error { message: "Disconnesso dal server."@ }],
{
    let list = outgoing(messages, encode);
    assert forall|i: int| 0 <= i < list.len() implies (#[trigger] list[i]).text is Some
        && list[i].taken by {
        assert(list[i].text == encode(messages[i]));
    }
    law_one_text_each_in_order(list);
    lemma_taken_in(frames, decode);
    let shown = taken_in(arrivals(frames, decode));
    assert forall|i: int| 0 <= i < messages.len() implies shown[i] == messages[i] by {
        assert(Some(forwarded(list)[i]) == list[i].text);
        assert(encode(messages[i]) == list[i].text);
    }
    assert(shown =~= messages);
}

/// A link that cannot be made shows why, and nothing else.
pub proof fn law_a_link_that_fails_says_why(why: Seq<char>, list: Seq<Arrival>)
    ensures
        link_shows(Err(why), list) == seq![
            ServerView::Error { message: "Connessione fallita: "@ + why },
        ],
{
}

/// Every message of the server is shown as it is, whatever message it is, and every text of the
/// client is sent as it is. Nothing ends a direction but a failure of it, and nothing ends the
/// link but its end.
pub proof fn law_link_events(message: ServerView, text: Seq<char>)
    ensures
        link_next(LinkEventView::Text(Some(message))) == LinkActionView::Show(message),
        link_next(LinkEventView::Encoded(text)) == LinkActionView::Send(text),
        link_next(LinkEventView::Text(None)) is Next,
        link_next(LinkEventView::Other) is Next,
        link_next(LinkEventView::Taken) is Next,
        link_next(LinkEventView::NotEncoded) is Next,
        link_next(LinkEventView::Sent) is Next,
        link_next(LinkEventView::NotSent) is Stop,
        link_next(LinkEventView::NotTaken) is Stop,
        link_next(LinkEventView::Failed) is Stop,
        link_next(LinkEventView::Connected) == LinkActionView::Show(
            ServerView::Error { message: "Connesso al server!"@ },
        ),
        link_next(LinkEventView::ConnectFailed(text)) == LinkActionView::ShowAndStop(
            ServerView::Error { message: "Connessione fallita: "@ + text },
        ),
        link_next(LinkEventView::Ended) == LinkActionView::ShowAndStop(
            ServerView::Error { message: "Disconnesso dal server."@ },
        ),
{
}

/// The views of how the link goes and of what to do about it show all there is to them.
pub proof fn law_links_are_viewed_whole(message: ServerMessage, text: String)
    ensures
        LinkEvent::ConnectFailed(text)@ == LinkEventView::ConnectFailed(text@),
        LinkEvent::Connected@ is Connected && LinkEvent::Ended@ is Ended,
        LinkEvent::Encoded(text)@ == LinkEventView::Encoded(text@),
        LinkEvent::NotEncoded@ is NotEncoded,
        LinkEvent::Sent@ is Sent && LinkEvent::NotSent@ is NotSent,
        LinkEvent::Text(Some(message))@ == LinkEventView::Text(Some(message@)),
        LinkEvent::Text(None)@ == LinkEventView::Text(None),
        LinkEvent::Other@ is Other && LinkEvent::Failed@ is Failed,
        LinkEvent::Taken@ is Taken && LinkEvent::NotTaken@ is NotTaken,
        LinkAction::Show(message)@ == LinkActionView::Show(message@),
        LinkAction::ShowAndStop(message)@ == LinkActionView::ShowAndStop(message@),
        LinkAction::Send(text)@ == LinkActionView::Send(text@),
        LinkAction::Next@ is Next && LinkAction::Stop@ is Stop,
{
}

} // verus!
