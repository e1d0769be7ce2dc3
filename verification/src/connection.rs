//! A client's connection, as the server sees it.
use crate::messages::{
    option_client, option_server, ClientMessage, ClientView, ServerMessage, ServerView,
};
use vstd::prelude::*;

verus! {

/// What arrives over a connection.
#[derive(Debug, PartialEq, Eq)]
pub enum Frame {
    /// A text: the message it holds, if it holds one.
    Text(Option<ClientMessage>),
    Binary,
    Close,
    Ping,
    Other,
    /// No frame, but the news that the connection has failed.
    Failed,
}

/// The view of a [`Frame`].
pub enum FrameView {
    Text(Option<ClientView>),
    Binary,
    Close,
    Ping,
    Other,
    Failed,
}

impl View for Frame {
    type V = FrameView;

    open spec fn view(&self) -> FrameView {
        match *self {
            Frame::Text(message) => FrameView::Text(option_client(message)),
            Frame::Binary => FrameView::Binary,
            Frame::Close => FrameView::Close,
            Frame::Ping => FrameView::Ping,
            Frame::Other => FrameView::Other,
            Frame::Failed => FrameView::Failed,
        }
    }
}

/// What to do about what has arrived.
#[derive(Debug, PartialEq, Eq)]
pub enum Incoming {
    /// Deal with the message.
    Handle(ClientMessage),
    /// Answer without more ado.
    Tell(ServerMessage),
    Ignore,
    /// Read no further.
    Stop,
}

/// The view of an [`Incoming`].
pub enum IncomingView {
    Handle(ClientView),
    Tell(ServerView),
    Ignore,
    Stop,
}

impl View for Incoming {
    type V = IncomingView;

    open spec fn view(&self) -> IncomingView {
        match *self {
            Incoming::Handle(message) => IncomingView::Handle(message@),
            Incoming::Tell(message) => IncomingView::Tell(message@),
            Incoming::Ignore => IncomingView::Ignore,
            Incoming::Stop => IncomingView::Stop,
        }
    }
}

/// What is done about a `frame`: texts that hold no message are answered with an error, a close
/// or a failure ends the connection, and all other frames but texts are ignored.
pub open spec fn heeded(frame: FrameView) -> IncomingView {
    match frame {
        FrameView::Text(Some(message)) => IncomingView::Handle(message),
        FrameView::Text(None) => IncomingView::Tell(
            ServerView::Error { message: "JSON non valido"@ },
        ),
        FrameView::Close | FrameView::Failed => IncomingView::Stop,
        FrameView::Binary | FrameView::Ping | FrameView::Other => IncomingView::Ignore,
    }
}

/// Decides what to do about a `frame`.
pub fn process_incoming_message(frame: Frame) -> (incoming: Incoming)
    ensures
        incoming@ == heeded(frame@),
{
    match frame {
        Frame::Text(Some(message)) => Incoming::Handle(message),
        Frame::Text(None) => Incoming::Tell(
            ServerMessage::Error { message: "JSON non valido".to_owned() },
        ),
        Frame::Close | Frame::Failed => Incoming::Stop,
        Frame::Binary | Frame::Ping | Frame::Other => Incoming::Ignore,
    }
}

/// How an exchange has ended, its text by its view.
pub open spec fn ending(result: Result<(), String>) -> Result<(), Seq<char>> {
    match result {
        Ok(()) => Ok(()),
        Err(text) => Err(text@),
    }
}

/// What the client is told of how the exchange on its message ended: nothing, unless it failed.
pub open spec fn reported(result: Result<(), Seq<char>>) -> Option<ServerView> {
    match result {
        Ok(()) => None,
        Err(text) => Some(ServerView::Error { message: text }),
    }
}

/// What to tell the client of how the exchange on its message ended.
pub fn exchange_report(result: Result<(), String>) -> (report: Option<ServerMessage>)
    ensures
        option_server(report) == reported(ending(result)),
{
    match result {
        Ok(()) => None,
        Err(text) => Some(ServerMessage::Error { message: text }),
    }
}

/// How forwarding messages to a client goes.
#[derive(Debug, PartialEq, Eq)]
pub enum ForwardEvent {
    /// The next message, as a text.
    Encoded(String),
    /// The next message has no text.
    NotEncoded,
    Sent,
    NotSent,
}

/// The view of a [`ForwardEvent`].
pub enum ForwardEventView {
    Encoded(Seq<char>),
    NotEncoded,
    Sent,
    NotSent,
}

impl View for ForwardEvent {
    type V = ForwardEventView;

    open spec fn view(&self) -> ForwardEventView {
        match *self {
            ForwardEvent::Encoded(text) => ForwardEventView::Encoded(text@),
            ForwardEvent::NotEncoded => ForwardEventView::NotEncoded,
            ForwardEvent::Sent => ForwardEventView::Sent,
            ForwardEvent::NotSent => ForwardEventView::NotSent,
        }
    }
}

/// What to do about forwarding.
#[derive(Debug, PartialEq, Eq)]
pub enum ForwardAction {
    Send(String),
    /// Wait for the next message.
    Next,
    /// Forward no more.
    Stop,
}

/// The view of a [`ForwardAction`].
pub enum ForwardActionView {
    Send(Seq<char>),
    Next,
    Stop,
}

impl View for ForwardAction {
    type V = ForwardActionView;

    open spec fn view(&self) -> ForwardActionView {
        match *self {
            ForwardAction::Send(text) => ForwardActionView::Send(text@),
            ForwardAction::Next => ForwardActionView::Next,
            ForwardAction::Stop => ForwardActionView::Stop,
        }
    }
}

/// How forwarding goes on: a message without a text is passed over, and a failure to send is the
/// end.
pub open spec fn forward_next(event: ForwardEventView) -> ForwardActionView {
    match event {
        ForwardEventView::Encoded(text) => ForwardActionView::Send(text),
        ForwardEventView::NotEncoded | ForwardEventView::Sent => ForwardActionView::Next,
        ForwardEventView::NotSent => ForwardActionView::Stop,
    }
}

/// Decides how forwarding goes on.
pub fn forward_to_websocket(event: ForwardEvent) -> (action: ForwardAction)
    ensures
        action@ == forward_next(event@),
{
    match event {
        ForwardEvent::Encoded(text) => ForwardAction::Send(text),
        ForwardEvent::NotEncoded | ForwardEvent::Sent => ForwardAction::Next,
        ForwardEvent::NotSent => ForwardAction::Stop,
    }
}

/// A message on its way out: its text, if it has one, and whether the connection takes it.
pub struct Outgoing {
    pub text: Option<Seq<char>>,
    pub taken: bool,
}

impl Outgoing {
    /// The message itself, as an event.
    pub open spec fn offered(self) -> ForwardEventView {
        match self.text {
            Some(text) => ForwardEventView::Encoded(text),
            None => ForwardEventView::NotEncoded,
        }
    }

    /// How sending it goes.
    pub open spec fn tried(self) -> ForwardEventView {
        if self.taken {
            ForwardEventView::Sent
        } else {
            ForwardEventView::NotSent
        }
    }
}

/// The texts that go out when these messages are forwarded one after the other.
pub open spec fn forwarded(list: Seq<Outgoing>) -> Seq<Seq<char>>
    decreases list.len(),
{
    if list.len() == 0 {
        Seq::empty()
    } else {
        match forward_next(list[0].offered()) {
            ForwardActionView::Send(text) => {
                let out = if list[0].taken {
                    seq![text]
                } else {
                    Seq::empty()
                };
                match forward_next(list[0].tried()) {
                    ForwardActionView::Stop => out,
                    _ => out + forwarded(list.skip(1)),
                }
            },
            ForwardActionView::Next => forwarded(list.skip(1)),
            ForwardActionView::Stop => Seq::empty(),
        }
    }
}

/// As long as every message has a text and sending works, each goes out as one text, in order.
pub proof fn law_one_text_each_in_order(list: Seq<Outgoing>)
    requires
        forall|i: int| 0 <= i < list.len() ==> (#[trigger] list[i]).text is Some && list[i].taken,
    ensures
        forwarded(list).len() == list.len(),
        forall|i: int|
            0 <= i < list.len() ==> Some(#[trigger] forwarded(list)[i]) == list[i].text,
    decreases list.len(),
{
    if list.len() > 0 {
        let rest = list.skip(1);
        law_one_text_each_in_order(rest);
        assert forall|i: int| 0 <= i < list.len() implies Some(#[trigger] forwarded(list)[i])
            == list[i].text by {
            if i > 0 {
                assert(forwarded(list)[i] == forwarded(rest)[i - 1]);
                assert(rest[i - 1] == list[i]);
            }
        }
    }
}

/// Once sending a text has failed, nothing more goes out.
pub proof fn law_nothing_goes_out_after_a_failure(
    before: Seq<Outgoing>,
    failed: Outgoing,
    after: Seq<Outgoing>,
)
    requires
        failed.text is Some,
        !failed.taken,
    ensures
        forwarded(before.push(failed) + after) == forwarded(before),
    decreases before.len(),
{
    let list = before.push(failed) + after;
    if before.len() == 0 {
        assert(list[0] == failed);
    } else {
        assert(list[0] == before[0]);
        assert(list.skip(1) =~= before.skip(1).push(failed) + after);
        law_nothing_goes_out_after_a_failure(before.skip(1), failed, after);
    }
}

/// A message without a text is passed over: what goes out is as if it were not there.
pub proof fn law_messages_without_a_text_are_passed_over(
    before: Seq<Outgoing>,
    silent: Outgoing,
    after: Seq<Outgoing>,
)
    requires
        silent.text is None,
    ensures
        forwarded(before.push(silent) + after) == forwarded(before + after),
    decreases before.len(),
{
    let list = before.push(silent) + after;
    let without = before + after;
    if before.len() == 0 {
        assert(list[0] == silent);
        assert(list.skip(1) =~= without);
    } else {
        assert(list[0] == before[0] && without[0] == before[0]);
        assert(list.skip(1) =~= before.skip(1).push(silent) + after);
        assert(without.skip(1) =~= before.skip(1) + after);
        law_messages_without_a_text_are_passed_over(before.skip(1), silent, after);
    }
}

/// Every message that a text holds is dealt with, whatever message it is, and as the message it
/// is. A text that holds none is answered with an error. Only a close or a failure ends the
/// reading.
pub proof fn law_every_message_is_dealt_with(message: ClientView, frame: FrameView)
    ensures
        heeded(FrameView::Text(Some(message))) == IncomingView::Handle(message),
        heeded(FrameView::Text(None)) == IncomingView::Tell(
            ServerView::Error { message: "JSON non valido"@ },
        ),
        heeded(frame) is Stop <==> frame is Close || frame is Failed,
        heeded(frame) is Ignore <==> frame is Binary || frame is Ping || frame is Other,
{
}

/// The client is told of every exchange that failed, in the words it failed with, and of none
/// that did not.
pub proof fn law_failures_are_reported(text: Seq<char>)
    ensures
        reported(Err(text)) == Some(ServerView::Error { message: text }),
        reported(Ok(())) is None,
{
}

/// Every text is sent as it is; only a failure to send ends the forwarding, and what was sent or
/// has no text is followed by the next message.
pub proof fn law_forwarding(text: Seq<char>)
    ensures
        forward_next(ForwardEventView::Encoded(text)) == ForwardActionView::Send(text),
        forward_next(ForwardEventView::NotEncoded) is Next,
        forward_next(ForwardEventView::Sent) is Next,
        forward_next(ForwardEventView::NotSent) is Stop,
{
}

/// The views of frames, of what to do about them, and of how forwarding goes show all there is to
/// them.
pub proof fn law_frames_are_viewed_whole(
    incoming: ClientMessage,
    outgoing: ServerMessage,
    text: String,
)
    ensures
        Frame::Text(Some(incoming))@ == FrameView::Text(Some(incoming@)),
        Frame::Text(None)@ == FrameView::Text(None),
        Frame::Close@ is Close && Frame::Failed@ is Failed,
        Frame::Binary@ is Binary && Frame::Ping@ is Ping && Frame::Other@ is Other,
        Incoming::Handle(incoming)@ == IncomingView::Handle(incoming@),
        Incoming::Tell(outgoing)@ == IncomingView::Tell(outgoing@),
        Incoming::Ignore@ is Ignore && Incoming::Stop@ is Stop,
        ending(Err(text)) == Err::<(), Seq<char>>(text@),
        ending(Ok(())) is Ok,
        option_server(Some(outgoing)) == Some(outgoing@),
        option_server(None) is None,
        ForwardEvent::Encoded(text)@ == ForwardEventView::Encoded(text@),
        ForwardEvent::NotEncoded@ is NotEncoded,
        ForwardEvent::Sent@ is Sent && ForwardEvent::NotSent@ is NotSent,
        ForwardAction::Send(text)@ == ForwardActionView::Send(text@),
        ForwardAction::Next@ is Next && ForwardAction::Stop@ is Stop,
{
}

} // verus!
