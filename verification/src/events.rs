//! The stream of events that a browser listens to.

use vstd::prelude::*;

verus! {

/// How often a silent stream is kept alive, in seconds.
pub const KEEP_ALIVE_SECS: u64 = 30;

/// What a silent stream is kept alive with.
pub const KEEP_ALIVE_TEXT: &'static str = "ping";

/// The event of a server that has been stopped.
pub const SHUTDOWN_EVENT: &'static str = "{\"type\":\"shutdown\"}";

/// What happened to the stream.
#[derive(Debug)]
pub enum StreamInput {
    /// A new turn begins.
    Turn { running: bool },
    /// An event came.
    Message { data: String },
    /// Events were lost, since the stream was too slow for them.
    Lagged,
    /// No more events come.
    Closed,
}

/// What the stream does.
#[derive(Debug)]
pub enum StreamAction {
    /// Wait for an event.
    Receive,
    /// Send an event and begin a new turn.
    Send { data: String },
    /// Begin a new turn.
    Skip,
    /// Send an event and end.
    SendLast { data: String },
    /// End.
    End,
}

/// A `StreamAction` as the contracts see it.
pub enum ActionView {
    Receive,
    Send { data: Seq<char> },
    Skip,
    SendLast { data: Seq<char> },
    End,
}

impl View for StreamAction {
    type V = ActionView;

    open spec fn view(&self) -> ActionView {
        match self {
            StreamAction::Receive => ActionView::Receive,
            StreamAction::Send { data } => ActionView::Send { data: data@ },
            StreamAction::Skip => ActionView::Skip,
            StreamAction::SendLast { data } => ActionView::SendLast { data: data@ },
            StreamAction::End => ActionView::End,
        }
    }
}

/// What the stream does on what happened to it.
pub open spec fn reaction(input: StreamInput) -> ActionView {
    match input {
        StreamInput::Turn { running } => if running {
            ActionView::Receive
        } else {
            ActionView::SendLast { data: SHUTDOWN_EVENT@ }
        },
        StreamInput::Message { data } => ActionView::Send { data: data@ },
        StreamInput::Lagged => ActionView::Skip,
        StreamInput::Closed => ActionView::End,
    }
}

/// What the stream does on what happened to it.
pub fn sse_events(input: StreamInput) -> (action: StreamAction)
    ensures
        action@ == reaction(input),
{
    match input {
        StreamInput::Turn { running } => if running {
            StreamAction::Receive
        } else {
            StreamAction::SendLast { data: SHUTDOWN_EVENT.to_string() }
        },
        StreamInput::Message { data } => StreamAction::Send { data },
        StreamInput::Lagged => StreamAction::Skip,
        StreamInput::Closed => StreamAction::End,
    }
}

/// What a stream sends on all that happens to it, until it ends.
pub open spec fn sent(inputs: Seq<StreamInput>) -> Seq<Seq<char>>
    decreases inputs.len(),
{
    if inputs.len() == 0 {
        Seq::empty()
    } else {
        match reaction(inputs[0]) {
            ActionView::Send { data } => seq![data] + sent(inputs.skip(1)),
            ActionView::SendLast { data } => seq![data],
            ActionView::End => Seq::empty(),
            _ => sent(inputs.skip(1)),
        }
    }
}

/// The events that came, in their order.
pub open spec fn messages(inputs: Seq<StreamInput>) -> Seq<Seq<char>>
    decreases inputs.len(),
{
    if inputs.len() == 0 {
        Seq::empty()
    } else if let StreamInput::Message { data } = inputs[0] {
        seq![data@] + messages(inputs.skip(1))
    } else {
        messages(inputs.skip(1))
    }
}

/// While the server runs and the stream is open, every event that comes is sent,
/// in the order in which they come, and nothing else is.
pub proof fn events_are_passed_on(inputs: Seq<StreamInput>)
    requires
        forall|i: int|
            0 <= i < inputs.len() ==> !(#[trigger] inputs[i] is Closed) && inputs[i] != (
            StreamInput::Turn { running: false }),
    ensures
        sent(inputs) == messages(inputs),
    decreases inputs.len(),
{
    if inputs.len() > 0 {
        let rest = inputs.skip(1);
        assert forall|i: int| 0 <= i < rest.len() implies !(#[trigger] rest[i] is Closed) && rest[i]
            != (StreamInput::Turn { running: false }) by {
            assert(rest[i] == inputs[i + 1]);
        }
        events_are_passed_on(rest);
        assert(!(inputs[0] is Closed));
    }
}

/// A stream whose server was stopped says so and ends: nothing that happens
/// afterwards is sent.
pub proof fn shutdown_is_sent_last(before: Seq<StreamInput>, after: Seq<StreamInput>)
    requires
        forall|i: int|
            0 <= i < before.len() ==> !(#[trigger] before[i] is Closed) && before[i] != (
            StreamInput::Turn { running: false }),
    ensures
        sent(before.push(StreamInput::Turn { running: false }) + after) == messages(before).push(
            SHUTDOWN_EVENT@,
        ),
    decreases before.len(),
{
    let inputs = before.push(StreamInput::Turn { running: false }) + after;
    if before.len() == 0 {
        assert(inputs[0] == (StreamInput::Turn { running: false }));
        assert(sent(inputs) =~= seq![SHUTDOWN_EVENT@]);
    } else {
        let rest = before.skip(1);
        assert forall|i: int| 0 <= i < rest.len() implies !(#[trigger] rest[i] is Closed) && rest[i]
            != (StreamInput::Turn { running: false }) by {
            assert(rest[i] == before[i + 1]);
        }
        shutdown_is_sent_last(rest, after);
        assert(inputs.skip(1) =~= rest.push(StreamInput::Turn { running: false }) + after);
        assert(inputs[0] == before[0]);
        assert(!(before[0] is Closed));
        assert(sent(inputs) =~= messages(before).push(SHUTDOWN_EVENT@));
    }
}

/// What each input makes of the stream: it waits while the server runs, says so and
/// ends when it was stopped, sends what comes, goes on after a loss, and ends when
/// nothing more can come.
pub proof fn inputs_make_the_stream(data: String)
    ensures
        reaction(StreamInput::Turn { running: true }) == ActionView::Receive,
        reaction(StreamInput::Turn { running: false }) == (ActionView::SendLast {
            data: "{\"type\":\"shutdown\"}"@,
        }),
        reaction(StreamInput::Message { data }) == (ActionView::Send { data: data@ }),
        reaction(StreamInput::Lagged) == ActionView::Skip,
        reaction(StreamInput::Closed) == ActionView::End,
{
}

/// A stream that is closed sends nothing of what would come afterwards.
pub proof fn closed_stream_sends_nothing_more(before: Seq<StreamInput>, after: Seq<StreamInput>)
    ensures
        sent(before.push(StreamInput::Closed) + after) == sent(before.push(StreamInput::Closed)),
    decreases before.len(),
{
    let all = before.push(StreamInput::Closed) + after;
    let some = before.push(StreamInput::Closed);
    assert(all[0] == some[0]);
    if before.len() > 0 {
        let rest = before.skip(1);
        assert(all.skip(1) =~= rest.push(StreamInput::Closed) + after);
        assert(some.skip(1) =~= rest.push(StreamInput::Closed));
        closed_stream_sends_nothing_more(rest, after);
    }
}

/// The contracts see what an action sends.
pub proof fn actions_are_seen_whole(action: StreamAction)
    ensures
        match action {
            StreamAction::Receive => action@ == ActionView::Receive,
            StreamAction::Send { data } => action@ == (ActionView::Send { data: data@ }),
            StreamAction::Skip => action@ == ActionView::Skip,
            StreamAction::SendLast { data } => action@ == (ActionView::SendLast { data: data@ }),
            StreamAction::End => action@ == ActionView::End,
        },
{
}

} // verus!
