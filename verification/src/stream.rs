//! The streaming of a response, chunk by chunk.
//!
//! A [`ResponseStream`] says what to do next; the caller does it and says what came of
//! it. So a chunk is read only when the one before it was taken off the caller's hands.

use crate::error::{ErrorView, ProxyError};
use crate::upstream::{build_client, REQUEST_TIMEOUT_SECS};
use reqwest::Client;
use vstd::prelude::*;
use vstd::utf8::*;

verus! {

/// How many items may wait for the reader of a stream.
pub const STREAM_BUFFER: usize = 4;

/// Why bytes are not text; opaque here.
#[verifier::external_type_specification]
#[verifier::external_body]
pub struct ExUtf8Error(std::string::FromUtf8Error);

/// `String::from_utf8` takes exactly the byte sequences that are UTF-8, and makes of them
/// the text that they encode.
pub assume_specification[ String::from_utf8 ](vec: Vec<u8>) -> (text: Result<
    String,
    std::string::FromUtf8Error,
>)
    ensures
        match text {
            Ok(t) => valid_utf8(vec@) && t@ == decode_utf8(vec@),
            Err(_) => !valid_utf8(vec@),
        },
;

/// How far a stream is.
#[derive(Clone, Copy, PartialEq, Eq, Structural, Debug)]
pub enum StreamState {
    /// Not started.
    Fresh,
    /// Waiting for a token of the rate limit.
    Admitting,
    /// Waiting for a client.
    Connecting,
    /// Waiting for the target to respond.
    Requesting,
    /// Waiting for the next chunk of the response.
    Reading,
    /// Waiting for the reader to take an item, with more to come.
    Delivering,
    /// Waiting for the reader to take the last item.
    Closing,
    /// At its end.
    Closed,
}

/// What came of the last action.
pub enum StreamEvent {
    /// The stream is started.
    Started,
    /// What the rate limit answered.
    Admitted(Result<(), ProxyError>),
    /// Whether a client could be made.
    Connected(Result<Client, reqwest::Error>),
    /// Whether the target responded.
    Responded(Result<(), reqwest::Error>),
    /// The next chunk of the response, or that reading failed, or that there is no more.
    Read(Option<Result<Vec<u8>, reqwest::Error>>),
    /// Whether there still is a reader, who took the item.
    Delivered(bool),
}

/// What is to be done next.
pub enum StreamAction {
    /// Ask the rate limit for a token.
    Acquire,
    /// Make a client with [`ResponseStream::connect`].
    Connect,
    /// Send a `GET` of the target over this client.
    Request(Client),
    /// Read the next chunk of the response.
    Read,
    /// Hand this item to the reader.
    Deliver(Result<String, ProxyError>),
    /// Nothing: the stream is at its end.
    Stop,
}

/// What a chunk of the response holds, or why there is none.
pub type ChunkView = Result<Seq<u8>, reqwest::Error>;

/// What the reader of a stream gets.
pub type ItemView = Result<Seq<char>, ErrorView>;

/// What a [`StreamEvent`] says, with bytes as a sequence.
pub enum EventView {
    Started,
    Admitted(Result<(), ErrorView>),
    Connected(Result<Client, reqwest::Error>),
    Responded(Result<(), reqwest::Error>),
    Read(Option<ChunkView>),
    Delivered(bool),
}

/// What a [`StreamAction`] asks for, with text as a sequence.
pub enum ActionView {
    Acquire,
    Connect,
    Request(Client),
    Read,
    Deliver(ItemView),
    Stop,
}

impl View for StreamEvent {
    type V = EventView;

    open spec fn view(&self) -> EventView {
        match *self {
            StreamEvent::Started => EventView::Started,
            StreamEvent::Admitted(Ok(())) => EventView::Admitted(Ok(())),
            StreamEvent::Admitted(Err(e)) => EventView::Admitted(Err(e@)),
            StreamEvent::Connected(built) => EventView::Connected(built),
            StreamEvent::Responded(response) => EventView::Responded(response),
            StreamEvent::Read(Some(Ok(bytes))) => EventView::Read(Some(Ok(bytes@))),
            StreamEvent::Read(Some(Err(e))) => EventView::Read(Some(Err(e))),
            StreamEvent::Read(None) => EventView::Read(None),
            StreamEvent::Delivered(taken) => EventView::Delivered(taken),
        }
    }
}

impl View for StreamAction {
    type V = ActionView;

    open spec fn view(&self) -> ActionView {
        match *self {
            StreamAction::Acquire => ActionView::Acquire,
            StreamAction::Connect => ActionView::Connect,
            StreamAction::Request(client) => ActionView::Request(client),
            StreamAction::Read => ActionView::Read,
            StreamAction::Deliver(Ok(text)) => ActionView::Deliver(Ok(text@)),
            StreamAction::Deliver(Err(e)) => ActionView::Deliver(Err(e@)),
            StreamAction::Stop => ActionView::Stop,
        }
    }
}

impl StreamState {
    /// Whether an event is one that this state waits for.
    pub open spec fn expects(self, event: EventView) -> bool {
        match self {
            StreamState::Fresh => event is Started,
            StreamState::Admitting => event is Admitted,
            StreamState::Connecting => event is Connected,
            StreamState::Requesting => event is Responded,
            StreamState::Reading => event is Read,
            StreamState::Delivering => event is Delivered,
            StreamState::Closing => event is Delivered,
            StreamState::Closed => false,
        }
    }
}

impl ActionView {
    /// Whether an event can come of this action.
    pub open spec fn leads_to(self, event: EventView) -> bool {
        match self {
            ActionView::Acquire => event is Admitted,
            ActionView::Connect => event is Connected,
            ActionView::Request(_) => event is Responded,
            ActionView::Read => event is Read,
            ActionView::Deliver(_) => event is Delivered,
            ActionView::Stop => false,
        }
    }
}

/// The last item of a stream that cannot go on.
pub open spec fn give_up(e: ErrorView) -> (StreamState, ActionView) {
    (StreamState::Closing, ActionView::Deliver(Err(e)))
}

/// The next state and action, for an event that the state waits for. A chunk that is not
/// UTF-8 is left out.
pub open spec fn stream_step(state: StreamState, event: EventView) -> (StreamState, ActionView) {
    match event {
        EventView::Started => (StreamState::Admitting, ActionView::Acquire),
        EventView::Admitted(Ok(())) => (StreamState::Connecting, ActionView::Connect),
        EventView::Admitted(Err(e)) => give_up(e),
        EventView::Connected(Ok(client)) => (StreamState::Requesting, ActionView::Request(client)),
        EventView::Connected(Err(e)) => give_up(ErrorView::HttpClient(e)),
        EventView::Responded(Ok(())) => (StreamState::Reading, ActionView::Read),
        EventView::Responded(Err(e)) => give_up(ErrorView::HttpClient(e)),
        EventView::Read(Some(Ok(bytes))) => if valid_utf8(bytes) {
            (StreamState::Delivering, ActionView::Deliver(Ok(decode_utf8(bytes))))
        } else {
            (StreamState::Reading, ActionView::Read)
        },
        EventView::Read(Some(Err(e))) => give_up(ErrorView::HttpClient(e)),
        EventView::Read(None) => (StreamState::Closed, ActionView::Stop),
        EventView::Delivered(taken) => if taken && state == StreamState::Delivering {
            (StreamState::Reading, ActionView::Read)
        } else {
            (StreamState::Closed, ActionView::Stop)
        },
    }
}

/// A response on its way to a reader.
pub struct ResponseStream {
    target: String,
    state: StreamState,
}

/// The state of a [`ResponseStream`].
#[verifier::ext_equal]
pub struct StreamView {
    /// The URL that is streamed.
    pub target: Seq<char>,
    /// How far the stream is.
    pub state: StreamState,
}

impl View for ResponseStream {
    type V = StreamView;

    closed spec fn view(&self) -> StreamView {
        StreamView { target: self.target@, state: self.state }
    }
}

impl ResponseStream {
    /// A stream of what is at `target`.
    pub fn new(target: String) -> (stream: Self)
        ensures
            stream@ == (StreamView { target: target@, state: StreamState::Fresh }),
    {
        ResponseStream { target, state: StreamState::Fresh }
    }

    /// The URL that is streamed.
    pub fn target(&self) -> (target: &str)
        ensures
            target@ == self@.target,
    {
        self.target.as_str()
    }

    /// How far the stream is.
    pub fn state(&self) -> (state: StreamState)
        ensures
            state == self@.state,
    {
        self.state
    }

    /// Makes the client that the target is asked with. Whether that can be done depends on
    /// the machine.
    pub fn connect(&self) -> (built: Result<Client, reqwest::Error>)
        ensures
            built matches Ok(client) ==> crate::upstream::client_timeout_secs(client)
                == REQUEST_TIMEOUT_SECS && crate::upstream::client_idle_limit(client)
                == usize::MAX,
    {
        build_client(REQUEST_TIMEOUT_SECS, usize::MAX)
    }

    /// Takes in what came of the last action and says what to do next.
    pub fn step(&mut self, event: StreamEvent) -> (action: StreamAction)
        requires
            old(self)@.state.expects(event@),
        ensures
            final(self)@ == (StreamView {
                state: stream_step(old(self)@.state, event@).0,
                ..old(self)@
            }),
            action@ == stream_step(old(self)@.state, event@).1,
            event matches StreamEvent::Read(Some(Ok(bytes))) ==> valid_utf8(bytes@) ==> (
            action matches StreamAction::Deliver(Ok(text)) && text@ == decode_utf8(bytes@)),
            event matches StreamEvent::Read(Some(Err(e))) ==> action == StreamAction::Deliver(
                Err(ProxyError::HttpClient(e)),
            ),
            event matches StreamEvent::Connected(Err(e)) ==> action == StreamAction::Deliver(
                Err(ProxyError::HttpClient(e)),
            ),
            event matches StreamEvent::Responded(Err(e)) ==> action == StreamAction::Deliver(
                Err(ProxyError::HttpClient(e)),
            ),
            event matches StreamEvent::Admitted(Err(e)) ==> action == StreamAction::Deliver(
                Err(e),
            ),
            event matches StreamEvent::Connected(Ok(client)) ==> action == StreamAction::Request(
                client,
            ),
    {
        match event {
            StreamEvent::Started => {
                self.state = StreamState::Admitting;
                StreamAction::Acquire
            },
            StreamEvent::Admitted(Ok(())) => {
                self.state = StreamState::Connecting;
                StreamAction::Connect
            },
            StreamEvent::Admitted(Err(e)) => self.fail(e),
            StreamEvent::Connected(Ok(client)) => {
                self.state = StreamState::Requesting;
                StreamAction::Request(client)
            },
            StreamEvent::Connected(Err(e)) => self.fail(ProxyError::HttpClient(e)),
            StreamEvent::Responded(Ok(())) => {
                self.state = StreamState::Reading;
                StreamAction::Read
            },
            StreamEvent::Responded(Err(e)) => self.fail(ProxyError::HttpClient(e)),
            StreamEvent::Read(Some(Ok(bytes))) => match String::from_utf8(bytes) {
                Ok(text) => {
                    self.state = StreamState::Delivering;
                    StreamAction::Deliver(Ok(text))
                },
                Err(_) => {
                    self.state = StreamState::Reading;
                    StreamAction::Read
                },
            },
            StreamEvent::Read(Some(Err(e))) => self.fail(ProxyError::HttpClient(e)),
            StreamEvent::Read(None) => {
                self.state = StreamState::Closed;
                StreamAction::Stop
            },
            StreamEvent::Delivered(taken) => {
                if taken && self.state == StreamState::Delivering {
                    self.state = StreamState::Reading;
                    StreamAction::Read
                } else {
                    self.state = StreamState::Closed;
                    StreamAction::Stop
                }
            },
        }
    }

    /// Hands the reader a last item.
    fn fail(&mut self, e: ProxyError) -> (action: StreamAction)
        ensures
            final(self)@ == (StreamView { state: give_up(e@).0, ..old(self)@ }),
            action@ == give_up(e@).1,
            action == StreamAction::Deliver(Err(e)),
    {
        self.state = StreamState::Closing;
        StreamAction::Deliver(Err(e))
    }
}

/// What an event tells a stream is all that happened: every byte of a chunk, and the very
/// error that came.
pub proof fn event_tells_all(bytes: Vec<u8>, e: ProxyError, failed: reqwest::Error, client: Client)
    ensures
        StreamEvent::Read(Some(Ok(bytes)))@ == EventView::Read(Some(Ok(bytes@))),
        StreamEvent::Read(Some(Err(failed)))@ == EventView::Read(Some(Err(failed))),
        StreamEvent::Read(None)@ == EventView::Read(None),
        StreamEvent::Admitted(Ok(()))@ == EventView::Admitted(Ok(())),
        StreamEvent::Admitted(Err(e))@ == EventView::Admitted(Err(e@)),
        StreamEvent::Connected(Ok(client))@ == EventView::Connected(Ok(client)),
        StreamEvent::Connected(Err(failed))@ == EventView::Connected(Err(failed)),
        StreamEvent::Responded(Ok(()))@ == EventView::Responded(Ok(())),
        StreamEvent::Responded(Err(failed))@ == EventView::Responded(Err(failed)),
        StreamEvent::Started@ == EventView::Started,
        StreamEvent::Delivered(true)@ == EventView::Delivered(true),
        StreamEvent::Delivered(false)@ == EventView::Delivered(false),
{
}

/// What an action asks for is read off its view: the whole text or the very error that is
/// handed over, and the client that the target is asked with.
pub proof fn action_tells_all(action: StreamAction, text: Seq<char>, e: ErrorView, client: Client)
    ensures
        action@ == ActionView::Deliver(Ok(text)) <==> (action matches StreamAction::Deliver(Ok(t))
            && t@ == text),
        action@ == ActionView::Deliver(Err(e)) <==> (action matches StreamAction::Deliver(Err(f))
            && f@ == e),
        action@ == ActionView::Request(client) <==> action == StreamAction::Request(client),
        action@ == ActionView::Acquire <==> action == StreamAction::Acquire,
        action@ == ActionView::Connect <==> action == StreamAction::Connect,
        action@ == ActionView::Read <==> action == StreamAction::Read,
        action@ == ActionView::Stop <==> action == StreamAction::Stop,
{
}

/// A stream waits for one kind of event at a time and takes every event of that kind: any
/// chunk and any failure.
pub proof fn stream_takes_whatever_comes(state: StreamState, event: EventView)
    ensures
        state.expects(event) <==> {
            ||| state == StreamState::Fresh && event is Started
            ||| state == StreamState::Admitting && event is Admitted
            ||| state == StreamState::Connecting && event is Connected
            ||| state == StreamState::Requesting && event is Responded
            ||| state == StreamState::Reading && event is Read
            ||| state == StreamState::Delivering && event is Delivered
            ||| state == StreamState::Closing && event is Delivered
        },
{
}

/// A stream that meets no failure asks for a token, then for a client, then sends its request
/// over that client, and only then reads.
pub proof fn response_comes_after_token_and_client(client: Client)
    ensures
        stream_step(StreamState::Fresh, EventView::Started) == (
            StreamState::Admitting,
            ActionView::Acquire,
        ),
        stream_step(StreamState::Admitting, EventView::Admitted(Ok(()))) == (
            StreamState::Connecting,
            ActionView::Connect,
        ),
        stream_step(StreamState::Connecting, EventView::Connected(Ok(client))) == (
            StreamState::Requesting,
            ActionView::Request(client),
        ),
        stream_step(StreamState::Requesting, EventView::Responded(Ok(()))) == (
            StreamState::Reading,
            ActionView::Read,
        ),
{
}

/// Whatever fails, wherever a stream is, that failure is handed to the reader and is the last
/// item.
pub proof fn failure_is_handed_over(state: StreamState, e: ErrorView, failed: reqwest::Error)
    ensures
        stream_step(state, EventView::Admitted(Err(e))) == (
            StreamState::Closing,
            ActionView::Deliver(Err(e)),
        ),
        stream_step(state, EventView::Connected(Err(failed))) == (
            StreamState::Closing,
            ActionView::Deliver(Err(ErrorView::HttpClient(failed))),
        ),
        stream_step(state, EventView::Responded(Err(failed))) == (
            StreamState::Closing,
            ActionView::Deliver(Err(ErrorView::HttpClient(failed))),
        ),
        stream_step(state, EventView::Read(Some(Err(failed)))) == (
            StreamState::Closing,
            ActionView::Deliver(Err(ErrorView::HttpClient(failed))),
        ),
{
}

/// A chunk that is text is handed over, whole; one that is not is passed over. Reading goes on
/// after either, once there is a reader who took the text, until there is no more.
pub proof fn chunk_is_handed_over_whole(bytes: Seq<u8>, text: Seq<char>)
    ensures
        bytes == encode_utf8(text) ==> stream_step(
            StreamState::Reading,
            EventView::Read(Some(Ok(bytes))),
        ) == (StreamState::Delivering, ActionView::Deliver(Ok(text))),
        valid_utf8(bytes) ==> stream_step(StreamState::Reading, EventView::Read(Some(Ok(bytes))))
            == (StreamState::Delivering, ActionView::Deliver(Ok(decode_utf8(bytes)))),
        !valid_utf8(bytes) ==> stream_step(StreamState::Reading, EventView::Read(Some(Ok(bytes))))
            == (StreamState::Reading, ActionView::Read),
        stream_step(StreamState::Delivering, EventView::Delivered(true)) == (
            StreamState::Reading,
            ActionView::Read,
        ),
        stream_step(StreamState::Reading, EventView::Read(None)) == (
            StreamState::Closed,
            ActionView::Stop,
        ),
{
    encode_utf8_decode_utf8(text);
    if bytes == encode_utf8(text) {
        encode_utf8_valid_utf8(text);
    }
}

/// Whatever can come of the action that a step asks for is what the stream then waits for,
/// and nothing else is.
pub proof fn steps_fit_together(state: StreamState, event: EventView, next: EventView)
    requires
        state.expects(event),
    ensures
        stream_step(state, event).0.expects(next) <==> stream_step(state, event).1.leads_to(next),
{
}

/// Once there is no reader, and once the last item was handed over, a stream stops.
pub proof fn stream_stops(state: StreamState, taken: bool)
    requires
        state.expects(EventView::Delivered(taken)),
        !taken || state == StreamState::Closing,
    ensures
        stream_step(state, EventView::Delivered(taken)) == (StreamState::Closed, ActionView::Stop),
{
}

/// What a reader who takes every item gets of a response that is read as `chunks`.
pub open spec fn delivered(chunks: Seq<ChunkView>) -> Seq<ItemView>
    decreases chunks.len(),
{
    if chunks.len() == 0 {
        Seq::empty()
    } else {
        let (state, action) = stream_step(StreamState::Reading, EventView::Read(Some(chunks[0])));
        match action {
            ActionView::Read => delivered(chunks.drop_first()),
            ActionView::Deliver(item) => {
                let rest = match stream_step(state, EventView::Delivered(true)).1 {
                    ActionView::Read => delivered(chunks.drop_first()),
                    _ => Seq::empty(),
                };
                seq![item] + rest
            },
            _ => Seq::empty(),
        }
    }
}

/// The texts of those chunks that are UTF-8, in their order.
pub open spec fn texts(chunks: Seq<Seq<u8>>) -> Seq<ItemView> {
    chunks.filter(|bytes: Seq<u8>| valid_utf8(bytes)).map_values(
        |bytes: Seq<u8>| Ok::<Seq<char>, ErrorView>(decode_utf8(bytes)),
    )
}

/// The texts after one more chunk in front.
proof fn lemma_texts_step(chunks: Seq<Seq<u8>>)
    requires
        chunks.len() > 0,
    ensures
        texts(chunks) == (if valid_utf8(chunks[0]) {
            seq![Ok::<Seq<char>, ErrorView>(decode_utf8(chunks[0]))]
        } else {
            Seq::empty()
        }) + texts(chunks.drop_first()),
{
    let pred = |bytes: Seq<u8>| valid_utf8(bytes);
    let f = |bytes: Seq<u8>| Ok::<Seq<char>, ErrorView>(decode_utf8(bytes));
    let head = seq![chunks[0]];
    assert(chunks =~= head + chunks.drop_first());
    Seq::filter_distributes_over_add(head, chunks.drop_first(), pred);
    assert(head.filter(pred) =~= if valid_utf8(chunks[0]) {
        head
    } else {
        Seq::empty()
    }) by {
        reveal_with_fuel(Seq::filter, 2);
        assert(head.drop_last() =~= Seq::empty());
    }
    assert(texts(chunks) =~= head.filter(pred).map_values(f) + texts(chunks.drop_first()));
}

/// Of a response without failure the reader gets the text of every chunk that is UTF-8,
/// in order, and nothing else.
pub proof fn whole_response_is_delivered(chunks: Seq<Seq<u8>>)
    ensures
        delivered(chunks.map_values(|bytes: Seq<u8>| Ok::<Seq<u8>, reqwest::Error>(bytes)))
            == texts(chunks),
    decreases chunks.len(),
{
    let wrap = |bytes: Seq<u8>| Ok::<Seq<u8>, reqwest::Error>(bytes);
    if chunks.len() == 0 {
        assert(texts(chunks) =~= Seq::empty()) by {
            reveal_with_fuel(Seq::filter, 1);
        }
    } else {
        assert(chunks.map_values(wrap).drop_first() =~= chunks.drop_first().map_values(wrap));
        whole_response_is_delivered(chunks.drop_first());
        lemma_texts_step(chunks);
        assert(Seq::<ItemView>::empty() + texts(chunks.drop_first()) =~= texts(
            chunks.drop_first(),
        ));
    }
}

/// Of a response that fails the reader gets the texts of the chunks before the failure,
/// then the failure, and then nothing, whatever else would have come.
pub proof fn failure_ends_the_response(
    chunks: Seq<Seq<u8>>,
    e: reqwest::Error,
    later: Seq<ChunkView>,
)
    ensures
        delivered(
            chunks.map_values(|bytes: Seq<u8>| Ok::<Seq<u8>, reqwest::Error>(bytes)) + seq![
                Err::<Seq<u8>, reqwest::Error>(e),
            ] + later,
        ) == texts(chunks) + seq![Err::<Seq<char>, ErrorView>(ErrorView::HttpClient(e))],
    decreases chunks.len(),
{
    let wrap = |bytes: Seq<u8>| Ok::<Seq<u8>, reqwest::Error>(bytes);
    let failure = seq![Err::<Seq<u8>, reqwest::Error>(e)];
    let last = seq![Err::<Seq<char>, ErrorView>(ErrorView::HttpClient(e))];
    let all = chunks.map_values(wrap) + failure + later;
    if chunks.len() == 0 {
        assert(all[0] == Err::<Seq<u8>, reqwest::Error>(e));
        assert(texts(chunks) =~= Seq::empty()) by {
            reveal_with_fuel(Seq::filter, 1);
        }
        assert(delivered(all) =~= last);
        assert(texts(chunks) + last =~= last);
    } else {
        let rest = chunks.drop_first();
        assert(all.drop_first() =~= rest.map_values(wrap) + failure + later);
        assert(all[0] == Ok::<Seq<u8>, reqwest::Error>(chunks[0]));
        failure_ends_the_response(rest, e, later);
        lemma_texts_step(chunks);
        assert(delivered(all) =~= texts(chunks) + last);
    }
}

/// How far a stream is after a run of events.
pub open spec fn state_after(events: Seq<EventView>) -> StreamState
    decreases events.len(),
{
    if events.len() == 0 {
        StreamState::Fresh
    } else {
        stream_step(state_after(events.drop_last()), events.last()).0
    }
}

/// Whether each event of a run, from the start of a stream on, is one that the stream waits
/// for when it comes.
pub open spec fn is_run(events: Seq<EventView>) -> bool
    decreases events.len(),
{
    events.len() == 0 || {
        &&& is_run(events.drop_last())
        &&& state_after(events.drop_last()).expects(events.last())
    }
}

/// The items that a stream asks to be handed to its reader over a run.
pub open spec fn items_made(events: Seq<EventView>) -> Seq<ItemView>
    decreases events.len(),
{
    if events.len() == 0 {
        Seq::empty()
    } else {
        let earlier = items_made(events.drop_last());
        match stream_step(state_after(events.drop_last()), events.last()).1 {
            ActionView::Deliver(item) => earlier.push(item),
            _ => earlier,
        }
    }
}

/// How many items were taken off the stream's hands over a run.
pub open spec fn items_taken(events: Seq<EventView>) -> nat
    decreases events.len(),
{
    if events.len() == 0 {
        0
    } else {
        items_taken(events.drop_last()) + (if events.last() == EventView::Delivered(true) {
            1nat
        } else {
            0nat
        })
    }
}

/// The chunks of the response that were read over a run.
pub open spec fn chunks_read(events: Seq<EventView>) -> Seq<Seq<u8>>
    decreases events.len(),
{
    if events.len() == 0 {
        Seq::empty()
    } else {
        let earlier = chunks_read(events.drop_last());
        match events.last() {
            EventView::Read(Some(Ok(bytes))) => earlier.push(bytes),
            _ => earlier,
        }
    }
}

/// What went wrong, if an event says that something did before the response was there.
pub open spec fn early_failure(event: EventView) -> Option<ErrorView> {
    match event {
        EventView::Admitted(Err(e)) => Some(e),
        EventView::Connected(Err(e)) => Some(ErrorView::HttpClient(e)),
        EventView::Responded(Err(e)) => Some(ErrorView::HttpClient(e)),
        _ => None,
    }
}

/// What went wrong, if an event says that something did.
pub open spec fn failure(event: EventView) -> Option<ErrorView> {
    match event {
        EventView::Read(Some(Err(e))) => Some(ErrorView::HttpClient(e)),
        _ => early_failure(event),
    }
}

/// What went wrong over a run, as items.
pub open spec fn failures(events: Seq<EventView>) -> Seq<ItemView>
    decreases events.len(),
{
    if events.len() == 0 {
        Seq::empty()
    } else {
        let earlier = failures(events.drop_last());
        match failure(events.last()) {
            Some(e) => earlier.push(Err::<Seq<char>, ErrorView>(e)),
            None => earlier,
        }
    }
}

/// The texts after one more chunk at the end.
proof fn lemma_texts_push(chunks: Seq<Seq<u8>>, bytes: Seq<u8>)
    ensures
        texts(chunks.push(bytes)) == (if valid_utf8(bytes) {
            texts(chunks).push(Ok::<Seq<char>, ErrorView>(decode_utf8(bytes)))
        } else {
            texts(chunks)
        }),
{
    let all = chunks.push(bytes);
    assert(all.drop_last() =~= chunks);
    reveal_with_fuel(Seq::filter, 1);
    assert(texts(all) =~= if valid_utf8(bytes) {
        texts(chunks).push(Ok::<Seq<char>, ErrorView>(decode_utf8(bytes)))
    } else {
        texts(chunks)
    });
}

/// Over any run of a stream, its items are the texts of the chunks read so far that are UTF-8,
/// in order, and then what went wrong, if anything did. At most one item is an error, it is
/// the last, and the stream reads nothing after it.
pub proof fn items_are_texts_and_then_one_failure(events: Seq<EventView>)
    requires
        is_run(events),
    ensures
        items_made(events) == texts(chunks_read(events)) + failures(events),
        failures(events).len() <= 1,
        failures(events).len() == 1 ==> state_after(events) == StreamState::Closing || state_after(
            events,
        ) == StreamState::Closed,
        forall|i: int|
            0 <= i < items_made(events).len() - 1 ==> (#[trigger] items_made(events)[i]) is Ok,
    decreases events.len(),
{
    if events.len() == 0 {
        assert(texts(chunks_read(events)) =~= Seq::empty()) by {
            reveal_with_fuel(Seq::filter, 1);
        }
        assert(items_made(events) =~= texts(chunks_read(events)) + failures(events));
    } else {
        let earlier = events.drop_last();
        items_are_texts_and_then_one_failure(earlier);
        let chunks = chunks_read(earlier);
        match events.last() {
            EventView::Read(Some(Ok(bytes))) => {
                lemma_texts_push(chunks, bytes);
            },
            _ => {},
        }
        assert(items_made(events) =~= texts(chunks_read(events)) + failures(events));
    }
}

/// Before a response is there, a stream has made no item unless it failed.
proof fn lemma_no_items_before_the_response(events: Seq<EventView>)
    requires
        is_run(events),
        state_after(events) == StreamState::Fresh || state_after(events) == StreamState::Admitting
            || state_after(events) == StreamState::Connecting || state_after(events)
            == StreamState::Requesting,
    ensures
        items_made(events) == Seq::<ItemView>::empty(),
    decreases events.len(),
{
    if events.len() > 0 {
        lemma_no_items_before_the_response(events.drop_last());
    }
}

/// What the rate limit, the client or the request fails with is the only item of a stream,
/// however the run goes on.
pub proof fn early_failure_is_the_only_item(events: Seq<EventView>, at: int)
    requires
        is_run(events),
        0 <= at < events.len(),
        early_failure(events[at]) is Some,
    ensures
        items_made(events) == seq![
            Err::<Seq<char>, ErrorView>(early_failure(events[at])->Some_0),
        ],
        state_after(events) == StreamState::Closing || state_after(events) == StreamState::Closed,
    decreases events.len(),
{
    let earlier = events.drop_last();
    if at < earlier.len() {
        assert(earlier[at] == events[at]);
        early_failure_is_the_only_item(earlier, at);
    } else {
        lemma_no_items_before_the_response(earlier);
    }
}

/// A stream has at most one item in hand: over any run it made at most one more than were
/// taken off its hands, and exactly as many whenever it goes on to read the response.
pub proof fn at_most_one_item_in_hand(events: Seq<EventView>)
    requires
        is_run(events),
    ensures
        items_taken(events) <= items_made(events).len() <= items_taken(events) + 1,
        state_after(events) == StreamState::Delivering || state_after(events)
            == StreamState::Closing ==> items_made(events).len() == items_taken(events) + 1,
        state_after(events) != StreamState::Delivering && state_after(events)
            != StreamState::Closing && state_after(events) != StreamState::Closed
            ==> items_made(events).len() == items_taken(events),
    decreases events.len(),
{
    if events.len() > 0 {
        at_most_one_item_in_hand(events.drop_last());
    }
}

/// If no more than [`STREAM_BUFFER`] of the items taken off a stream's hands wait for the
/// reader, who read `read` items, then at most one more was made that the reader did not
/// read. As long as there is that one more, the response is not read on.
pub proof fn unread_items_are_bounded(events: Seq<EventView>, read: nat, chunk: Option<ChunkView>)
    requires
        is_run(events),
        items_taken(events) <= read + STREAM_BUFFER,
    ensures
        items_made(events).len() <= read + STREAM_BUFFER + 1,
        state_after(events).expects(EventView::Read(chunk)) ==> items_made(events).len() <= read
            + STREAM_BUFFER,
{
    at_most_one_item_in_hand(events);
}

/// A turn of a stream or of its reader.
pub enum Turn {
    /// The stream takes in an event.
    Stream(EventView),
    /// The reader reads an item that waits.
    Reader,
}

/// The events among the turns.
pub open spec fn stream_turns(turns: Seq<Turn>) -> Seq<EventView>
    decreases turns.len(),
{
    if turns.len() == 0 {
        Seq::empty()
    } else {
        let earlier = stream_turns(turns.drop_last());
        match turns.last() {
            Turn::Stream(event) => earlier.push(event),
            Turn::Reader => earlier,
        }
    }
}

/// How many items the reader read.
pub open spec fn items_read(turns: Seq<Turn>) -> nat
    decreases turns.len(),
{
    if turns.len() == 0 {
        0
    } else {
        items_read(turns.drop_last()) + (if turns.last() is Reader {
            1nat
        } else {
            0nat
        })
    }
}

/// Whether the turns are those of a stream and a reader with room for [`STREAM_BUFFER`] items
/// between them: an item is taken off the stream's hands when there is room, and read when it
/// is there.
pub open spec fn is_exchange(turns: Seq<Turn>) -> bool
    decreases turns.len(),
{
    turns.len() == 0 || {
        let earlier = turns.drop_last();
        let waiting = items_taken(stream_turns(earlier)) - items_read(earlier);
        &&& is_exchange(earlier)
        &&& match turns.last() {
            Turn::Stream(event) => {
                &&& state_after(stream_turns(earlier)).expects(event)
                &&& event == EventView::Delivered(true) ==> waiting < STREAM_BUFFER
            },
            Turn::Reader => waiting > 0,
        }
    }
}

/// However a stream and its reader take turns, at most [`STREAM_BUFFER`] items wait between
/// them, and at most one more was made that the reader did not read, five in all. The
/// response is read on only when every item made waits or was read.
pub proof fn reader_holds_the_stream_back(turns: Seq<Turn>, chunk: Option<ChunkView>)
    requires
        is_exchange(turns),
    ensures
        is_run(stream_turns(turns)),
        items_read(turns) <= items_taken(stream_turns(turns)) <= items_read(turns) + STREAM_BUFFER,
        items_made(stream_turns(turns)).len() <= items_read(turns) + STREAM_BUFFER + 1,
        items_made(stream_turns(turns)).len() <= items_read(turns) + 5,
        state_after(stream_turns(turns)).expects(EventView::Read(chunk)) ==> items_made(
            stream_turns(turns),
        ).len() <= items_read(turns) + STREAM_BUFFER,
    decreases turns.len(),
{
    if turns.len() > 0 {
        let earlier = turns.drop_last();
        reader_holds_the_stream_back(earlier, chunk);
        match turns.last() {
            Turn::Stream(event) => {
                assert(stream_turns(turns).drop_last() =~= stream_turns(earlier));
            },
            Turn::Reader => {},
        }
    }
    unread_items_are_bounded(stream_turns(turns), items_read(turns), chunk);
}

/// Once the reader is gone when an item is handed over, the stream waits for nothing more, so
/// the response is not read on.
pub proof fn stream_without_reader_has_ended(events: Seq<EventView>, next: EventView)
    requires
        is_run(events),
        events.len() > 0,
        events.last() == EventView::Delivered(false),
    ensures
        state_after(events) == StreamState::Closed,
        !is_run(events.push(next)),
{
    assert(events.push(next).drop_last() =~= events);
}

} // verus!
