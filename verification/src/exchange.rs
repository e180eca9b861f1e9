//! Sending a request: the steps of an exchange with the transport, and the
//! one redirect that is followed.
//!
//! The transport itself is not in this library. [`Request::send`] and
//! [`Exchange::step`] say what to do next; the caller does it and reports
//! what came of it. The send is over as soon as the status and headers of
//! the response are there: its body comes back as the stream that the
//! transport handed out, with nothing read from it.

use crate::error::{Error, ErrorCode};
use crate::fields::{entry_views, first_value, valid_entries, Entry, Fields, HeaderError};
use crate::request::{
    chunk, chunk_count, copy_chunk, count_chunks, head_of, HeadView, OutgoingRequest, Request,
    RequestView,
};
use crate::response::{Response, ResponseView};
use crate::url::{url_parse, Url, UrlView};
use vstd::prelude::*;
use vstd::utf8::{decode_utf8, valid_utf8};

verus! {

/// Which exchange of a send is under way.
#[derive(Clone, Copy, Debug, PartialEq, Eq)]
pub enum Hop {
    /// The exchange with the request's own URL.
    First,
    /// The exchange with the URL that the first response pointed to.
    Second,
}

/// How far the exchange under way has come.
#[derive(Clone, Copy, Debug, PartialEq, Eq)]
pub enum Stage {
    /// The head is being opened.
    Opening,
    /// The chunk with this index is being written.
    Writing(usize),
    /// The body is being finished.
    Finishing,
    /// The response is being awaited.
    Awaiting,
    /// The send is over.
    Over,
}

/// What the caller is to do next. `S` is the kind of body stream that the
/// transport hands out.
#[derive(Debug)]
pub enum Action<S> {
    /// Open an outgoing request with this head.
    Open(OutgoingRequest),
    /// Write these bytes to the body and flush them.
    Write(Vec<u8>),
    /// Close the body stream and finish the body, with no trailers.
    Finish,
    /// Hand the request to the transport and wait, without a time limit,
    /// until the response's status and headers are there.
    Await,
    /// Nothing: the send is over, with this result.
    Done(Result<Response<S>, Error>),
}

/// What came of the last action.
#[derive(Debug)]
pub enum Event<S> {
    /// The action was carried out.
    Completed,
    /// The response is there: its status, its headers as they came, and its
    /// body stream, from which nothing is read.
    Arrived(u16, Vec<(String, Vec<u8>)>, S),
    /// The transport failed.
    Failed(ErrorCode),
    /// The transport refused a header of the head.
    Refused(HeaderError),
}

/// An action as contracts see it.
pub enum ActionView<S> {
    Open(HeadView),
    Write(Seq<u8>),
    Finish,
    Await,
    Done(Result<ResponseView<S>, Error>),
}

/// An event as contracts see it.
pub enum EventView<S> {
    Completed,
    Arrived(u16, Seq<Entry>, S),
    Failed(ErrorCode),
    Refused(HeaderError),
}

impl<S> View for Action<S> {
    type V = ActionView<S>;

    open spec fn view(&self) -> ActionView<S> {
        match self {
            Action::Open(head) => ActionView::Open(head@),
            Action::Write(bytes) => ActionView::Write(bytes@),
            Action::Finish => ActionView::Finish,
            Action::Await => ActionView::Await,
            Action::Done(Ok(response)) => ActionView::Done(Ok(response@)),
            Action::Done(Err(error)) => ActionView::Done(Err(*error)),
        }
    }
}

impl<S> View for Event<S> {
    type V = EventView<S>;

    open spec fn view(&self) -> EventView<S> {
        match self {
            Event::Completed => EventView::Completed,
            Event::Arrived(status, headers, body) => EventView::Arrived(
                *status,
                entry_views(headers@),
                *body,
            ),
            Event::Failed(code) => EventView::Failed(*code),
            Event::Refused(error) => EventView::Refused(*error),
        }
    }
}

/// A send under way, as contracts see it.
pub struct ExchangeView {
    /// The request that is being sent.
    pub request: RequestView,
    /// The URL of the exchange under way.
    pub target: UrlView,
    pub hop: Hop,
    pub stage: Stage,
}

/// The URL that a response's headers point to: the first `Location`, where
/// it is text that parses as an absolute URL.
pub open spec fn redirect_target(headers: Seq<Entry>) -> Option<UrlView> {
    match first_value(headers, "Location"@) {
        Some(value) => if valid_utf8(value) {
            url_parse(decode_utf8(value))
        } else {
            None
        },
        None => None,
    }
}

/// The error that ends a send when an event comes out of turn.
pub open spec fn out_of_turn() -> Error {
    Error::Http(ErrorCode::InternalError(None))
}

/// What follows once the head is open or a chunk is written: the chunk with
/// index `written`, or the end of the body when every chunk is written.
pub open spec fn after_chunks<S>(body: Seq<u8>, written: nat) -> (Stage, ActionView<S>) {
    if written < chunk_count(body.len()) {
        (Stage::Writing(written as usize), ActionView::Write(chunk(body, written)))
    } else {
        (Stage::Finishing, ActionView::Finish)
    }
}

/// The first state of a send, and the action it starts with.
pub open spec fn start<S>(request: RequestView) -> (ExchangeView, ActionView<S>) {
    (
        ExchangeView { request, target: request.url, hop: Hop::First, stage: Stage::Opening },
        ActionView::Open(head_of(request.url, request.method, request.headers)),
    )
}

/// The state that a send is in when it is over.
pub open spec fn over(state: ExchangeView) -> ExchangeView {
    ExchangeView { stage: Stage::Over, ..state }
}

/// The response that a send ends with: the status and the headers as they
/// arrived, and the body stream as the transport handed it out.
pub open spec fn response_of<S>(status: u16, headers: Seq<Entry>, body: S) -> ResponseView<S> {
    ResponseView { status_code: status, headers, body }
}

/// The state and the action that follow `event` in `state`.
///
/// A failure of the transport ends the send with that failure. Otherwise an
/// open head is followed by the body's chunks in order, each after the one
/// before it is written, then by the end of the body, then by the wait for
/// the response; a request without a body goes from the head to the wait.
/// A response with a malformed header ends the send with a header error.
/// The first response that points to a URL is answered by one more exchange,
/// with that URL and with the method, headers and body of the request. Any
/// other response, and every response to that second exchange, ends the send
/// and is its result, with its body unread.
pub open spec fn step_of<S>(state: ExchangeView, event: EventView<S>) -> (
    ExchangeView,
    ActionView<S>,
) {
    match (state.stage, event) {
        (Stage::Over, _) => (over(state), ActionView::Done(Err(out_of_turn()))),
        (_, EventView::Failed(code)) => (over(state), ActionView::Done(Err(Error::Http(code)))),
        (Stage::Opening, EventView::Refused(error)) => (
            over(state),
            ActionView::Done(Err(Error::Header(error))),
        ),
        (Stage::Opening, EventView::Completed) => match state.request.body {
            Some(body) => {
                let (stage, action) = after_chunks::<S>(body, 0);
                (ExchangeView { stage, ..state }, action)
            },
            None => (ExchangeView { stage: Stage::Awaiting, ..state }, ActionView::Await),
        },
        (Stage::Writing(index), EventView::Completed) => match state.request.body {
            Some(body) => {
                let (stage, action) = after_chunks::<S>(body, (index + 1) as nat);
                (ExchangeView { stage, ..state }, action)
            },
            None => (over(state), ActionView::Done(Err(out_of_turn()))),
        },
        (Stage::Finishing, EventView::Completed) => (
            ExchangeView { stage: Stage::Awaiting, ..state },
            ActionView::Await,
        ),
        (Stage::Awaiting, EventView::Arrived(status, headers, body)) => if !valid_entries(
            headers,
        ) {
            (over(state), ActionView::Done(Err(Error::Header(HeaderError::InvalidSyntax))))
        } else {
            match (state.hop, redirect_target(headers)) {
                (Hop::First, Some(target)) => (
                    ExchangeView { target, hop: Hop::Second, stage: Stage::Opening, ..state },
                    ActionView::Open(head_of(target, state.request.method, state.request.headers)),
                ),
                _ => (over(state), ActionView::Done(Ok(response_of(status, headers, body)))),
            }
        },
        _ => (over(state), ActionView::Done(Err(out_of_turn()))),
    }
}

/// How many heads are opened in answer to `events`, taken in order from
/// `state`: each one begins a further exchange.
pub open spec fn opened<S>(state: ExchangeView, events: Seq<EventView<S>>) -> nat
    decreases events.len(),
{
    if events.len() == 0 {
        0
    } else {
        let (next, action) = step_of(state, events[0]);
        let rest = opened(next, events.skip(1));
        if action is Open {
            rest + 1
        } else {
            rest
        }
    }
}

/// A first response that points to a URL is answered by the head of one
/// more exchange, with that URL and with the method and headers of the
/// request. A first response that points to none is the result of the send:
/// its status and headers as they arrived, and its body stream as it is.
pub proof fn lemma_first_response<S>(
    state: ExchangeView,
    status: u16,
    headers: Seq<Entry>,
    body: S,
)
    requires
        state.hop == Hop::First,
        state.stage == Stage::Awaiting,
        valid_entries(headers),
    ensures
        match redirect_target(headers) {
            Some(target) => step_of(state, EventView::Arrived(status, headers, body)) == (
                ExchangeView { target, hop: Hop::Second, stage: Stage::Opening, ..state },
                ActionView::<S>::Open(
                    head_of(target, state.request.method, state.request.headers),
                ),
            ),
            None => step_of(state, EventView::Arrived(status, headers, body)) == (
                over(state),
                ActionView::Done(Ok(response_of(status, headers, body))),
            ),
        },
{
}

/// The response to the second exchange is the result of the send, whatever
/// its headers point to: its status and headers as they arrived, and its
/// body stream as it is.
pub proof fn lemma_second_response<S>(
    state: ExchangeView,
    status: u16,
    headers: Seq<Entry>,
    body: S,
)
    requires
        state.hop == Hop::Second,
        state.stage == Stage::Awaiting,
        valid_entries(headers),
    ensures
        step_of(state, EventView::Arrived(status, headers, body)) == (
            over(state),
            ActionView::Done(Ok(response_of(status, headers, body))),
        ),
{
}

/// No step changes the request that is being sent, and none goes back from
/// the second exchange to the first.
pub proof fn lemma_step_keeps_request<S>(state: ExchangeView, event: EventView<S>)
    ensures
        step_of(state, event).0.request == state.request,
        state.hop == Hop::Second ==> step_of(state, event).0.hop == Hop::Second,
{
}

/// Once the second exchange is under way, no further exchange begins,
/// whatever happens.
pub proof fn lemma_no_third_exchange<S>(state: ExchangeView, events: Seq<EventView<S>>)
    requires
        state.hop == Hop::Second,
    ensures
        opened(state, events) == 0,
    decreases events.len(),
{
    if events.len() > 0 {
        lemma_step_keeps_request(state, events[0]);
        lemma_no_third_exchange(step_of(state, events[0]).0, events.skip(1));
    }
}

/// After the exchange that a send starts with, at most one more begins,
/// whatever happens.
pub proof fn lemma_one_redirect_at_most<S>(state: ExchangeView, events: Seq<EventView<S>>)
    requires
        state.hop == Hop::First,
    ensures
        opened(state, events) <= 1,
    decreases events.len(),
{
    if events.len() > 0 {
        let (next, action) = step_of(state, events[0]);
        if next.hop == Hop::Second {
            lemma_no_third_exchange(next, events.skip(1));
        } else {
            assert(!(action is Open));
            lemma_one_redirect_at_most(next, events.skip(1));
        }
    }
}

/// Once a send is over, nothing begins any more.
pub proof fn lemma_over_is_final<S>(state: ExchangeView, events: Seq<EventView<S>>)
    requires
        state.stage == Stage::Over,
    ensures
        opened(state, events) == 0,
    decreases events.len(),
{
    if events.len() > 0 {
        lemma_over_is_final(step_of(state, events[0]).0, events.skip(1));
    }
}

/// A first response that points to a URL causes exactly one more exchange,
/// whatever follows; one that points to none causes no further exchange.
pub proof fn lemma_redirect_counts<S>(
    state: ExchangeView,
    status: u16,
    headers: Seq<Entry>,
    body: S,
    events: Seq<EventView<S>>,
)
    requires
        state.hop == Hop::First,
        state.stage == Stage::Awaiting,
        valid_entries(headers),
    ensures
        opened(state, seq![EventView::Arrived(status, headers, body)] + events)
            == if redirect_target(headers) is Some {
            1nat
        } else {
            0nat
        },
{
    let run = seq![EventView::Arrived(status, headers, body)] + events;
    assert(run[0] == EventView::Arrived(status, headers, body));
    assert(run.skip(1) =~= events);
    let next = step_of(state, run[0]).0;
    if redirect_target(headers) is Some {
        lemma_no_third_exchange(next, events);
    } else {
        lemma_over_is_final(next, events);
    }
}

/// A request with a body is sent as its head, then its chunks in order,
/// then the end of the body, then the wait for the response.
pub proof fn lemma_body_in_order<S>(state: ExchangeView, written: nat)
    requires
        state.request.body is Some,
        written < chunk_count(state.request.body->Some_0.len()),
        state.stage == Stage::Writing(written as usize),
        written <= usize::MAX,
    ensures
        step_of(state, EventView::<S>::Completed).1 == if written + 1 < chunk_count(
            state.request.body->Some_0.len(),
        ) {
            ActionView::<S>::Write(chunk(state.request.body->Some_0, written + 1))
        } else {
            ActionView::<S>::Finish
        },
{
}

/// `std::str::from_utf8`: the text of bytes that are valid UTF-8, nothing
/// for any other.
#[verifier::external_body]
fn utf8_text(bytes: &[u8]) -> (r: Option<&str>)
    ensures
        r is Some <==> valid_utf8(bytes@),
        r is Some ==> r->Some_0@ == decode_utf8(bytes@),
{
    std::str::from_utf8(bytes).ok()
}

/// The URL that `headers` point to, if they point to one.
pub fn redirect_location(headers: &Fields) -> (r: Option<Url>)
    ensures
        r is Some <==> redirect_target(headers@) is Some,
        r is Some ==> r->Some_0@ == redirect_target(headers@)->Some_0,
{
    match headers.first("Location") {
        Some(value) => match utf8_text(value.as_slice()) {
            Some(text) => Url::parse(text),
            None => None,
        },
        None => None,
    }
}

/// A send under way.
#[derive(Debug)]
pub struct Exchange {
    request: Request,
    redirect: Option<Url>,
    stage: Stage,
}

impl View for Exchange {
    type V = ExchangeView;

    closed spec fn view(&self) -> ExchangeView {
        ExchangeView {
            request: self.request@,
            target: match self.redirect {
                Some(url) => url@,
                None => self.request@.url,
            },
            hop: match self.redirect {
                Some(_) => Hop::Second,
                None => Hop::First,
            },
            stage: self.stage,
        }
    }
}

impl Request {
    /// Starts sending the request: the state of the send and the action to
    /// begin with, which opens the head for the request's URL. The request
    /// is sent with the headers it has, whether or not they declare the
    /// length of its body.
    pub fn send<S>(self) -> (r: (Exchange, Action<S>))
        ensures
            (r.0@, r.1@) == start::<S>(self@),
    {
        let head = OutgoingRequest::from_url(self.url(), self.method(), self.headers().clone());
        (Exchange { request: self, redirect: None, stage: Stage::Opening }, Action::Open(head))
    }
}

impl Exchange {
    /// Which exchange is under way.
    pub fn hop(&self) -> (r: Hop)
        ensures
            r == self@.hop,
    {
        match self.redirect {
            Some(_) => Hop::Second,
            None => Hop::First,
        }
    }

    /// How far the exchange under way has come.
    pub fn stage(&self) -> (r: Stage)
        ensures
            r == self@.stage,
    {
        self.stage
    }

    fn finish<S>(self, result: Result<Response<S>, Error>) -> (r: (Exchange, Action<S>))
        ensures
            r.0@ == over(self@),
            r.1 == Action::Done(result),
    {
        let mut next = self;
        next.stage = Stage::Over;
        (next, Action::Done(result))
    }

    fn write<S>(self, written: usize) -> (r: (Exchange, Action<S>))
        requires
            self@.request.body is Some,
            written <= chunk_count(self@.request.body->Some_0.len()),
        ensures
            r.0@ == (ExchangeView {
                stage: after_chunks::<S>(self@.request.body->Some_0, written as nat).0,
                ..self@
            }),
            r.1@ == after_chunks::<S>(self@.request.body->Some_0, written as nat).1,
    {
        let mut next = self;
        let (stage, action) = match next.request.body() {
            Some(body) => {
                if written < count_chunks(body.as_slice()) {
                    (Stage::Writing(written), Action::Write(copy_chunk(body.as_slice(), written)))
                } else {
                    (Stage::Finishing, Action::Finish)
                }
            },
            None => (Stage::Finishing, Action::Finish),
        };
        next.stage = stage;
        (next, action)
    }

    fn arrived<S>(self, status: u16, entries: Vec<(String, Vec<u8>)>, body: S) -> (r: (
        Exchange,
        Action<S>,
    ))
        requires
            self@.stage == Stage::Awaiting,
        ensures
            (r.0@, r.1@) == step_of(
                self@,
                EventView::Arrived(status, entry_views(entries@), body),
            ),
    {
        let headers = match Fields::from_list(entries) {
            Ok(headers) => headers,
            Err(error) => {
                return self.finish(Err(Error::Header(error)));
            },
        };
        let target = match self.redirect {
            Some(_) => None,
            None => redirect_location(&headers),
        };
        match target {
            Some(url) => {
                let head = OutgoingRequest::from_url(
                    &url,
                    self.request.method(),
                    self.request.headers().clone(),
                );
                let mut next = self;
                next.redirect = Some(url);
                next.stage = Stage::Opening;
                (next, Action::Open(head))
            },
            None => self.finish(Ok(Response::new(status, headers, body))),
        }
    }

    /// Takes what came of the last action and says what to do next.
    pub fn step<S>(self, event: Event<S>) -> (r: (Exchange, Action<S>))
        ensures
            (r.0@, r.1@) == step_of(self@, event@),
    {
        let out_of_turn = Error::Http(ErrorCode::InternalError(None));
        match (self.stage, event) {
            (Stage::Over, _) => self.finish(Err(out_of_turn)),
            (_, Event::Failed(code)) => self.finish(Err(Error::Http(code))),
            (Stage::Opening, Event::Refused(error)) => self.finish(Err(Error::Header(error))),
            (Stage::Opening, Event::Completed) => {
                if self.request.body().is_some() {
                    self.write(0)
                } else {
                    let mut next = self;
                    next.stage = Stage::Awaiting;
                    (next, Action::Await)
                }
            },
            (Stage::Writing(index), Event::Completed) => {
                match self.request.body() {
                    Some(body) => {
                        if index < count_chunks(body.as_slice()) {
                            self.write(index + 1)
                        } else {
                            let mut next = self;
                            next.stage = Stage::Finishing;
                            (next, Action::Finish)
                        }
                    },
                    None => self.finish(Err(out_of_turn)),
                }
            },
            (Stage::Finishing, Event::Completed) => {
                let mut next = self;
                next.stage = Stage::Awaiting;
                (next, Action::Await)
            },
            (Stage::Awaiting, Event::Arrived(status, entries, body)) => self.arrived(
                status,
                entries,
                body,
            ),
            _ => self.finish(Err(out_of_turn)),
        }
    }
}

} // verus!
