//! The data service: the cache-then-fetch flow as an explicit state machine.
//!
//! A [`Session`] holds the request's parameters and a state. Each
//! non-terminal state demands one outside action — a cache read, an
//! authenticated fetch, or a cache write — which the embedding program
//! performs, handing the outcome back as an [`Event`]. The decisions between
//! the actions are all made here: the cache is consulted first; only on a
//! miss is the time gate checked, then the input and the page fetched, the
//! descriptions extracted, and the assembled record persisted. A failure
//! leaves the cache untouched, because the write action is only ever
//! demanded after both fetches succeeded.

use vstd::prelude::*;
use crate::codec::{encode, parse, spec_encode, spec_parse};
use crate::endpoints::{
    input_url, page_url, path, session_cookie, spec_input_url, spec_page_url, spec_path,
    spec_session_cookie,
};
use crate::error::Error;
use crate::html::{day_desc_count, descriptions_from_blocks, extract_descriptions};
use crate::record::{Day, DayView};
use crate::timegate::{accessible, accessible_at, clock_now_seconds};

verus! {

/// How a record was obtained: from the cache, or fetched from the network
/// and persisted.
pub enum Outcome {
    /// The cache already held the day's record.
    FromCache(Day),
    /// The record was fetched, extracted and written to the cache.
    FromNetwork(Day),
}

/// The mathematical value of an [`Outcome`].
pub enum OutcomeView {
    /// View of [`Outcome::FromCache`].
    FromCache(DayView),
    /// View of [`Outcome::FromNetwork`].
    FromNetwork(DayView),
}

impl View for Outcome {
    type V = OutcomeView;

    open spec fn view(&self) -> OutcomeView {
        match self {
            Outcome::FromCache(d) => OutcomeView::FromCache(d@),
            Outcome::FromNetwork(d) => OutcomeView::FromNetwork(d@),
        }
    }
}

/// What the embedding program reports back after performing an action.
pub enum Event {
    /// The cache file was read; here are its contents.
    CacheContent {
        /// The text of the cache file.
        text: String,
    },
    /// There is no cache file at the demanded path.
    CacheMissing,
    /// The cache file exists but could not be read.
    CacheUnreadable,
    /// A fetch received a response.
    FetchResponse {
        /// The HTTP status code.
        status: u16,
        /// The response body.
        body: String,
    },
    /// A fetch failed before any response arrived.
    FetchTransportFailed,
    /// The cache write succeeded.
    WriteDone,
    /// The cache write failed.
    WriteFailed,
}

/// The mathematical value of an [`Event`].
pub enum EventView {
    /// View of [`Event::CacheContent`].
    CacheContent {
        /// The text of the cache file.
        text: Seq<char>,
    },
    /// View of [`Event::CacheMissing`].
    CacheMissing,
    /// View of [`Event::CacheUnreadable`].
    CacheUnreadable,
    /// View of [`Event::FetchResponse`].
    FetchResponse {
        /// The HTTP status code.
        status: u16,
        /// The response body.
        body: Seq<char>,
    },
    /// View of [`Event::FetchTransportFailed`].
    FetchTransportFailed,
    /// View of [`Event::WriteDone`].
    WriteDone,
    /// View of [`Event::WriteFailed`].
    WriteFailed,
}

impl View for Event {
    type V = EventView;

    open spec fn view(&self) -> EventView {
        match self {
            Event::CacheContent { text } => EventView::CacheContent { text: text@ },
            Event::CacheMissing => EventView::CacheMissing,
            Event::CacheUnreadable => EventView::CacheUnreadable,
            Event::FetchResponse { status, body } => EventView::FetchResponse {
                status: *status,
                body: body@,
            },
            Event::FetchTransportFailed => EventView::FetchTransportFailed,
            Event::WriteDone => EventView::WriteDone,
            Event::WriteFailed => EventView::WriteFailed,
        }
    }
}

/// The one outside action a non-terminal state demands.
pub enum Action {
    /// Read the cache file at `path`; report its contents, its absence, or
    /// its unreadability.
    ReadCache {
        /// The cache file path.
        path: String,
    },
    /// Fetch the day's input: GET `url` with the `Cookie` header `cookie`.
    FetchInput {
        /// The input endpoint.
        url: String,
        /// The `Cookie` header value.
        cookie: String,
    },
    /// Fetch the day's page: GET `url` with the `Cookie` header `cookie`.
    FetchPage {
        /// The page endpoint.
        url: String,
        /// The `Cookie` header value.
        cookie: String,
    },
    /// Create the cache directory if absent and write `contents` to the
    /// file at `path`, overwriting any previous file.
    WriteCache {
        /// The cache file path.
        path: String,
        /// The serialized record.
        contents: String,
    },
}

/// The mathematical value of an [`Action`].
pub enum ActionView {
    /// View of [`Action::ReadCache`].
    ReadCache {
        /// The cache file path.
        path: Seq<char>,
    },
    /// View of [`Action::FetchInput`].
    FetchInput {
        /// The input endpoint.
        url: Seq<char>,
        /// The `Cookie` header value.
        cookie: Seq<char>,
    },
    /// View of [`Action::FetchPage`].
    FetchPage {
        /// The page endpoint.
        url: Seq<char>,
        /// The `Cookie` header value.
        cookie: Seq<char>,
    },
    /// View of [`Action::WriteCache`].
    WriteCache {
        /// The cache file path.
        path: Seq<char>,
        /// The serialized record.
        contents: Seq<char>,
    },
}

impl View for Action {
    type V = ActionView;

    open spec fn view(&self) -> ActionView {
        match self {
            Action::ReadCache { path } => ActionView::ReadCache { path: path@ },
            Action::FetchInput { url, cookie } => ActionView::FetchInput {
                url: url@,
                cookie: cookie@,
            },
            Action::FetchPage { url, cookie } => ActionView::FetchPage {
                url: url@,
                cookie: cookie@,
            },
            Action::WriteCache { path, contents } => ActionView::WriteCache {
                path: path@,
                contents: contents@,
            },
        }
    }
}

/// Where a session stands.
pub enum State {
    /// Waiting for the cache lookup.
    AwaitCache,
    /// Cache miss, gate passed: waiting for the input fetch.
    AwaitInput,
    /// Waiting for the page fetch; the fetched input is kept.
    AwaitPage {
        /// The fetched puzzle input.
        input: String,
    },
    /// Waiting for the record to be persisted.
    AwaitWrite {
        /// The assembled record about to be written.
        record: Day,
    },
    /// The session succeeded.
    Done {
        /// The record, tagged with how it was obtained.
        outcome: Outcome,
    },
    /// The session failed; the cache was left untouched by this session
    /// unless the failure was the write itself.
    Failed {
        /// Why the session failed.
        error: Error,
    },
}

/// The mathematical value of a [`State`].
pub enum StateView {
    /// View of [`State::AwaitCache`].
    AwaitCache,
    /// View of [`State::AwaitInput`].
    AwaitInput,
    /// View of [`State::AwaitPage`].
    AwaitPage {
        /// The fetched puzzle input.
        input: Seq<char>,
    },
    /// View of [`State::AwaitWrite`].
    AwaitWrite {
        /// The assembled record.
        record: DayView,
    },
    /// View of [`State::Done`].
    Done {
        /// The outcome.
        outcome: OutcomeView,
    },
    /// View of [`State::Failed`].
    Failed {
        /// The error.
        error: Error,
    },
}

impl View for State {
    type V = StateView;

    open spec fn view(&self) -> StateView {
        match self {
            State::AwaitCache => StateView::AwaitCache,
            State::AwaitInput => StateView::AwaitInput,
            State::AwaitPage { input } => StateView::AwaitPage { input: input@ },
            State::AwaitWrite { record } => StateView::AwaitWrite { record: record@ },
            State::Done { outcome } => StateView::Done { outcome: outcome@ },
            State::Failed { error } => StateView::Failed { error: *error },
        }
    }
}

/// Whether a state is terminal: the session neither demands an action nor
/// reacts to events any more.
pub open spec fn is_terminal(s: StateView) -> bool {
    s is Done || s is Failed
}

/// Whether an HTTP status code means success.
pub open spec fn spec_status_success(status: u16) -> bool {
    200 <= status < 300
}

/// Whether an HTTP status code means success: any non-2xx response is a
/// failure.
pub fn status_is_success(status: u16) -> (r: bool)
    ensures
        r == spec_status_success(status),
{
    200 <= status && status < 300
}

/// What processing a successfully fetched page must yield, given the input
/// fetched before it: a page without a marked description block violates
/// the expected shape, any other page becomes a record whose second
/// description is present exactly when the page has a second marked block.
pub open spec fn page_step_ok(input: Seq<char>, body: Seq<char>, post: StateView) -> bool {
    if day_desc_count(body) == 0 {
        post == StateView::Failed { error: Error::Parse }
    } else {
        match post {
            StateView::AwaitWrite { record } => record.input == input && (day_desc_count(body) >= 2
                <==> record.description_2 is Some),
            _ => false,
        }
    }
}

/// The transition relation of a session: how state `pre` reacts to event
/// `ev`. Every branch but the page-processing one determines the next state
/// exactly; the page branch is a relation, because the description texts
/// come through the HTML pipeline, whose serialization of a tag is not
/// modeled. A terminal state, and a state handed an event that does not
/// answer its demanded action, stays unchanged.
pub open spec fn step_rel(
    year: int,
    day: int,
    now: int,
    pre: StateView,
    ev: EventView,
    post: StateView,
) -> bool {
    match pre {
        StateView::AwaitCache => match ev {
            EventView::CacheContent { text } => post == (match spec_parse(text) {
                Some(rec) => StateView::Done { outcome: OutcomeView::FromCache(rec) },
                None => StateView::Failed { error: Error::Serialization },
            }),
            EventView::CacheMissing => post == (if accessible(now, year, day) {
                StateView::AwaitInput
            } else {
                StateView::Failed { error: Error::AccessDenied }
            }),
            EventView::CacheUnreadable => post == StateView::Failed { error: Error::Cache },
            _ => post == pre,
        },
        StateView::AwaitInput => match ev {
            EventView::FetchResponse { status, body } => post == (if spec_status_success(status) {
                StateView::AwaitPage { input: body }
            } else {
                StateView::Failed { error: Error::Network(Some(status)) }
            }),
            EventView::FetchTransportFailed => post == StateView::Failed {
                error: Error::Network(None),
            },
            _ => post == pre,
        },
        StateView::AwaitPage { input } => match ev {
            EventView::FetchResponse { status, body } => if spec_status_success(status) {
                page_step_ok(input, body, post)
            } else {
                post == StateView::Failed { error: Error::Network(Some(status)) }
            },
            EventView::FetchTransportFailed => post == StateView::Failed {
                error: Error::Network(None),
            },
            _ => post == pre,
        },
        StateView::AwaitWrite { record } => match ev {
            EventView::WriteDone => post == StateView::Done {
                outcome: OutcomeView::FromNetwork(record),
            },
            EventView::WriteFailed => post == StateView::Failed { error: Error::Cache },
            _ => post == pre,
        },
        _ => post == pre,
    }
}

/// The action a state demands: terminal states demand none.
pub open spec fn spec_action(year: int, day: int, token: Seq<char>, s: StateView) -> Option<
    ActionView,
> {
    match s {
        StateView::AwaitCache => Some(ActionView::ReadCache { path: spec_path(day) }),
        StateView::AwaitInput => Some(
            ActionView::FetchInput {
                url: spec_input_url(year, day),
                cookie: spec_session_cookie(token),
            },
        ),
        StateView::AwaitPage { .. } => Some(
            ActionView::FetchPage {
                url: spec_page_url(year, day),
                cookie: spec_session_cookie(token),
            },
        ),
        StateView::AwaitWrite { record } => Some(
            ActionView::WriteCache { path: spec_path(day), contents: spec_encode(record) },
        ),
        _ => None,
    }
}

/// One run of the data service for one day.
pub struct Session {
    /// The target year.
    pub year: i16,
    /// The requested day.
    pub day: u8,
    /// The session token that authenticates the fetches.
    pub token: String,
    /// The instant the session was started at, for the time gate.
    pub now: i64,
    /// Where the session stands.
    pub state: State,
}

impl Session {
    /// The session's parameters are within the calendar model and the
    /// request is for a real day number.
    pub open spec fn wf(&self) -> bool {
        1970 <= self.year <= 9999 && 1 <= self.day <= 25
    }

    /// Starts a session for day `day` of `year`, gating against the
    /// injected instant `now`.
    pub fn new(year: i16, day: u8, token: String, now: i64) -> (s: Session)
        requires
            1970 <= year <= 9999,
            1 <= day <= 25,
        ensures
            s.wf(),
            s.year == year,
            s.day == day,
            s.token@ == token@,
            s.now == now,
            s.state@ == StateView::AwaitCache,
    {
        Session { year, day, token, now, state: State::AwaitCache }
    }

    /// Starts a session gating against the system clock.
    pub fn begin(year: i16, day: u8, token: String) -> (s: Session)
        requires
            1970 <= year <= 9999,
            1 <= day <= 25,
        ensures
            s.wf(),
            s.year == year,
            s.day == day,
            s.token@ == token@,
            s.state@ == StateView::AwaitCache,
    {
        let now = clock_now_seconds();
        Session::new(year, day, token, now)
    }

    /// The action the session demands next, or `None` once it is terminal.
    pub fn pending_action(&self) -> (a: Option<Action>)
        requires
            self.wf(),
        ensures
            match a {
                Some(act) => spec_action(self.year as int, self.day as int, self.token@, self.state@)
                    == Some(act@),
                None => spec_action(self.year as int, self.day as int, self.token@, self.state@)
                    is None,
            },
    {
        match &self.state {
            State::AwaitCache => Some(Action::ReadCache { path: path(self.day) }),
            State::AwaitInput => Some(
                Action::FetchInput {
                    url: input_url(self.year, self.day),
                    cookie: session_cookie(self.token.as_str()),
                },
            ),
            State::AwaitPage { .. } => Some(
                Action::FetchPage {
                    url: page_url(self.year, self.day),
                    cookie: session_cookie(self.token.as_str()),
                },
            ),
            State::AwaitWrite { record } => Some(
                Action::WriteCache { path: path(self.day), contents: encode(record) },
            ),
            State::Done { .. } => None,
            State::Failed { .. } => None,
        }
    }

    /// Feeds the outcome of the demanded action back into the session. The
    /// parameters stay as they are; the state moves as [`step_rel`] says.
    pub fn step(self, event: Event) -> (next: Session)
        requires
            self.wf(),
        ensures
            next.wf(),
            next.year == self.year,
            next.day == self.day,
            next.token@ == self.token@,
            next.now == self.now,
            step_rel(
                self.year as int,
                self.day as int,
                self.now as int,
                self.state@,
                event@,
                next.state@,
            ),
    {
        let Session { year, day, token, now, state } = self;
        let next_state = match (state, event) {
            (State::AwaitCache, Event::CacheContent { text }) => {
                match parse(text.as_str()) {
                    Some(rec) => State::Done { outcome: Outcome::FromCache(rec) },
                    None => State::Failed { error: Error::Serialization },
                }
            },
            (State::AwaitCache, Event::CacheMissing) => {
                if accessible_at(now, year, day) {
                    State::AwaitInput
                } else {
                    State::Failed { error: Error::AccessDenied }
                }
            },
            (State::AwaitCache, Event::CacheUnreadable) => State::Failed { error: Error::Cache },
            (State::AwaitInput, Event::FetchResponse { status, body }) => {
                if status_is_success(status) {
                    State::AwaitPage { input: body }
                } else {
                    State::Failed { error: Error::Network(Some(status)) }
                }
            },
            (State::AwaitInput, Event::FetchTransportFailed) => State::Failed {
                error: Error::Network(None),
            },
            (State::AwaitPage { input }, Event::FetchResponse { status, body }) => {
                if status_is_success(status) {
                    match extract_descriptions(body.as_str()) {
                        Ok((d1, d2)) => State::AwaitWrite {
                            record: Day { input, description_1: d1, description_2: d2 },
                        },
                        Err(_) => State::Failed { error: Error::Parse },
                    }
                } else {
                    State::Failed { error: Error::Network(Some(status)) }
                }
            },
            (State::AwaitPage { input }, Event::FetchTransportFailed) => State::Failed {
                error: Error::Network(None),
            },
            (State::AwaitWrite { record }, Event::WriteDone) => State::Done {
                outcome: Outcome::FromNetwork(record),
            },
            (State::AwaitWrite { record: _ }, Event::WriteFailed) => State::Failed {
                error: Error::Cache,
            },
            (s, _) => s,
        };
        Session { year, day, token, now, state: next_state }
    }
}

/// A conforming run of a session: one more state than events, each event
/// moving the run by one step of [`step_rel`].
pub open spec fn trace_ok(
    year: int,
    day: int,
    now: int,
    states: Seq<StateView>,
    events: Seq<EventView>,
) -> bool {
    states.len() == events.len() + 1 && forall|k: int|
        0 <= k < events.len() ==> step_rel(year, day, now, states[k], events[k], states[k + 1])
}

proof fn lemma_terminal_stays_at(
    year: int,
    day: int,
    now: int,
    states: Seq<StateView>,
    events: Seq<EventView>,
    j: int,
    k: int,
)
    requires
        trace_ok(year, day, now, states, events),
        0 <= j <= k < states.len(),
        is_terminal(states[j]),
    ensures
        states[k] == states[j],
    decreases k - j,
{
    if k > j {
        lemma_terminal_stays_at(year, day, now, states, events, j, k - 1);
        assert(step_rel(year, day, now, states[k - 1], events[k - 1], states[k]));
    }
}

/// Cache short-circuit: when the cache already holds a parseable record for
/// the day, the session is done with that record immediately after the
/// lookup, and the cache read is the only action any state of the run
/// demands -- in particular, the network is never touched.
pub proof fn lemma_cache_hit_short_circuit(
    year: int,
    day: int,
    now: int,
    token: Seq<char>,
    states: Seq<StateView>,
    events: Seq<EventView>,
    text: Seq<char>,
    rec: DayView,
)
    requires
        trace_ok(year, day, now, states, events),
        events.len() >= 1,
        states[0] == StateView::AwaitCache,
        events[0] == (EventView::CacheContent { text }),
        spec_parse(text) == Some(rec),
    ensures
        forall|k: int|
            1 <= k < states.len() ==> states[k] == (StateView::Done {
                outcome: OutcomeView::FromCache(rec),
            }),
        forall|k: int|
            0 <= k < states.len() ==> match #[trigger] spec_action(year, day, token, states[k]) {
                Some(a) => a is ReadCache,
                None => true,
            },
{
    assert(step_rel(year, day, now, states[0], events[0], states[1]));
    assert(states[1] == (StateView::Done { outcome: OutcomeView::FromCache(rec) }));
    assert forall|k: int| 1 <= k < states.len() implies states[k] == (StateView::Done {
        outcome: OutcomeView::FromCache(rec),
    }) by {
        lemma_terminal_stays_at(year, day, now, states, events, 1, k);
    }
}

/// Failure containment, input fetch: on a cache miss with the time gate open, an
/// input fetch that comes back with a non-success status fails the session
/// with that status, and no state of the run ever demands a cache write --
/// the cache is left untouched.
pub proof fn lemma_input_fetch_failure_writes_nothing(
    year: int,
    day: int,
    now: int,
    token: Seq<char>,
    states: Seq<StateView>,
    events: Seq<EventView>,
    status: u16,
    body: Seq<char>,
)
    requires
        trace_ok(year, day, now, states, events),
        events.len() >= 2,
        states[0] == StateView::AwaitCache,
        events[0] == EventView::CacheMissing,
        accessible(now, year, day),
        events[1] == (EventView::FetchResponse { status, body }),
        !spec_status_success(status),
    ensures
        forall|k: int|
            2 <= k < states.len() ==> states[k] == (StateView::Failed {
                error: Error::Network(Some(status)),
            }),
        forall|k: int|
            0 <= k < states.len() ==> match #[trigger] spec_action(year, day, token, states[k]) {
                Some(a) => !(a is WriteCache),
                None => true,
            },
{
    assert(step_rel(year, day, now, states[0], events[0], states[1]));
    assert(states[1] == StateView::AwaitInput);
    assert(step_rel(year, day, now, states[1], events[1], states[2]));
    assert(states[2] == (StateView::Failed { error: Error::Network(Some(status)) }));
    assert forall|k: int| 2 <= k < states.len() implies states[k] == (StateView::Failed {
        error: Error::Network(Some(status)),
    }) by {
        lemma_terminal_stays_at(year, day, now, states, events, 2, k);
    }
}

/// Failure containment, page fetch: on a cache miss with the time gate open and
/// a successful input fetch, a page fetch that comes back with a
/// non-success status fails the session with that status, and no state of
/// the run ever demands a cache write -- the cache is left untouched.
pub proof fn lemma_page_fetch_failure_writes_nothing(
    year: int,
    day: int,
    now: int,
    token: Seq<char>,
    states: Seq<StateView>,
    events: Seq<EventView>,
    input_status: u16,
    input_body: Seq<char>,
    status: u16,
    body: Seq<char>,
)
    requires
        trace_ok(year, day, now, states, events),
        events.len() >= 3,
        states[0] == StateView::AwaitCache,
        events[0] == EventView::CacheMissing,
        accessible(now, year, day),
        events[1] == (EventView::FetchResponse { status: input_status, body: input_body }),
        spec_status_success(input_status),
        events[2] == (EventView::FetchResponse { status, body }),
        !spec_status_success(status),
    ensures
        forall|k: int|
            3 <= k < states.len() ==> states[k] == (StateView::Failed {
                error: Error::Network(Some(status)),
            }),
        forall|k: int|
            0 <= k < states.len() ==> match #[trigger] spec_action(year, day, token, states[k]) {
                Some(a) => !(a is WriteCache),
                None => true,
            },
{
    assert(step_rel(year, day, now, states[0], events[0], states[1]));
    assert(states[1] == StateView::AwaitInput);
    assert(step_rel(year, day, now, states[1], events[1], states[2]));
    assert(states[2] == (StateView::AwaitPage { input: input_body }));
    assert(step_rel(year, day, now, states[2], events[2], states[3]));
    assert(states[3] == (StateView::Failed { error: Error::Network(Some(status)) }));
    assert forall|k: int| 3 <= k < states.len() implies states[k] == (StateView::Failed {
        error: Error::Network(Some(status)),
    }) by {
        lemma_terminal_stays_at(year, day, now, states, events, 3, k);
    }
}

} // verus!
