//! The handling of one connection, as a state machine.
//!
//! The machine decides; its caller reads, looks up and writes. The caller
//! starts by reading one message and hands it over as the first event.
//! Each step answers with the next thing to do, and the outcome of that is
//! the next event:
//!
//! ```text
//! AwaitRequest --Received--> Parsed --Status / Plan--> Responded --Written--> Closed
//! ```
//!
//! A malformed request needs no lookup and goes from `AwaitRequest` straight
//! to `Responded`. Anything but the awaited event closes the connection at
//! once, as failed. A failure touches its own connection only: the machine
//! holds nothing that outlives it.

use crate::config::{Config, ConfigView};
use crate::plan::{plan_path, plan_path_of};
use crate::report::{report_text, server_info, text_view, Status, StatusView};
use crate::request::{decode_request, decoded_request, Request, RequestView};
use vstd::prelude::*;

verus! {

/// Why a connection counts as failed.
#[derive(Debug, Clone, Copy, PartialEq, Eq)]
pub enum Failure {
    /// The request held more than one token.
    Malformed,
    /// The request was not text.
    Undecodable,
    /// The connection could not be read from or written to.
    Io,
    /// The plan file is there but could not be read.
    PlanAccess,
}

impl Failure {
    /// The failure in words.
    pub open spec fn message_text(self) -> Seq<char> {
        match self {
            Failure::Malformed => "Malformed response"@,
            Failure::Undecodable => "Request is not text"@,
            Failure::Io => "Connection failed"@,
            Failure::PlanAccess => "Plan could not be read"@,
        }
    }

    /// The failure in words, for the log.
    pub fn message(&self) -> (text: String)
        ensures
            text@ == self.message_text(),
    {
        match self {
            Failure::Malformed => String::from_str("Malformed response"),
            Failure::Undecodable => String::from_str("Request is not text"),
            Failure::Io => String::from_str("Connection failed"),
            Failure::PlanAccess => String::from_str("Plan could not be read"),
        }
    }
}

/// How far the handling of a connection has come.
#[derive(Debug)]
pub enum State {
    /// Nothing has been read yet.
    AwaitRequest,
    /// The request is known and what it asks for is being fetched.
    Parsed(Request),
    /// The response has been handed over for writing; `failure` says
    /// whether the connection counts as failed already.
    Responded { failure: Option<Failure> },
    /// The connection is done with.
    Closed { failure: Option<Failure> },
}

/// What the caller reports back.
#[derive(Debug)]
pub enum Event {
    /// One message was read into this buffer.
    Received(Vec<u8>),
    /// The state of the host was gathered.
    Status(Status),
    /// The plan file was looked up: its text, or that there is none.
    Plan(Option<String>),
    /// The response was written.
    Written,
    /// What was to be done could not be done.
    Failed,
}

/// What the caller is to do next.
#[derive(Debug, PartialEq, Eq)]
pub enum Action {
    /// Gather the state of the host and report it as `Event::Status`.
    GatherStatus,
    /// Look up the plan file at this path and report it as `Event::Plan`.
    ReadPlan(String),
    /// Write this response and report `Event::Written`.
    Write(String),
    /// Close the connection; `failure` says whether it counts as failed,
    /// and why.
    Close { failure: Option<Failure> },
}

/// The mathematical content of a [`State`].
pub enum StateView {
    AwaitRequest,
    Parsed(RequestView),
    Responded { failure: Option<Failure> },
    Closed { failure: Option<Failure> },
}

/// The mathematical content of an [`Event`].
pub enum EventView {
    Received(Seq<u8>),
    Status(StatusView),
    Plan(Option<Seq<char>>),
    Written,
    Failed,
}

/// The mathematical content of an [`Action`].
pub enum ActionView {
    GatherStatus,
    ReadPlan(Seq<char>),
    Write(Seq<char>),
    Close { failure: Option<Failure> },
}

impl View for State {
    type V = StateView;

    open spec fn view(&self) -> StateView {
        match self {
            State::AwaitRequest => StateView::AwaitRequest,
            State::Parsed(request) => StateView::Parsed(request@),
            State::Responded { failure } => StateView::Responded { failure: *failure },
            State::Closed { failure } => StateView::Closed { failure: *failure },
        }
    }
}

impl View for Event {
    type V = EventView;

    open spec fn view(&self) -> EventView {
        match self {
            Event::Received(buf) => EventView::Received(buf@),
            Event::Status(status) => EventView::Status(status@),
            Event::Plan(plan) => EventView::Plan(text_view(*plan)),
            Event::Written => EventView::Written,
            Event::Failed => EventView::Failed,
        }
    }
}

impl View for Action {
    type V = ActionView;

    open spec fn view(&self) -> ActionView {
        match self {
            Action::GatherStatus => ActionView::GatherStatus,
            Action::ReadPlan(path) => ActionView::ReadPlan(path@),
            Action::Write(text) => ActionView::Write(text@),
            Action::Close { failure } => ActionView::Close { failure: *failure },
        }
    }
}

/// The response to a malformed request.
pub open spec fn malformed_text() -> Seq<char> {
    "Malformed response\n"@
}

/// The response to a request for a user who has a plan: the plan and one
/// newline.
pub open spec fn plan_text(plan: Seq<char>) -> Seq<char> {
    plan + "\n"@
}

/// The response to a request for a user who has no plan.
pub open spec fn absent_text(name: Seq<char>) -> Seq<char> {
    name + "'s not here man.\n"@
}

/// The end of a connection.
pub open spec fn close(failure: Option<Failure>) -> (StateView, ActionView) {
    (StateView::Closed { failure }, ActionView::Close { failure })
}

/// Why a connection fails when, in `state`, anything but the awaited event
/// comes: the reading and the writing are the connection's own, the lookup
/// of a plan is the plan file's.
pub open spec fn failure_in(state: StateView) -> Failure {
    match state {
        StateView::Parsed(RequestView::Named(_)) => Failure::PlanAccess,
        StateView::Parsed(RequestView::Malformed) => Failure::Malformed,
        _ => Failure::Io,
    }
}

/// The step that the machine takes from `state` on `event`.
pub open spec fn next_step(config: ConfigView, state: StateView, event: EventView) -> (
    StateView,
    ActionView,
) {
    match (state, event) {
        (StateView::Closed { failure }, _) => close(failure),
        (StateView::AwaitRequest, EventView::Received(buf)) => match decoded_request(buf) {
            Some(RequestView::Empty) => (
                StateView::Parsed(RequestView::Empty),
                ActionView::GatherStatus,
            ),
            Some(RequestView::Named(name)) => (
                StateView::Parsed(RequestView::Named(name)),
                ActionView::ReadPlan(plan_path_of(config, name)),
            ),
            Some(RequestView::Malformed) => (
                StateView::Responded { failure: Some(Failure::Malformed) },
                ActionView::Write(malformed_text()),
            ),
            None => close(Some(Failure::Undecodable)),
        },
        (StateView::Parsed(RequestView::Empty), EventView::Status(status)) => (
            StateView::Responded { failure: None },
            ActionView::Write(report_text(config, status)),
        ),
        (StateView::Parsed(RequestView::Named(name)), EventView::Plan(Some(plan))) => (
            StateView::Responded { failure: None },
            ActionView::Write(plan_text(plan)),
        ),
        (StateView::Parsed(RequestView::Named(name)), EventView::Plan(None)) => (
            StateView::Responded { failure: None },
            ActionView::Write(absent_text(name)),
        ),
        (StateView::Responded { failure }, EventView::Written) => close(failure),
        _ => close(Some(failure_in(state))),
    }
}

/// Where the machine stands after the events `events`, one after the other,
/// and what it told the caller to do at each.
pub open spec fn run(config: ConfigView, state: StateView, events: Seq<EventView>) -> (
    StateView,
    Seq<ActionView>,
)
    decreases events.len(),
{
    if events.len() == 0 {
        (state, Seq::empty())
    } else {
        let before = run(config, state, events.drop_last());
        let step = next_step(config, before.0, events.last());
        (step.0, before.1.push(step.1))
    }
}

/// The number of responses among `actions`.
pub open spec fn writes(actions: Seq<ActionView>) -> nat
    decreases actions.len(),
{
    if actions.len() == 0 {
        0
    } else {
        writes(actions.drop_last()) + if actions.last() is Write {
            1nat
        } else {
            0nat
        }
    }
}

/// The number of plan lookups among `actions`.
pub open spec fn lookups(actions: Seq<ActionView>) -> nat
    decreases actions.len(),
{
    if actions.len() == 0 {
        0
    } else {
        lookups(actions.drop_last()) + if actions.last() is ReadPlan {
            1nat
        } else {
            0nat
        }
    }
}

/// The number of responses that may still be written from `state`.
pub open spec fn responses_left(state: StateView) -> nat {
    match state {
        StateView::AwaitRequest | StateView::Parsed(_) => 1,
        StateView::Responded { .. } | StateView::Closed { .. } => 0,
    }
}

/// The number of plan lookups that may still be asked for from `state`.
pub open spec fn lookups_left(state: StateView) -> nat {
    match state {
        StateView::AwaitRequest => 1,
        _ => 0,
    }
}

/// Whether the connection counts as failed in `state`.
pub open spec fn marked_failed(state: StateView) -> bool {
    match state {
        StateView::Responded { failure } => failure is Some,
        StateView::Closed { failure } => failure is Some,
        _ => false,
    }
}

/// Whatever the caller reports, from whatever state, the machine asks for no
/// more responses and lookups than the state leaves.
pub proof fn lemma_run_is_bounded(config: ConfigView, state: StateView, events: Seq<EventView>)
    ensures
        writes(run(config, state, events).1) + responses_left(run(config, state, events).0)
            <= responses_left(state),
        lookups(run(config, state, events).1) + lookups_left(run(config, state, events).0)
            <= lookups_left(state),
    decreases events.len(),
{
    if events.len() > 0 {
        lemma_run_is_bounded(config, state, events.drop_last());
        let before = run(config, state, events.drop_last());
        assert(run(config, state, events).1.drop_last() =~= before.1);
    }
}

/// At most one response is written on a connection, and at most one plan is
/// looked up, whatever the caller reports.
pub proof fn lemma_one_response(config: ConfigView, events: Seq<EventView>)
    ensures
        writes(run(config, StateView::AwaitRequest, events).1) <= 1,
        lookups(run(config, StateView::AwaitRequest, events).1) <= 1,
{
    lemma_run_is_bounded(config, StateView::AwaitRequest, events);
}

/// A connection that ends without a failure has had exactly one response
/// written.
pub proof fn lemma_served_has_one_response(config: ConfigView, events: Seq<EventView>)
    ensures
        run(config, StateView::AwaitRequest, events).0 == (StateView::Closed { failure: None })
            ==> writes(run(config, StateView::AwaitRequest, events).1) == 1,
        run(config, StateView::AwaitRequest, events).0 is Responded ==> writes(
            run(config, StateView::AwaitRequest, events).1,
        ) == 1,
        run(config, StateView::AwaitRequest, events).0 is AwaitRequest || run(
            config,
            StateView::AwaitRequest,
            events,
        ).0 is Parsed ==> writes(run(config, StateView::AwaitRequest, events).1) == 0,
    decreases events.len(),
{
    if events.len() > 0 {
        lemma_served_has_one_response(config, events.drop_last());
        let before = run(config, StateView::AwaitRequest, events.drop_last());
        assert(run(config, StateView::AwaitRequest, events).1.drop_last() =~= before.1);
    }
}

/// A connection that counts as failed stays so.
pub proof fn lemma_failure_sticks(config: ConfigView, state: StateView, events: Seq<EventView>)
    requires
        marked_failed(state),
    ensures
        marked_failed(run(config, state, events).0),
    decreases events.len(),
{
    if events.len() > 0 {
        lemma_failure_sticks(config, state, events.drop_last());
    }
}

/// A malformed request is answered at once and marks the connection as
/// failed: no plan is looked up before or after, no second response is
/// written, and the connection stays failed.
pub proof fn lemma_malformed_request(config: ConfigView, buf: Seq<u8>, events: Seq<EventView>)
    requires
        decoded_request(buf) == Some(RequestView::Malformed),
    ensures
        next_step(config, StateView::AwaitRequest, EventView::Received(buf)) == (
            StateView::Responded { failure: Some(Failure::Malformed) },
            ActionView::Write(malformed_text()),
        ),
        lookups(
            run(config, StateView::Responded { failure: Some(Failure::Malformed) }, events).1,
        ) == 0,
        writes(
            run(config, StateView::Responded { failure: Some(Failure::Malformed) }, events).1,
        ) == 0,
        marked_failed(
            run(config, StateView::Responded { failure: Some(Failure::Malformed) }, events).0,
        ),
{
    let answered = StateView::Responded { failure: Some(Failure::Malformed) };
    lemma_run_is_bounded(config, answered, events);
    lemma_failure_sticks(config, answered, events);
}

/// A request for a user who has a plan is served in three steps: the plan
/// is looked up where plans are kept, the response is the plan and one
/// newline, and the connection closes without a failure.
pub proof fn lemma_plan_is_served(
    config: ConfigView,
    buf: Seq<u8>,
    name: Seq<char>,
    plan: Seq<char>,
)
    requires
        decoded_request(buf) == Some(RequestView::Named(name)),
    ensures
        run(
            config,
            StateView::AwaitRequest,
            seq![EventView::Received(buf), EventView::Plan(Some(plan)), EventView::Written],
        ) == (
            StateView::Closed { failure: None },
            seq![
                ActionView::ReadPlan(plan_path_of(config, name)),
                ActionView::Write(plan + "\n"@),
                ActionView::Close { failure: None },
            ],
        ),
{
    let events = seq![
        EventView::Received(buf),
        EventView::Plan(Some(plan)),
        EventView::Written,
    ];
    lemma_run_of_three(config, events);
}

/// A request for a user who has no plan is served in three steps: the
/// plan is looked up, the response says that the user is not here, and the
/// connection closes without a failure.
pub proof fn lemma_absence_is_served(config: ConfigView, buf: Seq<u8>, name: Seq<char>)
    requires
        decoded_request(buf) == Some(RequestView::Named(name)),
    ensures
        run(
            config,
            StateView::AwaitRequest,
            seq![EventView::Received(buf), EventView::Plan(None), EventView::Written],
        ) == (
            StateView::Closed { failure: None },
            seq![
                ActionView::ReadPlan(plan_path_of(config, name)),
                ActionView::Write(name + "'s not here man.\n"@),
                ActionView::Close { failure: None },
            ],
        ),
{
    let events = seq![EventView::Received(buf), EventView::Plan(None), EventView::Written];
    lemma_run_of_three(config, events);
}

/// An empty request is served in three steps: the state of the host is
/// gathered, the response is the report on it, and the connection closes
/// without a failure.
pub proof fn lemma_report_is_served(config: ConfigView, buf: Seq<u8>, status: StatusView)
    requires
        decoded_request(buf) == Some(RequestView::Empty),
    ensures
        run(
            config,
            StateView::AwaitRequest,
            seq![EventView::Received(buf), EventView::Status(status), EventView::Written],
        ) == (
            StateView::Closed { failure: None },
            seq![
                ActionView::GatherStatus,
                ActionView::Write(report_text(config, status)),
                ActionView::Close { failure: None },
            ],
        ),
{
    let events = seq![EventView::Received(buf), EventView::Status(status), EventView::Written];
    lemma_run_of_three(config, events);
}

/// A run of three events is three steps, one from the other.
proof fn lemma_run_of_three(config: ConfigView, events: Seq<EventView>)
    requires
        events.len() == 3,
    ensures
        ({
            let first = next_step(config, StateView::AwaitRequest, events[0]);
            let second = next_step(config, first.0, events[1]);
            let third = next_step(config, second.0, events[2]);
            run(config, StateView::AwaitRequest, events) == (
                third.0,
                seq![first.1, second.1, third.1],
            )
        }),
{
    let two = events.drop_last();
    let one = two.drop_last();
    assert(one.drop_last().len() == 0);
    assert(one.last() == events[0]);
    assert(two.last() == events[1]);
    assert(events.last() == events[2]);
    let first = next_step(config, StateView::AwaitRequest, events[0]);
    let second = next_step(config, first.0, events[1]);
    let third = next_step(config, second.0, events[2]);
    assert(run(config, StateView::AwaitRequest, one.drop_last()) == (
        StateView::AwaitRequest,
        Seq::<ActionView>::empty(),
    ));
    assert(run(config, StateView::AwaitRequest, one).1 =~= seq![first.1]);
    assert(run(config, StateView::AwaitRequest, two).1 =~= seq![first.1, second.1]);
    assert(run(config, StateView::AwaitRequest, events).1 =~= seq![first.1, second.1, third.1]);
}

/// A failure that the caller reports closes the connection as failed, and
/// a connection that is closed stays as it is.
pub proof fn lemma_failure_closes(config: ConfigView, state: StateView)
    ensures
        !(state is Closed) ==> next_step(config, state, EventView::Failed) == close(
            Some(failure_in(state)),
        ),
        state is Closed ==> next_step(config, state, EventView::Failed).0 == state,
{
}

/// The response to a malformed request.
pub fn malformed_response() -> (text: String)
    ensures
        text@ == malformed_text(),
{
    String::from_str("Malformed response\n")
}

/// The response to a request for a user whose plan reads `plan`.
pub fn plan_response(plan: &str) -> (text: String)
    ensures
        text@ == plan_text(plan@),
{
    let mut text = String::from_str(plan);
    text.append("\n");
    text
}

/// The response to a request for the user `name`, who has no plan.
pub fn absent_response(name: &str) -> (text: String)
    ensures
        text@ == absent_text(name@),
{
    let mut text = String::from_str(name);
    text.append("'s not here man.\n");
    text
}

/// Why a connection fails when, in `state`, anything but the awaited event
/// comes.
fn failure_at(state: &State) -> (failure: Failure)
    ensures
        failure == failure_in(state@),
{
    match state {
        State::Parsed(Request::Named(_)) => Failure::PlanAccess,
        State::Parsed(Request::Malformed) => Failure::Malformed,
        _ => Failure::Io,
    }
}

/// Takes one step: from `state`, on `event`, to the next state and the next
/// thing for the caller to do.
pub fn handle_connection(config: &Config, state: State, event: Event) -> (step: (State, Action))
    ensures
        (step.0@, step.1@) == next_step(config@, state@, event@),
{
    match (state, event) {
        (State::Closed { failure }, _) => (State::Closed { failure }, Action::Close { failure }),
        (State::AwaitRequest, Event::Received(buf)) => match decode_request(buf.as_slice()) {
            Some(Request::Empty) => (State::Parsed(Request::Empty), Action::GatherStatus),
            Some(Request::Named(name)) => {
                let path = plan_path(config, name.as_str());
                (State::Parsed(Request::Named(name)), Action::ReadPlan(path))
            },
            Some(Request::Malformed) => (
                State::Responded { failure: Some(Failure::Malformed) },
                Action::Write(malformed_response()),
            ),
            None => {
                let failure = Some(Failure::Undecodable);
                (State::Closed { failure }, Action::Close { failure })
            },
        },
        (State::Parsed(Request::Empty), Event::Status(status)) => (
            State::Responded { failure: None },
            Action::Write(server_info(config, &status)),
        ),
        (State::Parsed(Request::Named(name)), Event::Plan(Some(plan))) => (
            State::Responded { failure: None },
            Action::Write(plan_response(plan.as_str())),
        ),
        (State::Parsed(Request::Named(name)), Event::Plan(None)) => (
            State::Responded { failure: None },
            Action::Write(absent_response(name.as_str())),
        ),
        (State::Responded { failure }, Event::Written) => (
            State::Closed { failure },
            Action::Close { failure },
        ),
        (state, _) => {
            let failure = Some(failure_at(&state));
            (State::Closed { failure }, Action::Close { failure })
        },
    }
}

} // verus!
