use toe::config::{Config, Stats};
use toe::handler::{
    absent_response, handle_connection, malformed_response, plan_response, Action, Event,
    Failure, State,
};
use toe::report::{Activity, Kernel, LoadAverage, Status, UserEntry};
use toe::request::Request;
use toe::time::{Clock, Time};

fn host(users: Vec<UserEntry>) -> Status {
    Status {
        users,
        activity: Activity {
            clock: Clock { hour: 0, minute: 0, second: 0 },
            uptime: Time::uptime(0),
            sessions: 0,
            load: LoadAverage {
                one: String::from("0"),
                five: String::from("0"),
                fifteen: String::from("0"),
            },
        },
        kernel: Kernel { name: None, kernel_version: None, os_version: None },
        sensors: Vec::new(),
    }
}

fn received(text: &[u8]) -> Event {
    let mut buf = vec![0u8; 1024];
    buf[..text.len()].copy_from_slice(text);
    Event::Received(buf)
}

fn closed(failure: Option<Failure>) -> (State, Action) {
    (State::Closed { failure }, Action::Close { failure })
}

fn same(step: (State, Action), expected: (State, Action)) {
    assert_eq!(format!("{:?}", step.0), format!("{:?}", expected.0));
    assert_eq!(step.1, expected.1);
}

#[test]
fn responses() {
    assert_eq!(malformed_response(), "Malformed response\n");
    assert_eq!(plan_response("hi"), "hi\n");
    assert_eq!(plan_response(""), "\n");
    assert_eq!(absent_response("bob"), "bob's not here man.\n");
}

#[test]
fn failures_in_words() {
    assert_eq!(Failure::Malformed.message(), "Malformed response");
    assert_eq!(Failure::Undecodable.message(), "Request is not text");
    assert_eq!(Failure::Io.message(), "Connection failed");
    assert_eq!(Failure::PlanAccess.message(), "Plan could not be read");
}

#[test]
fn plan_that_ends_in_a_newline_gets_one_more() {
    assert_eq!(plan_response("hi\n"), "hi\n\n");
}

#[test]
fn named_request_with_a_plan() {
    let config = Config::default();
    let (state, action) = handle_connection(&config, State::AwaitRequest, received(b"alice"));
    assert_eq!(action, Action::ReadPlan(String::from("/alice/.plan")));
    assert!(matches!(&state, State::Parsed(Request::Named(name)) if name == "alice"));
    let (state, action) =
        handle_connection(&config, state, Event::Plan(Some(String::from("hi\n"))));
    assert_eq!(action, Action::Write(String::from("hi\n\n")));
    assert!(matches!(state, State::Responded { failure: None }));
    same(handle_connection(&config, state, Event::Written), closed(None));
}

#[test]
fn named_request_looks_under_the_root_directory_when_not_confined() {
    let mut config = Config::default();
    config.chroot = false;
    let (_, action) = handle_connection(&config, State::AwaitRequest, received(b"alice"));
    assert_eq!(action, Action::ReadPlan(String::from("/srv/alice/.plan")));
}

#[test]
fn named_request_without_a_plan() {
    let config = Config::default();
    let (state, action) = handle_connection(&config, State::AwaitRequest, received(b"bob\r\n"));
    assert_eq!(action, Action::ReadPlan(String::from("/bob/.plan")));
    let (state, action) = handle_connection(&config, state, Event::Plan(None));
    assert_eq!(action, Action::Write(String::from("bob's not here man.\n")));
    assert!(matches!(state, State::Responded { failure: None }));
    same(handle_connection(&config, state, Event::Written), closed(None));
}

#[test]
fn malformed_request_is_answered_without_a_lookup() {
    let config = Config::default();
    let (state, action) = handle_connection(&config, State::AwaitRequest, received(b"a b"));
    assert_eq!(action, Action::Write(String::from("Malformed response\n")));
    assert!(matches!(state, State::Responded { failure: Some(Failure::Malformed) }));
    same(handle_connection(&config, state, Event::Written), closed(Some(Failure::Malformed)));
}

#[test]
fn empty_request_gets_the_report() {
    let mut config = Config::default();
    config.stats = Stats { users: true, uptime: false, kernel: false, cpu: false };
    let (state, action) = handle_connection(&config, State::AwaitRequest, received(b""));
    assert_eq!(action, Action::GatherStatus);
    assert!(matches!(state, State::Parsed(Request::Empty)));
    let users = vec![UserEntry { name: String::from("alice"), has_plan: true }];
    let (state, action) = handle_connection(&config, state, Event::Status(host(users)));
    assert_eq!(
        action,
        Action::Write(String::from("localhost\n=========\n\nUsers:  alice\n\n"))
    );
    assert!(matches!(state, State::Responded { failure: None }));
    same(handle_connection(&config, state, Event::Written), closed(None));
}

#[test]
fn empty_request_without_users_lists_none() {
    let mut config = Config::default();
    config.stats = Stats { users: true, uptime: false, kernel: false, cpu: false };
    let (state, _) = handle_connection(&config, State::AwaitRequest, received(b"\n"));
    let (_, action) = handle_connection(&config, state, Event::Status(host(Vec::new())));
    assert_eq!(action, Action::Write(String::from("localhost\n=========\n\nUsers: \n\n")));
}

#[test]
fn request_that_is_not_text_closes_the_connection_as_failed() {
    let config = Config::default();
    same(
        handle_connection(&config, State::AwaitRequest, received(&[0xff, b'a'])),
        closed(Some(Failure::Undecodable)),
    );
}

#[test]
fn failure_closes_the_connection_as_failed() {
    let config = Config::default();
    same(
        handle_connection(&config, State::AwaitRequest, Event::Failed),
        closed(Some(Failure::Io)),
    );
    same(
        handle_connection(&config, State::Parsed(Request::Empty), Event::Failed),
        closed(Some(Failure::Io)),
    );
    same(
        handle_connection(
            &config,
            State::Parsed(Request::Named(String::from("alice"))),
            Event::Failed,
        ),
        closed(Some(Failure::PlanAccess)),
    );
    same(
        handle_connection(&config, State::Responded { failure: None }, Event::Failed),
        closed(Some(Failure::Io)),
    );
    same(
        handle_connection(
            &config,
            State::Responded { failure: Some(Failure::Malformed) },
            Event::Failed,
        ),
        closed(Some(Failure::Io)),
    );
}

#[test]
fn plan_that_cannot_be_read_fails_the_connection_without_a_response() {
    let config = Config::default();
    let (state, action) = handle_connection(&config, State::AwaitRequest, received(b"alice"));
    assert_eq!(action, Action::ReadPlan(String::from("/alice/.plan")));
    same(
        handle_connection(&config, state, Event::Failed),
        closed(Some(Failure::PlanAccess)),
    );
}

#[test]
fn closed_connection_stays_as_it_is() {
    let config = Config::default();
    for failure in [None, Some(Failure::Io), Some(Failure::Malformed)] {
        same(
            handle_connection(&config, State::Closed { failure }, Event::Failed),
            closed(failure),
        );
        same(
            handle_connection(&config, State::Closed { failure }, Event::Written),
            closed(failure),
        );
        same(
            handle_connection(&config, State::Closed { failure }, received(b"alice")),
            closed(failure),
        );
    }
}

#[test]
fn event_that_does_not_fit_the_state_closes_the_connection_as_failed() {
    let config = Config::default();
    same(
        handle_connection(&config, State::AwaitRequest, Event::Written),
        closed(Some(Failure::Io)),
    );
    same(
        handle_connection(&config, State::AwaitRequest, Event::Plan(None)),
        closed(Some(Failure::Io)),
    );
    same(
        handle_connection(&config, State::Parsed(Request::Empty), Event::Plan(None)),
        closed(Some(Failure::Io)),
    );
    same(
        handle_connection(
            &config,
            State::Parsed(Request::Named(String::from("a"))),
            Event::Status(host(Vec::new())),
        ),
        closed(Some(Failure::PlanAccess)),
    );
    same(
        handle_connection(&config, State::Parsed(Request::Malformed), Event::Written),
        closed(Some(Failure::Malformed)),
    );
    same(
        handle_connection(&config, State::Responded { failure: None }, received(b"again")),
        closed(Some(Failure::Io)),
    );
}

#[test]
fn at_most_one_response_whatever_is_reported() {
    let config = Config::default();
    let scripts: Vec<Vec<Event>> = vec![
        vec![received(b"alice"), Event::Plan(None), Event::Plan(None), Event::Written],
        vec![received(b"a b"), received(b"a b"), Event::Written, Event::Written],
        vec![received(b""), Event::Status(host(Vec::new())), Event::Status(host(Vec::new()))],
        vec![Event::Written, received(b"alice"), Event::Plan(None)],
        vec![received(b"alice"), received(b"bob"), Event::Plan(None)],
    ];
    for script in scripts {
        let mut state = State::AwaitRequest;
        let mut writes = 0;
        let mut lookups = 0;
        for event in script {
            let (next, action) = handle_connection(&config, state, event);
            state = next;
            match action {
                Action::Write(_) => writes += 1,
                Action::ReadPlan(_) => lookups += 1,
                _ => {}
            }
        }
        assert!(writes <= 1);
        assert!(lookups <= 1);
    }
}
