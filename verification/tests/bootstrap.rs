use toe::bootstrap::{
    is_privileged, privdrop, start, step, Action, Failure, Identity, Outcome, State,
    EXIT_FAILURE,
};
use toe::config::Config;

const ID: Identity = Identity { uid: 1000, gid: 2000 };
const FOUND: Outcome = Outcome::Lookup { uid: Some(1000), gid: Some(2000) };

fn exit() -> Action {
    Action::Exit { code: EXIT_FAILURE }
}

/// Starts as root and feeds the outcomes, one after the other.
fn run(config: &Config, outcomes: &[Outcome]) -> (State, Vec<Action>) {
    let (mut state, first) = start(config, 0, 0);
    let mut actions = vec![first];
    for outcome in outcomes {
        let (next, action) = step(config, state, *outcome);
        state = next;
        actions.push(action);
    }
    (state, actions)
}

#[test]
fn exit_code_of_a_failed_start_is_not_zero() {
    assert_ne!(EXIT_FAILURE, 0);
}

#[test]
fn root_user_or_root_group_is_privileged() {
    assert!(is_privileged(0, 0));
    assert!(is_privileged(0, 1000));
    assert!(is_privileged(1000, 0));
    assert!(!is_privileged(1000, 1000));
}

#[test]
fn start_without_privilege_is_refused() {
    let config = Config::default();
    assert_eq!(start(&config, 1000, 1000), (State::Aborted(Failure::Unprivileged), exit()));
}

#[test]
fn start_without_a_worker_is_refused() {
    let mut config = Config::default();
    config.threads = 0;
    assert_eq!(start(&config, 0, 0), (State::Aborted(Failure::Config), exit()));
}

#[test]
fn start_asks_for_the_identity() {
    let config = Config::default();
    assert_eq!(
        start(&config, 0, 0),
        (
            State::Start,
            Action::Resolve { user: String::from("toe"), group: String::from("toe") }
        )
    );
}

#[test]
fn steps_of_a_confined_start_in_order() {
    let config = Config::default();
    let done = Outcome::Done;
    let (state, actions) = run(&config, &[FOUND, done, done, done, done, done]);
    assert_eq!(state, State::Serving);
    assert_eq!(
        actions,
        vec![
            Action::Resolve { user: String::from("toe"), group: String::from("toe") },
            Action::Chroot(String::from("/srv")),
            Action::Chdir(String::from("/")),
            Action::Bind(String::from("0.0.0.0:79")),
            Action::SetGid(2000),
            Action::SetUid(1000),
            Action::Serve { workers: 4 },
        ]
    );
}

#[test]
fn steps_of_a_start_that_is_not_confined() {
    let mut config = Config::default();
    config.chroot = false;
    config.threads = 2;
    let done = Outcome::Done;
    let (state, actions) = run(&config, &[FOUND, done, done, done, done]);
    assert_eq!(state, State::Serving);
    assert_eq!(
        actions,
        vec![
            Action::Resolve { user: String::from("toe"), group: String::from("toe") },
            Action::Chdir(String::from("/")),
            Action::Bind(String::from("0.0.0.0:79")),
            Action::SetGid(2000),
            Action::SetUid(1000),
            Action::Serve { workers: 2 },
        ]
    );
}

#[test]
fn states_of_a_confined_start() {
    let config = Config::default();
    let mut state = State::Start;
    let mut seen = vec![state];
    let done = Outcome::Done;
    for outcome in [FOUND, done, done, done, done, done] {
        state = step(&config, state, outcome).0;
        seen.push(state);
    }
    assert_eq!(
        seen,
        vec![
            State::Start,
            State::Resolved(ID),
            State::Jailed(ID),
            State::Entered(ID),
            State::Bound(ID),
            State::GroupDropped(ID),
            State::Serving,
        ]
    );
}

#[test]
fn unknown_user_or_group_aborts() {
    let config = Config::default();
    for outcome in [
        Outcome::Lookup { uid: None, gid: Some(1) },
        Outcome::Lookup { uid: Some(1), gid: None },
        Outcome::Lookup { uid: None, gid: None },
        Outcome::Failed,
        Outcome::Done,
    ] {
        assert_eq!(
            step(&config, State::Start, outcome),
            (State::Aborted(Failure::Identity), exit())
        );
    }
}

#[test]
fn each_step_that_fails_aborts_with_its_reason() {
    let config = Config::default();
    for (state, reason) in [
        (State::Resolved(ID), Failure::Jail),
        (State::Jailed(ID), Failure::Jail),
        (State::Entered(ID), Failure::Bind),
        (State::Bound(ID), Failure::Privilege),
        (State::GroupDropped(ID), Failure::Privilege),
    ] {
        assert_eq!(step(&config, state, Outcome::Failed), (State::Aborted(reason), exit()));
        assert_eq!(step(&config, state, FOUND), (State::Aborted(reason), exit()));
    }
}

#[test]
fn group_id_is_changed_before_the_user_id() {
    let config = Config::default();
    assert_eq!(
        step(&config, State::Entered(ID), Outcome::Done),
        (State::Bound(ID), Action::SetGid(2000))
    );
    assert_eq!(
        step(&config, State::Bound(ID), Outcome::Done),
        (State::GroupDropped(ID), Action::SetUid(1000))
    );
    assert_eq!(
        privdrop(&config, State::Bound(ID), Outcome::Done),
        (State::GroupDropped(ID), Action::SetUid(1000))
    );
    assert_eq!(
        privdrop(&config, State::GroupDropped(ID), Outcome::Done),
        (State::Serving, Action::Serve { workers: 4 })
    );
}

#[test]
fn privdrop_outside_its_two_states_aborts() {
    let config = Config::default();
    for state in [State::Start, State::Resolved(ID), State::Entered(ID), State::Serving] {
        assert_eq!(
            privdrop(&config, state, Outcome::Done),
            (State::Aborted(Failure::Privilege), exit())
        );
    }
}

#[test]
fn failed_change_of_the_group_id_never_serves() {
    let config = Config::default();
    let done = Outcome::Done;
    let (state, actions) =
        run(&config, &[FOUND, done, done, done, Outcome::Failed, done, done, done]);
    assert_eq!(state, State::Aborted(Failure::Privilege));
    assert!(actions.iter().all(|a| !matches!(a, Action::Serve { .. })));
    assert!(actions.iter().all(|a| !matches!(a, Action::SetUid(_))));
    assert_eq!(actions[5..], [exit(), exit(), exit(), exit()]);
}

#[test]
fn failed_change_of_the_user_id_never_serves() {
    let config = Config::default();
    let done = Outcome::Done;
    let (state, actions) =
        run(&config, &[FOUND, done, done, done, done, Outcome::Failed, done, done]);
    assert_eq!(state, State::Aborted(Failure::Privilege));
    assert!(actions.iter().all(|a| !matches!(a, Action::Serve { .. })));
    assert_eq!(actions[4], Action::SetGid(2000));
    assert_eq!(actions[5], Action::SetUid(1000));
    assert_eq!(actions[6..], [exit(), exit(), exit()]);
}

#[test]
fn every_run_changes_the_group_id_right_before_the_user_id() {
    let config = Config::default();
    let choices = [FOUND, Outcome::Done, Outcome::Failed];
    // Every sequence of seven outcomes out of the three.
    for code in 0..3usize.pow(7) {
        let mut outcomes = Vec::new();
        let mut c = code;
        for _ in 0..7 {
            outcomes.push(choices[c % 3]);
            c /= 3;
        }
        let (state, actions) = run(&config, &outcomes);
        for (j, action) in actions.iter().enumerate() {
            if matches!(action, Action::SetUid(_)) {
                assert!(j >= 1);
                assert!(matches!(actions[j - 1], Action::SetGid(_)));
                assert_eq!(outcomes[j - 1], Outcome::Done);
            }
            if matches!(action, Action::Serve { .. }) {
                assert_eq!(state, State::Serving);
                let done = Outcome::Done;
                assert!(outcomes[..6] == [FOUND, done, done, done, done, done]);
            }
        }
    }
}

#[test]
fn serving_and_aborted_are_final() {
    let config = Config::default();
    for outcome in [FOUND, Outcome::Done, Outcome::Failed] {
        assert_eq!(
            step(&config, State::Serving, outcome),
            (State::Serving, Action::Serve { workers: 4 })
        );
        assert_eq!(
            step(&config, State::Aborted(Failure::Bind), outcome),
            (State::Aborted(Failure::Bind), exit())
        );
    }
}
