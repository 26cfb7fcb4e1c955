use trunk_core::migrate::{
    step_next, step_start, Migration, MigrationState, Migrator, StepAction, StepDecision,
    StepPhase,
};

fn engine(migrations: Vec<Migration>) -> Migrator {
    Migrator::new_with_root(migrations, MigrationState::default())
}

fn failed_names(m: &Migrator) -> Vec<String> {
    let mut v = m.state.failed_migrations.clone();
    v.sort();
    v
}

// The recovery scenario: the first pass marks the failing step and moves
// past it, the last step still runs, and the retry pass clears the
// failure; the persisted state equals the in-memory state at both
// observation points.
#[test]
fn migration_recovery() {
    let migrations = vec![
        Migration::new("A".to_string()),
        Migration::new("B".to_string()),
        Migration::new("C".to_string()),
    ];
    let mut engine = engine(migrations);
    let mut ran: Vec<(String, bool)> = Vec::new();

    // first pass: B fails once
    while engine.more_migrations() {
        match engine.execute_begin().unwrap() {
            StepDecision::Run(i) => {
                let name = engine.migrations[i].name.clone();
                let ok = name != "B";
                ran.push((name, ok));
                engine.execute_commit(i, ok);
            }
            StepDecision::DependencyFailed(_) => panic!("no declared dependencies here"),
        }
        let persisted = engine.persist_state();
        assert_eq!(persisted, engine.state);
    }

    assert_eq!(
        ran,
        vec![
            ("A".to_string(), true),
            ("B".to_string(), false),
            ("C".to_string(), true)
        ]
    );
    assert_eq!(engine.state.current_state, 3);
    assert_eq!(failed_names(&engine), vec!["B".to_string()]);
    assert!(engine.execute_begin().is_err());

    // the retry pass: B succeeds now and leaves the failed set
    for index in engine.retry_candidates() {
        if engine.retry_begin(index) {
            engine.retry_commit(index, true);
        }
    }
    let persisted = engine.persist_state();
    assert_eq!(persisted, engine.state);
    assert!(failed_names(&engine).is_empty());
    assert_eq!(engine.state.current_state, 3);
}

// A step whose declared dependency failed is marked failed without
// running, including through transitive chains.
#[test]
fn dependency_blocking() {
    let migrations = vec![
        Migration::new("base".to_string()),
        Migration::new_with_dependencies("middle".to_string(), vec!["base".to_string()]),
        Migration::new_with_dependencies("top".to_string(), vec!["middle".to_string()]),
    ];
    let mut engine = engine(migrations);

    // base fails
    match engine.execute_begin().unwrap() {
        StepDecision::Run(i) => {
            engine.execute_commit(i, false);
        }
        StepDecision::DependencyFailed(_) => panic!("base has no dependencies"),
    }
    assert_eq!(failed_names(&engine), vec!["base".to_string()]);

    // middle is blocked by base directly
    match engine.execute_begin().unwrap() {
        StepDecision::DependencyFailed(i) => assert_eq!(i, 1),
        StepDecision::Run(_) => panic!("middle depends on the failed base"),
    }
    // top is blocked transitively, through middle
    match engine.execute_begin().unwrap() {
        StepDecision::DependencyFailed(i) => assert_eq!(i, 2),
        StepDecision::Run(_) => panic!("top transitively depends on the failed base"),
    }
    let mut expected = vec!["base".to_string(), "middle".to_string(), "top".to_string()];
    expected.sort();
    assert_eq!(failed_names(&engine), expected);

    // a retry of top is still blocked while base is failed
    assert!(!engine.retry_begin(2));
    // clearing base unblocks the chain bottom-up
    engine.retry_commit(0, true);
    assert!(engine.retry_begin(1));
    engine.retry_commit(1, true);
    assert!(engine.retry_begin(2));
    engine.retry_commit(2, true);
    assert!(failed_names(&engine).is_empty());
}

// The cursor moves past a step before it runs, so a crash cannot re-run
// it blindly; failures land in the failed set instead.
#[test]
fn cursor_is_monotone() {
    let migrations = vec![Migration::new("only".to_string())];
    let mut engine = engine(migrations);
    assert!(engine.more_migrations());
    match engine.execute_begin().unwrap() {
        StepDecision::Run(i) => {
            // the cursor is already past the step while it runs
            assert_eq!(engine.state.current_state, 1);
            engine.execute_commit(i, true);
        }
        StepDecision::DependencyFailed(_) => panic!("no dependencies declared"),
    }
    assert!(!engine.more_migrations());
    assert!(engine.execute_begin().is_err());
    assert_eq!(engine.state.current_state, 1);
}

// Reinsertion into the failed set is a no-op; the set stays a set.
#[test]
fn failed_set_semantics() {
    let migrations = vec![
        Migration::new("flaky".to_string()),
        Migration::new("flaky".to_string()),
    ];
    let mut engine = engine(migrations);
    for _ in 0..2 {
        match engine.execute_begin().unwrap() {
            StepDecision::Run(i) => {
                engine.execute_commit(i, false);
            }
            StepDecision::DependencyFailed(_) => panic!("no dependencies declared"),
        }
    }
    assert_eq!(failed_names(&engine), vec!["flaky".to_string()]);
}

// Resuming from a persisted state skips the steps already done.
#[test]
fn resume_from_state() {
    let migrations = vec![
        Migration::new("one".to_string()),
        Migration::new("two".to_string()),
    ];
    let state = MigrationState {
        current_state: 1,
        failed_migrations: Vec::new(),
    };
    let mut engine = Migrator::new_with_root(migrations, state);
    assert!(engine.more_migrations());
    match engine.execute_begin().unwrap() {
        StepDecision::Run(i) => {
            assert_eq!(engine.migrations[i].name, "two");
            engine.execute_commit(i, true);
        }
        StepDecision::DependencyFailed(_) => panic!("no dependencies declared"),
    }
    assert!(!engine.more_migrations());
}

// An independent step is not blocked by an unrelated failure, and the
// failed step's own retry is allowed once nothing it depends on is
// failed.
#[test]
fn unrelated_failure_does_not_block() {
    let migrations = vec![
        Migration::new("a".to_string()),
        Migration::new("b".to_string()),
        Migration::new("c".to_string()),
    ];
    let mut engine = engine(migrations);
    match engine.execute_begin().unwrap() {
        StepDecision::Run(i) => {
            engine.execute_commit(i, true);
        }
        StepDecision::DependencyFailed(_) => panic!("a has no dependencies"),
    }
    // b fails
    match engine.execute_begin().unwrap() {
        StepDecision::Run(i) => {
            engine.execute_commit(i, false);
        }
        StepDecision::DependencyFailed(_) => panic!("b has no dependencies"),
    }
    assert_eq!(failed_names(&engine), vec!["b".to_string()]);
    // c does not depend on b and must run
    match engine.execute_begin().unwrap() {
        StepDecision::Run(i) => {
            assert_eq!(engine.migrations[i].name, "c");
            engine.execute_commit(i, true);
        }
        StepDecision::DependencyFailed(_) => panic!("c does not depend on b"),
    }
    // b itself depends on nothing failed, so its retry is allowed
    assert!(engine.retry_begin(1));
    engine.retry_commit(1, true);
    assert!(failed_names(&engine).is_empty());
}

// The within-step machine orders check, run, post-check, and the first
// failure ends the step.
#[test]
fn step_machine_ordering() {
    assert_eq!(step_start(true), StepPhase::Check);
    assert_eq!(step_start(false), StepPhase::Run);

    // any failed phase ends the step at once
    assert_eq!(step_next(StepPhase::Check, false, true), StepAction::Done(false));
    assert_eq!(step_next(StepPhase::Run, false, true), StepAction::Done(false));
    assert_eq!(step_next(StepPhase::PostCheck, false, false), StepAction::Done(false));

    // a passed check leads to the run; a passed run to the post-check
    // when there is one, else to success
    assert_eq!(
        step_next(StepPhase::Check, true, false),
        StepAction::Proceed(StepPhase::Run)
    );
    assert_eq!(
        step_next(StepPhase::Run, true, true),
        StepAction::Proceed(StepPhase::PostCheck)
    );
    assert_eq!(step_next(StepPhase::Run, true, false), StepAction::Done(true));
    assert_eq!(step_next(StepPhase::PostCheck, true, true), StepAction::Done(true));
}
