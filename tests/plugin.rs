use farm_core::plugin::{
    dispatch_start, first_responder_step, sequential_step, stage_error, CompilationError, DispatchStep,
    HookOutcome, HookStage,
};

/// Drives a first-responder-wins call over answers given in order, and
/// records which hooks were called.
fn run_first(answers: Vec<HookOutcome<&'static str>>) -> (DispatchStep<&'static str>, Vec<usize>) {
    let count = answers.len();
    let mut answers: Vec<Option<HookOutcome<&'static str>>> = answers.into_iter().map(Some).collect();
    let mut called = Vec::new();
    let mut step = dispatch_start(count);
    while let DispatchStep::Invoke(i) = step {
        called.push(i);
        step = first_responder_step(count, i, answers[i].take().unwrap());
    }
    (step, called)
}

#[test]
fn first_handler_wins() {
    let (step, called) = run_first(vec![HookOutcome::Handled("first"), HookOutcome::Handled("second")]);
    assert!(matches!(step, DispatchStep::Done(Some((0, "first")))));
    assert_eq!(called, vec![0]);
}

#[test]
fn skipped_plugins_pass_the_call_on() {
    let (step, called) = run_first(vec![HookOutcome::Skip, HookOutcome::Handled("b"), HookOutcome::Handled("c")]);
    assert!(matches!(step, DispatchStep::Done(Some((1, "b")))));
    assert_eq!(called, vec![0, 1]);
}

#[test]
fn all_skip_is_not_handled() {
    let (step, called) = run_first(vec![HookOutcome::Skip, HookOutcome::Skip]);
    assert!(matches!(step, DispatchStep::Done(None)));
    assert_eq!(called, vec![0, 1]);
    let (step, called) = run_first(vec![]);
    assert!(matches!(step, DispatchStep::Done(None)));
    assert!(called.is_empty());
}

#[test]
fn failure_aborts_the_call() {
    let (step, called) = run_first(vec![HookOutcome::Skip, HookOutcome::Failed("bad".to_string()), HookOutcome::Handled("c")]);
    match step {
        DispatchStep::Abort(i, m) => {
            assert_eq!(i, 1);
            assert_eq!(m, "bad");
        }
        _ => panic!("expected an abort"),
    }
    assert_eq!(called, vec![0, 1]);
}

#[test]
fn sequential_calls_every_plugin() {
    let step: DispatchStep<()> = sequential_step(3, 0, HookOutcome::Handled(()));
    assert!(matches!(step, DispatchStep::Invoke(1)));
    let step: DispatchStep<()> = sequential_step(3, 1, HookOutcome::Skip);
    assert!(matches!(step, DispatchStep::Invoke(2)));
    let step: DispatchStep<()> = sequential_step(3, 2, HookOutcome::Handled(()));
    assert!(matches!(step, DispatchStep::Done(None)));
    let step: DispatchStep<()> = sequential_step(3, 1, HookOutcome::Failed("x".to_string()));
    assert!(matches!(step, DispatchStep::Abort(1, _)));
}

#[test]
fn stage_errors_carry_their_context() {
    let e = stage_error(HookStage::Load, "a.ts", "FarmPluginScript", "not found".to_string());
    match &e {
        CompilationError::LoadError { module_id, plugin, message } => {
            assert_eq!(module_id, "a.ts");
            assert_eq!(plugin, "FarmPluginScript");
            assert_eq!(message, "not found");
        }
        _ => panic!("expected a load error"),
    }
    assert!(!e.is_fatal());
    let e = stage_error(HookStage::Config, "", "p", "bad config".to_string());
    assert!(matches!(e, CompilationError::ConfigurationError { .. }));
    assert!(e.is_fatal());
    assert!(matches!(stage_error(HookStage::Parse, "m", "p", String::new()), CompilationError::ParseError { .. }));
    assert!(matches!(stage_error(HookStage::AnalyzeDeps, "m", "p", String::new()), CompilationError::DependencyAnalysisError { .. }));
    assert!(matches!(stage_error(HookStage::ProcessModule, "m", "p", String::new()), CompilationError::TransformError { .. }));
    assert!(matches!(stage_error(HookStage::GenerateResources, "m", "p", String::new()), CompilationError::GenerationError { .. }));
    assert!(!CompilationError::CacheCorruptionError { module_id: "m".to_string() }.is_fatal());
    assert!(CompilationError::IdentityConflictError {
        module_id: "m".to_string(),
        first_path: "/a/m".to_string(),
        second_path: "/b/m".to_string(),
    }
    .is_fatal());
}
