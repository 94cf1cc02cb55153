use vstd::prelude::*;

verus! {

/// A named extension point of the pipeline.
#[derive(PartialEq, Eq, Structural, Clone, Copy, Debug)]
pub enum HookStage {
    Config,
    Load,
    Parse,
    AnalyzeDeps,
    ProcessModule,
    GenerateResources,
}

/// What one plugin answered to a hook call.
pub enum HookOutcome<T> {
    /// The hook does not apply to this call.
    Skip,
    /// The hook handled the call, with its payload.
    Handled(T),
    /// The hook failed, with its message.
    Failed(String),
}

/// What the driver does next after a plugin answered.
pub enum DispatchStep<T> {
    /// Call the hook of the plugin at this index.
    Invoke(usize),
    /// The call is over: the index of the plugin that handled it and its
    /// payload, or `None` where no plugin did.
    Done(Option<(usize, T)>),
    /// The call is over with the failure of the plugin at this index.
    Abort(usize, String),
}

/// The first step of a call dispatched over `count` plugins.
pub open spec fn start_spec<T>(count: nat) -> DispatchStep<T> {
    if count == 0 {
        DispatchStep::Done(None)
    } else {
        DispatchStep::Invoke(0)
    }
}

/// First-responder-wins: a skip passes the call on to the next plugin, a
/// payload or a failure ends it.
pub open spec fn first_step_spec<T>(count: nat, index: nat, outcome: HookOutcome<T>) -> DispatchStep<T> {
    match outcome {
        HookOutcome::Skip => if index + 1 < count {
            DispatchStep::Invoke((index + 1) as usize)
        } else {
            DispatchStep::Done(None)
        },
        HookOutcome::Handled(t) => DispatchStep::Done(Some((index as usize, t))),
        HookOutcome::Failed(m) => DispatchStep::Abort(index as usize, m),
    }
}

/// All plugins in order: every answer but a failure passes the call on.
pub open spec fn sequential_step_spec<T>(count: nat, index: nat, outcome: HookOutcome<T>) -> DispatchStep<T> {
    match outcome {
        HookOutcome::Failed(m) => DispatchStep::Abort(index as usize, m),
        _ => if index + 1 < count {
            DispatchStep::Invoke((index + 1) as usize)
        } else {
            DispatchStep::Done(None)
        },
    }
}

/// The first step of a call dispatched over `count` plugins.
pub fn dispatch_start<T>(count: usize) -> (r: DispatchStep<T>)
    ensures
        r == start_spec::<T>(count as nat),
{
    if count == 0 {
        DispatchStep::Done(None)
    } else {
        DispatchStep::Invoke(0)
    }
}

/// The next step of a first-responder-wins call after the plugin at `index` answered.
pub fn first_responder_step<T>(count: usize, index: usize, outcome: HookOutcome<T>) -> (r: DispatchStep<T>)
    requires
        index < count,
    ensures
        r == first_step_spec(count as nat, index as nat, outcome),
{
    match outcome {
        HookOutcome::Skip => if index + 1 < count {
            DispatchStep::Invoke(index + 1)
        } else {
            DispatchStep::Done(None)
        },
        HookOutcome::Handled(t) => DispatchStep::Done(Some((index, t))),
        HookOutcome::Failed(m) => DispatchStep::Abort(index, m),
    }
}

/// The next step of a call made on every plugin in order after the plugin at
/// `index` answered.
pub fn sequential_step<T>(count: usize, index: usize, outcome: HookOutcome<T>) -> (r: DispatchStep<T>)
    requires
        index < count,
    ensures
        r == sequential_step_spec(count as nat, index as nat, outcome),
{
    match outcome {
        HookOutcome::Failed(m) => DispatchStep::Abort(index, m),
        _ => if index + 1 < count {
            DispatchStep::Invoke(index + 1)
        } else {
            DispatchStep::Done(None)
        },
    }
}

/// A first-responder-wins call run to its end, where the plugin at index `i`
/// answers `answers[i]`, from the plugin at `index` on: the final step, and
/// the indices of the plugins whose hook was called.
pub open spec fn run_first<T>(answers: Seq<HookOutcome<T>>, index: nat) -> (DispatchStep<T>, Seq<nat>)
    decreases answers.len() - index,
{
    if index >= answers.len() {
        (DispatchStep::Done(None), seq![])
    } else {
        match first_step_spec(answers.len(), index, answers[index as int]) {
            DispatchStep::Invoke(next) => {
                let rest = run_first(answers, index + 1);
                (rest.0, seq![index] + rest.1)
            },
            step => (step, seq![index]),
        }
    }
}

/// Where the plugin at `j` is the first that does not skip and it handles the
/// call, the call ends with its payload, the hooks of the plugins up to `j`
/// are called in order and no hook after `j` is called.
pub proof fn lemma_first_responder_wins<T>(answers: Seq<HookOutcome<T>>, j: nat, payload: T)
    requires
        j < answers.len(),
        answers[j as int] == HookOutcome::Handled(payload),
        forall|i: int| 0 <= i < j ==> answers[i] is Skip,
    ensures
        run_first(answers, 0).0 == DispatchStep::Done(Some((j as usize, payload))),
        run_first(answers, 0).1 == Seq::new(j + 1, |i: int| i as nat),
{
    lemma_run_from(answers, j, payload, 0);
    assert(Seq::new((j + 1) as nat, |i: int| (i + 0) as nat) =~= Seq::new(j + 1, |i: int| i as nat));
}

proof fn lemma_run_from<T>(answers: Seq<HookOutcome<T>>, j: nat, payload: T, index: nat)
    requires
        index <= j < answers.len(),
        answers[j as int] == HookOutcome::Handled(payload),
        forall|i: int| 0 <= i < j ==> answers[i] is Skip,
    ensures
        run_first(answers, index).0 == DispatchStep::Done(Some((j as usize, payload))),
        run_first(answers, index).1 == Seq::new((j + 1 - index) as nat, |i: int| (i + index) as nat),
    decreases j - index,
{
    if index == j {
        assert(run_first(answers, index).1 =~= Seq::new((j + 1 - index) as nat, |i: int| (i + index) as nat));
    } else {
        lemma_run_from(answers, j, payload, index + 1);
        assert(answers[index as int] is Skip);
        let rest = run_first(answers, index + 1);
        assert(seq![index] + rest.1 =~= Seq::new((j + 1 - index) as nat, |i: int| (i + index) as nat));
    }
}

/// The answers of the plugins after the first one that handles a call do not
/// change how the call ends.
pub proof fn lemma_later_answers_ignored<T>(a: Seq<HookOutcome<T>>, b: Seq<HookOutcome<T>>, j: nat, payload: T)
    requires
        j < a.len(),
        j < b.len(),
        forall|i: int| 0 <= i <= j ==> a[i] == b[i],
        a[j as int] == HookOutcome::Handled(payload),
        forall|i: int| 0 <= i < j ==> a[i] is Skip,
    ensures
        run_first(a, 0) == run_first(b, 0),
{
    lemma_first_responder_wins(a, j, payload);
    lemma_first_responder_wins(b, j, payload);
}

/// The failures of the pipeline, each with what is needed to trace it.
#[derive(Clone, Debug)]
pub enum CompilationError {
    /// A plugin's config hook failed: the whole compilation stops.
    ConfigurationError { plugin: String, message: String },
    LoadError { module_id: String, plugin: String, message: String },
    ParseError { module_id: String, plugin: String, message: String },
    DependencyAnalysisError { module_id: String, plugin: String, message: String },
    TransformError { module_id: String, plugin: String, message: String },
    GenerationError { module_id: String, plugin: String, message: String },
    /// A cache entry could not be read; it is handled as a miss.
    CacheCorruptionError { module_id: String },
    /// Two distinct resolved paths gave the same identity.
    IdentityConflictError { module_id: String, first_path: String, second_path: String },
}

/// The error for the failure of a plugin's hook at a stage.
pub open spec fn stage_error_spec(
    stage: HookStage,
    module_id: Seq<char>,
    plugin: Seq<char>,
    message: Seq<char>,
    e: CompilationError,
) -> bool {
    match stage {
        HookStage::Config => e matches CompilationError::ConfigurationError { plugin: p, message: m }
            && p@ == plugin && m@ == message,
        HookStage::Load => e matches CompilationError::LoadError { module_id: i, plugin: p, message: m }
            && i@ == module_id && p@ == plugin && m@ == message,
        HookStage::Parse => e matches CompilationError::ParseError { module_id: i, plugin: p, message: m }
            && i@ == module_id && p@ == plugin && m@ == message,
        HookStage::AnalyzeDeps => e matches CompilationError::DependencyAnalysisError {
            module_id: i,
            plugin: p,
            message: m,
        } && i@ == module_id && p@ == plugin && m@ == message,
        HookStage::ProcessModule => e matches CompilationError::TransformError { module_id: i, plugin: p, message: m }
            && i@ == module_id && p@ == plugin && m@ == message,
        HookStage::GenerateResources => e matches CompilationError::GenerationError {
            module_id: i,
            plugin: p,
            message: m,
        } && i@ == module_id && p@ == plugin && m@ == message,
    }
}

/// The error reported when the hook of `plugin` failed at `stage` for a module.
pub fn stage_error(stage: HookStage, module_id: &str, plugin: &str, message: String) -> (r: CompilationError)
    ensures
        stage_error_spec(stage, module_id@, plugin@, message@, r),
{
    let module_id = String::from_str(module_id);
    let plugin = String::from_str(plugin);
    match stage {
        HookStage::Config => CompilationError::ConfigurationError { plugin, message },
        HookStage::Load => CompilationError::LoadError { module_id, plugin, message },
        HookStage::Parse => CompilationError::ParseError { module_id, plugin, message },
        HookStage::AnalyzeDeps => CompilationError::DependencyAnalysisError { module_id, plugin, message },
        HookStage::ProcessModule => CompilationError::TransformError { module_id, plugin, message },
        HookStage::GenerateResources => CompilationError::GenerationError { module_id, plugin, message },
    }
}

/// Whether an error stops the whole compilation rather than one module's build.
pub open spec fn is_fatal_spec(e: CompilationError) -> bool {
    e is ConfigurationError || e is IdentityConflictError
}

impl CompilationError {
    /// Whether the error stops the whole compilation; a stage error stops only
    /// the build of its module, and a cache corruption stops nothing.
    pub fn is_fatal(&self) -> (r: bool)
        ensures
            r == is_fatal_spec(*self),
    {
        matches!(self, CompilationError::ConfigurationError { .. } | CompilationError::IdentityConflictError { .. })
    }
}

} // verus!
