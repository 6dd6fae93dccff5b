use vstd::prelude::*;
use vstd::string::StringExecFns;

verus! {

/// One operation of the run, in the order in which they are carried out.
#[derive(Clone, Copy, Debug, PartialEq, Eq, Structural)]
pub enum Step {
    EnumerateLayers,
    CreateInstance,
    RegisterCallback,
    SelectDevice,
    CreateDevice,
    AllocateBuffer,
    LoadKernel,
    BuildPipeline,
    BuildDescriptorSet,
    ReadBefore,
    BuildCommands,
    Submit,
    AwaitCompletion,
    ReadAfter,
}

/// Position of a step in the run.
pub open spec fn rank(s: Step) -> nat {
    match s {
        Step::EnumerateLayers => 0,
        Step::CreateInstance => 1,
        Step::RegisterCallback => 2,
        Step::SelectDevice => 3,
        Step::CreateDevice => 4,
        Step::AllocateBuffer => 5,
        Step::LoadKernel => 6,
        Step::BuildPipeline => 7,
        Step::BuildDescriptorSet => 8,
        Step::ReadBefore => 9,
        Step::BuildCommands => 10,
        Step::Submit => 11,
        Step::AwaitCompletion => 12,
        Step::ReadAfter => 13,
    }
}

/// The step that follows `s`, none after the last.
pub open spec fn successor(s: Step) -> Option<Step> {
    match s {
        Step::EnumerateLayers => Some(Step::CreateInstance),
        Step::CreateInstance => Some(Step::RegisterCallback),
        Step::RegisterCallback => Some(Step::SelectDevice),
        Step::SelectDevice => Some(Step::CreateDevice),
        Step::CreateDevice => Some(Step::AllocateBuffer),
        Step::AllocateBuffer => Some(Step::LoadKernel),
        Step::LoadKernel => Some(Step::BuildPipeline),
        Step::BuildPipeline => Some(Step::BuildDescriptorSet),
        Step::BuildDescriptorSet => Some(Step::ReadBefore),
        Step::ReadBefore => Some(Step::BuildCommands),
        Step::BuildCommands => Some(Step::Submit),
        Step::Submit => Some(Step::AwaitCompletion),
        Step::AwaitCompletion => Some(Step::ReadAfter),
        Step::ReadAfter => None,
    }
}

/// The steps of a run in which every operation succeeds.
pub open spec fn full_run() -> Seq<Step> {
    seq![
        Step::EnumerateLayers,
        Step::CreateInstance,
        Step::RegisterCallback,
        Step::SelectDevice,
        Step::CreateDevice,
        Step::AllocateBuffer,
        Step::LoadKernel,
        Step::BuildPipeline,
        Step::BuildDescriptorSet,
        Step::ReadBefore,
        Step::BuildCommands,
        Step::Submit,
        Step::AwaitCompletion,
        Step::ReadAfter,
    ]
}

/// Where a run stands.
#[derive(Clone, Copy, Debug, PartialEq, Eq, Structural)]
pub enum RunState {
    /// The step is the next to be carried out.
    Pending(Step),
    /// Every step succeeded.
    Finished,
    /// The step failed; the run ends with a fatal error.
    Failed(Step),
}

/// What the driver is to do next.
#[derive(Clone, Copy, Debug, PartialEq, Eq, Structural)]
pub enum Action {
    /// Carry out the step and report whether it succeeded.
    Perform(Step),
    /// End normally.
    Exit,
    /// End at once with the fatal message of the step that failed.
    Abort(Step),
}

/// The state after `s` has been carried out with outcome `ok`.
pub open spec fn advance(s: Step, ok: bool) -> RunState {
    if !ok {
        RunState::Failed(s)
    } else {
        match successor(s) {
            Some(n) => RunState::Pending(n),
            None => RunState::Finished,
        }
    }
}

/// The action owed in `state`.
pub open spec fn action_of(state: RunState) -> Action {
    match state {
        RunState::Pending(s) => Action::Perform(s),
        RunState::Finished => Action::Exit,
        RunState::Failed(s) => Action::Abort(s),
    }
}

/// Whether a dispatch may be executing on the device in `state`: the
/// submission has succeeded and the wait for its completion has not.
pub open spec fn gpu_in_flight(state: RunState) -> bool {
    match state {
        RunState::Pending(s) => s == Step::AwaitCompletion,
        RunState::Failed(s) => s == Step::AwaitCompletion,
        RunState::Finished => false,
    }
}

/// Whether the host reads the buffer when the action of `state` is carried out.
pub open spec fn host_reads(state: RunState) -> bool {
    state == RunState::Pending(Step::ReadBefore) || state == RunState::Pending(Step::ReadAfter)
}

/// Whether the dispatch has been submitted in `state`.
pub open spec fn submitted(state: RunState) -> bool {
    match state {
        RunState::Pending(s) => rank(s) > rank(Step::Submit),
        RunState::Failed(s) => rank(s) > rank(Step::Submit),
        RunState::Finished => true,
    }
}

/// Whether the wait for the dispatch has returned successfully in `state`.
pub open spec fn completed(state: RunState) -> bool {
    match state {
        RunState::Pending(s) => rank(s) > rank(Step::AwaitCompletion),
        RunState::Failed(s) => rank(s) > rank(Step::AwaitCompletion),
        RunState::Finished => true,
    }
}

/// The sequence of a single run: each step is carried out once, in order,
/// and the first failure ends the run.
pub struct Run {
    pub state: RunState,
}

impl Run {
    /// A run about to carry out its first step.
    pub fn new() -> (r: Run)
        ensures
            r.state == RunState::Pending(Step::EnumerateLayers),
    {
        Run { state: RunState::Pending(Step::EnumerateLayers) }
    }

    /// What the driver is to do next.
    pub fn action(&self) -> (r: Action)
        ensures
            r == action_of(self.state),
    {
        match self.state {
            RunState::Pending(s) => Action::Perform(s),
            RunState::Finished => Action::Exit,
            RunState::Failed(s) => Action::Abort(s),
        }
    }

    /// Records the outcome of the pending step.
    pub fn report(&mut self, ok: bool)
        requires
            old(self).state is Pending,
        ensures
            final(self).state == advance(old(self).state->Pending_0, ok),
    {
        if let RunState::Pending(s) = self.state {
            self.state = if !ok {
                RunState::Failed(s)
            } else {
                match next_step(s) {
                    Some(n) => RunState::Pending(n),
                    None => RunState::Finished,
                }
            };
        }
    }
}

/// The step that follows `s`, none after the last.
pub fn next_step(s: Step) -> (r: Option<Step>)
    ensures
        r == successor(s),
{
    match s {
        Step::EnumerateLayers => Some(Step::CreateInstance),
        Step::CreateInstance => Some(Step::RegisterCallback),
        Step::RegisterCallback => Some(Step::SelectDevice),
        Step::SelectDevice => Some(Step::CreateDevice),
        Step::CreateDevice => Some(Step::AllocateBuffer),
        Step::AllocateBuffer => Some(Step::LoadKernel),
        Step::LoadKernel => Some(Step::BuildPipeline),
        Step::BuildPipeline => Some(Step::BuildDescriptorSet),
        Step::BuildDescriptorSet => Some(Step::ReadBefore),
        Step::ReadBefore => Some(Step::BuildCommands),
        Step::BuildCommands => Some(Step::Submit),
        Step::Submit => Some(Step::AwaitCompletion),
        Step::AwaitCompletion => Some(Step::ReadAfter),
        Step::ReadAfter => None,
    }
}

/// The name of the operation that a step carries out.
pub open spec fn operation(s: Step) -> Seq<char> {
    match s {
        Step::EnumerateLayers => "enumerate the instance layers"@,
        Step::CreateInstance => "create the instance"@,
        Step::RegisterCallback => "register the debug callback"@,
        Step::SelectDevice => "find a device with a compute queue"@,
        Step::CreateDevice => "create the logical device"@,
        Step::AllocateBuffer => "allocate the data buffer"@,
        Step::LoadKernel => "load the compute shader"@,
        Step::BuildPipeline => "build the compute pipeline"@,
        Step::BuildDescriptorSet => "build the descriptor set"@,
        Step::ReadBefore => "read the buffer before the dispatch"@,
        Step::BuildCommands => "build the command buffer"@,
        Step::Submit => "submit the command buffer"@,
        Step::AwaitCompletion => "wait for the dispatch to complete"@,
        Step::ReadAfter => "read the buffer after the dispatch"@,
    }
}

/// The name of the operation that a step carries out.
pub fn operation_name(s: Step) -> (r: &'static str)
    ensures
        r@ == operation(s),
{
    match s {
        Step::EnumerateLayers => "enumerate the instance layers",
        Step::CreateInstance => "create the instance",
        Step::RegisterCallback => "register the debug callback",
        Step::SelectDevice => "find a device with a compute queue",
        Step::CreateDevice => "create the logical device",
        Step::AllocateBuffer => "allocate the data buffer",
        Step::LoadKernel => "load the compute shader",
        Step::BuildPipeline => "build the compute pipeline",
        Step::BuildDescriptorSet => "build the descriptor set",
        Step::ReadBefore => "read the buffer before the dispatch",
        Step::BuildCommands => "build the command buffer",
        Step::Submit => "submit the command buffer",
        Step::AwaitCompletion => "wait for the dispatch to complete",
        Step::ReadAfter => "read the buffer after the dispatch",
    }
}

/// The fatal message for a failed step: `failed to <operation>: <detail>`.
pub fn fatal_message(s: Step, detail: &str) -> (r: String)
    ensures
        r@ == "failed to "@ + operation(s) + ": "@ + detail@,
{
    let mut m = String::from_str("failed to ");
    m.append(operation_name(s));
    m.append(": ");
    m.append(detail);
    m
}

/// The steps carried out from `state` when the steps carried out report the
/// outcomes `outcomes`, in turn.
pub open spec fn trace(state: RunState, outcomes: Seq<bool>) -> Seq<Step>
    decreases outcomes.len(),
{
    if outcomes.len() == 0 {
        Seq::empty()
    } else {
        match state {
            RunState::Pending(s) => seq![s] + trace(advance(s, outcomes[0]), outcomes.drop_first()),
            _ => Seq::empty(),
        }
    }
}

proof fn lemma_successor_in_run(k: int)
    requires
        0 <= k < full_run().len(),
    ensures
        k + 1 < full_run().len() ==> successor(full_run()[k]) == Some(full_run()[k + 1]),
        k + 1 == full_run().len() ==> successor(full_run()[k]) is None,
{
}

proof fn lemma_trace_follows_run(k: int, outcomes: Seq<bool>)
    requires
        0 <= k < full_run().len(),
    ensures
        trace(RunState::Pending(full_run()[k]), outcomes).len() <= full_run().len() - k,
        trace(RunState::Pending(full_run()[k]), outcomes).len() <= outcomes.len(),
        forall|i: int|
            0 <= i < trace(RunState::Pending(full_run()[k]), outcomes).len() ==> #[trigger] trace(
                RunState::Pending(full_run()[k]),
                outcomes,
            )[i] == full_run()[k + i],
        forall|j: int|
            0 <= j < trace(RunState::Pending(full_run()[k]), outcomes).len() - 1
                ==> #[trigger] outcomes[j],
    decreases outcomes.len(),
{
    let t = trace(RunState::Pending(full_run()[k]), outcomes);
    if outcomes.len() > 0 {
        let rest = outcomes.drop_first();
        let next = advance(full_run()[k], outcomes[0]);
        lemma_successor_in_run(k);
        let tr = trace(next, rest);
        assert(t == seq![full_run()[k]] + tr);
        if outcomes[0] && k + 1 < full_run().len() {
            assert(next == RunState::Pending(full_run()[k + 1]));
            lemma_trace_follows_run(k + 1, rest);
            assert forall|i: int| 0 <= i < t.len() implies #[trigger] t[i] == full_run()[k + i] by {
                if i > 0 {
                    assert(t[i] == tr[i - 1]);
                }
            }
            assert forall|j: int| 0 <= j < t.len() - 1 implies #[trigger] outcomes[j] by {
                if j > 0 {
                    assert(rest[j - 1] == outcomes[j]);
                }
            }
        } else {
            assert(tr =~= Seq::<Step>::empty());
            assert(t =~= seq![full_run()[k]]);
        }
    }
}

/// A run in which every step succeeds carries out each step of `full_run`
/// once, in order, and then ends normally: the buffer is read exactly once
/// before the dispatch is submitted and exactly once after its completion.
pub proof fn lemma_successful_run(outcomes: Seq<bool>)
    requires
        outcomes.len() == full_run().len(),
        forall|i: int| 0 <= i < outcomes.len() ==> outcomes[i],
    ensures
        trace(RunState::Pending(Step::EnumerateLayers), outcomes) == full_run(),
        forall|i: int|
            0 <= i < full_run().len() ==> (full_run()[i] == Step::ReadBefore <==> i
                == rank(Step::ReadBefore)),
        forall|i: int|
            0 <= i < full_run().len() ==> (full_run()[i] == Step::ReadAfter <==> i == rank(
                Step::ReadAfter,
            )),
        rank(Step::ReadBefore) < rank(Step::Submit) < rank(Step::AwaitCompletion) < rank(
            Step::ReadAfter,
        ),
{
    lemma_trace_full(0, outcomes);
}

proof fn lemma_trace_full(k: int, outcomes: Seq<bool>)
    requires
        0 <= k < full_run().len(),
        outcomes.len() == full_run().len() - k,
        forall|i: int| 0 <= i < outcomes.len() ==> outcomes[i],
    ensures
        trace(RunState::Pending(full_run()[k]), outcomes) == full_run().subrange(
            k,
            full_run().len() as int,
        ),
    decreases outcomes.len(),
{
    let rest = outcomes.drop_first();
    lemma_successor_in_run(k);
    let t = trace(RunState::Pending(full_run()[k]), outcomes);
    if k + 1 < full_run().len() {
        lemma_trace_full(k + 1, rest);
        assert(t =~= full_run().subrange(k, full_run().len() as int));
    } else {
        assert(rest.len() == 0);
        assert(trace(advance(full_run()[k], outcomes[0]), rest) =~= Seq::<Step>::empty());
        assert(t =~= full_run().subrange(k, full_run().len() as int));
    }
}

/// Once a step fails the run carries out no further step: where any step
/// before the last fails, the buffer is never read after the dispatch.
pub proof fn lemma_failure_ends_run(outcomes: Seq<bool>, f: int)
    requires
        0 <= f < outcomes.len(),
        !outcomes[f],
    ensures
        trace(RunState::Pending(Step::EnumerateLayers), outcomes).len() <= f + 1,
        f < rank(Step::ReadAfter) ==> forall|i: int|
            0 <= i < trace(RunState::Pending(Step::EnumerateLayers), outcomes).len()
                ==> #[trigger] trace(RunState::Pending(Step::EnumerateLayers), outcomes)[i]
                != Step::ReadAfter,
{
    let t = trace(RunState::Pending(Step::EnumerateLayers), outcomes);
    lemma_trace_follows_run(0, outcomes);
    if t.len() > f + 1 {
        assert(t[f + 1] == full_run()[f + 1]);
    }
    if f < rank(Step::ReadAfter) {
        assert forall|i: int| 0 <= i < t.len() implies #[trigger] t[i] != Step::ReadAfter by {
            assert(t[i] == full_run()[i]);
        }
    }
}

/// The host never reads the buffer while a dispatch may be executing on it:
/// the first read comes before the submission, the second after the wait for
/// its completion has returned.
pub proof fn lemma_reads_exclusive(state: RunState)
    ensures
        host_reads(state) ==> !gpu_in_flight(state),
        state == RunState::Pending(Step::ReadBefore) ==> !submitted(state),
        state == RunState::Pending(Step::ReadAfter) ==> completed(state),
{
}

} // verus!
