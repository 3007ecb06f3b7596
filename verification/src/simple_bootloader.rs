//! The task loop of a run: which task is current, which step of it comes
//! next, and what the run has produced so far.

use vstd::prelude::*;
use cairo_vm::vm::vm_core::VirtualMachine;
use crate::address::Relocatable;
use crate::builtins::{
    is_subsequence, select_builtins, selects_first, valid_positions, returned_pointers,
    write_return_builtins, BuiltinName,
};
use crate::error::BootloaderError;
use crate::fact_topology::{
    output_region, outputs_elements, run_topology, run_topology_of, task_topology,
    task_topology_of, FactTopology, TopologyView,
};
use crate::felt::Felt;
use crate::hints::HintId;
use crate::packed_output::{
    output_len, outputs_len, trees_of, HashSource, PackedOutput, PackedTree,
};
use crate::program_hash::{spec_program_hash, validate_task, validation_of};
use crate::program_loader::{
    as_cells, cells_at, load_program, load_settled, only_added_cells, program_loaded,
    with_program, write_felts, written_cells,
};
use crate::task::{BootloaderInput, Registers, TaskSpec};
use crate::address::MaybeRelocatable;
use crate::vm::{
    cannot_write, memory_kept, same_frame, vm_add_memory_segment, vm_memory, vm_segments,
};

verus! {

/// Where a run stands.
#[derive(Clone, Copy, Debug, PartialEq, Eq, Structural, Hash)]
pub enum RunPhase {
    /// The task list has been read; no task has been started.
    Init,
    /// A task is current.
    PerTaskLoop,
    /// Every task has been run.
    Done,
    /// A step has failed. The run is over; no step can be taken any more.
    Aborted,
}

/// Which step of the current task was the last to be done.
#[derive(Clone, Copy, Debug, PartialEq, Eq, Structural, Hash)]
pub enum TaskStage {
    /// The task has not been taken up.
    NotStarted,
    /// The task is the current one.
    Bound,
    /// A segment has been allocated for its program.
    Allocated,
    /// Its program is in memory.
    Loaded,
    /// Its program hash is supported.
    Validated,
    /// The program counter points at its program.
    AddressAsserted,
    /// Its builtins have been picked out of the run's.
    BuiltinsSelected,
    /// It has been called.
    Called,
    /// The builtin pointers it returned have been put back.
    BuiltinsReturned,
    /// Its fact topology has been recorded.
    TopologyAppended,
}

/// The steps of a task in their order.
pub open spec fn rank(stage: TaskStage) -> nat {
    match stage {
        TaskStage::NotStarted => 0,
        TaskStage::Bound => 1,
        TaskStage::Allocated => 2,
        TaskStage::Loaded => 3,
        TaskStage::Validated => 4,
        TaskStage::AddressAsserted => 5,
        TaskStage::BuiltinsSelected => 6,
        TaskStage::Called => 7,
        TaskStage::BuiltinsReturned => 8,
        TaskStage::TopologyAppended => 9,
    }
}

/// The handler whose turn it is when `stage` is the last step done of the
/// current task.
pub open spec fn hint_after(stage: TaskStage) -> HintId {
    match stage {
        TaskStage::NotStarted => HintId::SetCurrentTask,
        TaskStage::Bound => HintId::AllocateProgramDataSegment,
        TaskStage::Allocated => HintId::LoadProgram,
        TaskStage::Loaded => HintId::ValidateHash,
        TaskStage::Validated => HintId::AssertProgramAddress,
        TaskStage::AddressAsserted => HintId::SelectBuiltinsEnterScope,
        TaskStage::BuiltinsSelected => HintId::CallTask,
        TaskStage::Called => HintId::WriteReturnBuiltins,
        TaskStage::BuiltinsReturned => HintId::AppendFactTopologies,
        TaskStage::TopologyAppended => HintId::ExitScope,
    }
}

/// The size that was reserved for an output before its task ran, if one was.
pub open spec fn reserved_size(tree: PackedTree) -> Option<usize> {
    match tree {
        PackedTree::Composite { source: HashSource::Pending(guess), children } => Some(guess),
        _ => None,
    }
}

/// The state of a run.
pub struct RunState {
    pub tasks: Seq<TaskSpec>,
    /// Where the fact topologies are to be written, if anywhere.
    pub fact_topologies_path: Option<Seq<char>>,
    /// The hash that the bootloader's own program is expected to have.
    pub bootloader_hash: Felt,
    pub supported_hashes: Seq<Felt>,
    pub single_page: bool,
    pub run_builtins: Seq<BuiltinName>,
    pub phase: RunPhase,
    pub stage: TaskStage,
    /// How many tasks are still to be finished.
    pub remaining_tasks: nat,
    /// The index of the current task: how many tasks are finished.
    pub task_id: nat,
    /// Where the current task's program lies.
    pub program_address: Option<Relocatable>,
    /// The positions of the current task's builtins among the run's.
    pub selected_builtins: Option<Seq<usize>>,
    /// The outputs recorded so far, in the order of their tasks.
    pub outputs: Seq<PackedTree>,
    /// The fact topologies recorded so far, in the order of their tasks.
    pub fact_topologies: Seq<TopologyView>,
    /// The indices of the tasks taken up so far, in the order in which they were.
    pub task_log: Seq<usize>,
}

impl RunState {
    /// The state of a run of `tasks` before anything has happened.
    pub open spec fn initial(
        tasks: Seq<TaskSpec>,
        fact_topologies_path: Option<Seq<char>>,
        bootloader_hash: Felt,
        supported_hashes: Seq<Felt>,
        single_page: bool,
        run_builtins: Seq<BuiltinName>,
    ) -> RunState {
        RunState {
            tasks,
            fact_topologies_path,
            bootloader_hash,
            supported_hashes,
            single_page,
            run_builtins,
            phase: RunPhase::Init,
            stage: TaskStage::NotStarted,
            remaining_tasks: tasks.len(),
            task_id: 0,
            program_address: None,
            selected_builtins: None,
            outputs: Seq::empty(),
            fact_topologies: Seq::empty(),
            task_log: Seq::empty(),
        }
    }

    /// The current task.
    pub open spec fn current_task(self) -> TaskSpec {
        self.tasks[self.task_id as int]
    }

    /// What holds of every state that a run can be in.
    pub open spec fn wf(self) -> bool {
        &&& self.tasks.len() <= usize::MAX
        &&& self.task_id + self.remaining_tasks == self.tasks.len()
        &&& match self.phase {
            RunPhase::Init => self.task_id == 0 && self.stage is NotStarted,
            RunPhase::PerTaskLoop => self.remaining_tasks > 0,
            RunPhase::Done => self.remaining_tasks == 0 && self.stage is NotStarted,
            RunPhase::Aborted => true,
        }
        &&& self.program_address is Some <==> rank(self.stage) >= 2
        &&& self.selected_builtins is Some <==> rank(self.stage) >= 6
        &&& self.selected_builtins is Some ==> selects_first(
            self.current_task().spec_program().builtins@,
            self.run_builtins,
            self.selected_builtins.unwrap(),
        )
        &&& self.outputs.len() == self.fact_topologies.len()
        &&& self.outputs.len() == self.task_id + if self.stage is TopologyAppended {
            1nat
        } else {
            0nat
        }
        &&& forall|i: int|
            0 <= i < self.outputs.len() ==> (#[trigger] self.fact_topologies[i])
                == task_topology_of(self.outputs[i], self.single_page)
        &&& self.task_log.len() == self.task_id + if self.stage is NotStarted {
            0nat
        } else {
            1nat
        }
        &&& forall|i: int| 0 <= i < self.task_log.len() ==> (#[trigger] self.task_log[i]) == i
    }

    /// The run is in its task loop and the last step done of the current
    /// task is `stage`.
    pub open spec fn in_stage(self, stage: TaskStage) -> bool {
        self.phase is PerTaskLoop && self.stage == stage
    }

    /// The state after a step has failed.
    pub open spec fn aborted(self) -> RunState {
        RunState { phase: RunPhase::Aborted, ..self }
    }

    /// The state after the task list has been taken in.
    pub open spec fn started(self) -> RunState {
        RunState {
            phase: if self.remaining_tasks == 0 {
                RunPhase::Done
            } else {
                RunPhase::PerTaskLoop
            },
            ..self
        }
    }

    /// The same state at another step of the current task.
    pub open spec fn at_stage(self, stage: TaskStage) -> RunState {
        RunState { stage, ..self }
    }

    /// The state after the next task has been taken up.
    pub open spec fn bound(self) -> RunState {
        RunState {
            stage: TaskStage::Bound,
            task_log: self.task_log.push(self.task_id as usize),
            ..self
        }
    }

    /// The state after a segment has been allocated for the task's program.
    pub open spec fn allocated(self, base: Relocatable) -> RunState {
        RunState { stage: TaskStage::Allocated, program_address: Some(base), ..self }
    }

    /// The state after the task's builtins have been selected.
    pub open spec fn selected(self, positions: Seq<usize>) -> RunState {
        RunState {
            stage: TaskStage::BuiltinsSelected,
            selected_builtins: Some(positions),
            ..self
        }
    }

    /// The state after the task's output and its fact topology have been recorded.
    pub open spec fn appended(self, output: PackedTree) -> RunState {
        RunState {
            stage: TaskStage::TopologyAppended,
            outputs: self.outputs.push(output),
            fact_topologies: self.fact_topologies.push(task_topology_of(output, self.single_page)),
            ..self
        }
    }

    /// The state after the task's scope has been left: the task is
    /// finished, nothing of it is kept but what was recorded, and the next
    /// task is current or the run is done.
    pub open spec fn exited(self) -> RunState {
        RunState {
            stage: TaskStage::NotStarted,
            program_address: None,
            selected_builtins: None,
            remaining_tasks: (self.remaining_tasks - 1) as nat,
            task_id: self.task_id + 1,
            phase: if self.remaining_tasks == 1 {
                RunPhase::Done
            } else {
                RunPhase::PerTaskLoop
            },
            ..self
        }
    }

    /// The steps of one task from first to last, the task's program being
    /// loaded at `base`, its builtins selected at `positions` and its output
    /// being `output`.
    pub open spec fn after_task(
        self,
        base: Relocatable,
        positions: Seq<usize>,
        output: PackedTree,
    ) -> RunState {
        self.bound().allocated(base).at_stage(TaskStage::Loaded).at_stage(
            TaskStage::Validated,
        ).at_stage(TaskStage::AddressAsserted).selected(positions).at_stage(
            TaskStage::Called,
        ).at_stage(TaskStage::BuiltinsReturned).appended(output).exited()
    }

    /// What one task leaves behind: its index in the log, its output and its
    /// fact topology at the end of the lists, and the next task current.
    pub open spec fn completed(self, output: PackedTree) -> RunState {
        RunState {
            remaining_tasks: (self.remaining_tasks - 1) as nat,
            task_id: self.task_id + 1,
            phase: if self.remaining_tasks == 1 {
                RunPhase::Done
            } else {
                RunPhase::PerTaskLoop
            },
            outputs: self.outputs.push(output),
            fact_topologies: self.fact_topologies.push(task_topology_of(output, self.single_page)),
            task_log: self.task_log.push(self.task_id as usize),
            ..self
        }
    }

    /// What the tasks with the given outputs leave behind, one after the other.
    pub open spec fn completed_all(self, outputs: Seq<PackedTree>) -> RunState
        decreases outputs.len(),
    {
        if outputs.len() == 0 {
            self
        } else {
            self.completed(outputs[0]).completed_all(outputs.drop_first())
        }
    }
}

/// The steps of one task, done in their order, leave behind what
/// `completed` says, wherever the program was loaded and whichever builtins
/// were selected.
pub proof fn lemma_task_steps(
    state: RunState,
    base: Relocatable,
    positions: Seq<usize>,
    output: PackedTree,
)
    requires
        state.wf(),
        state.stage is NotStarted,
    ensures
        state.after_task(base, positions, output) == state.completed(output),
{
}

/// A finished task leaves the run in a state it can be in.
pub proof fn lemma_completed_wf(state: RunState, output: PackedTree)
    requires
        state.wf(),
        state.phase is PerTaskLoop,
        state.stage is NotStarted,
    ensures
        state.completed(output).wf(),
        state.completed(output).stage is NotStarted,
        state.completed(output).phase is Done <==> state.remaining_tasks == 1,
        state.completed(output).phase is Done || state.completed(output).phase is PerTaskLoop,
{
    let next = state.completed(output);
    assert forall|i: int| 0 <= i < next.outputs.len() implies (#[trigger] next.fact_topologies[i])
        == task_topology_of(next.outputs[i], next.single_page) by {
        if i < state.outputs.len() {
            assert(next.fact_topologies[i] == state.fact_topologies[i]);
        }
    }
    assert forall|i: int| 0 <= i < next.task_log.len() implies (#[trigger] next.task_log[i])
        == i by {
        if i < state.task_log.len() {
            assert(next.task_log[i] == state.task_log[i]);
        }
    }
}

/// The tasks are run in the order of the task list, and each leaves one
/// fact topology, in that same order.
///
/// From a state in which `n` tasks remain, `n` tasks with the given outputs
/// end the run. Task number `i` of them is the task at index `task_id + i`
/// of the list; the log, the outputs and the fact topologies have grown by
/// one entry for each task, the entry of task `i` being its index, its
/// output and the topology of its output.
pub proof fn lemma_tasks_in_order(state: RunState, outputs: Seq<PackedTree>)
    requires
        state.wf(),
        state.phase is PerTaskLoop || state.phase is Done,
        state.stage is NotStarted,
        outputs.len() == state.remaining_tasks,
    ensures
        ({
            let end = state.completed_all(outputs);
            &&& end.wf()
            &&& end.phase is Done
            &&& end.tasks == state.tasks
            &&& end.single_page == state.single_page
            &&& end.task_id == state.tasks.len()
            &&& end.task_log.len() == state.tasks.len()
            &&& forall|i: int| 0 <= i < end.task_log.len() ==> (#[trigger] end.task_log[i]) == i
            &&& end.outputs == state.outputs + outputs
            &&& end.fact_topologies.len() == state.tasks.len()
            &&& forall|i: int|
                0 <= i < outputs.len() ==> (#[trigger] end.fact_topologies[state.task_id + i])
                    == task_topology_of(outputs[i], state.single_page)
        }),
    decreases outputs.len(),
{
    if outputs.len() == 0 {
        assert(state.outputs + outputs =~= state.outputs);
    } else {
        let next = state.completed(outputs[0]);
        let rest = outputs.drop_first();
        lemma_completed_wf(state, outputs[0]);
        lemma_tasks_in_order(next, rest);
        let end = next.completed_all(rest);
        assert(next.outputs + rest =~= state.outputs + outputs);
        assert forall|i: int| 0 <= i < outputs.len() implies (
        #[trigger] end.fact_topologies[state.task_id + i]) == task_topology_of(
            outputs[i],
            state.single_page,
        ) by {
            let k = state.task_id + i;
            assert(state.outputs.len() == state.task_id);
            assert(end.outputs.len() == state.tasks.len());
            assert(end.fact_topologies[k] == task_topology_of(end.outputs[k], end.single_page));
            assert(end.outputs[k] == (state.outputs + outputs)[k]);
            assert((state.outputs + outputs)[k] == outputs[i]);
            assert(end.single_page == state.single_page);
        }
    }
}

/// Half of `num`, rounded down.
pub fn divide_num_by_2(num: usize) -> (r: usize)
    ensures
        r == num / 2,
{
    num / 2
}

/// The range-check slots of `n` tasks, one for each, in two halves: the
/// first is half of `n` rounded down, the second is the rest.
pub fn task_range_check_halves(n: usize) -> (r: (usize, usize))
    ensures
        r.0 == n / 2,
        r.0 + r.1 == n,
{
    let first = divide_num_by_2(n);
    (first, n - first)
}

/// How the current task is to be carried out.
#[derive(Clone, Copy, Debug, PartialEq, Eq, Structural, Hash)]
pub enum TaskCall {
    /// By calling the task's main function at this address.
    Run(Relocatable),
    /// By taking over the registers that a recorded run ended with.
    Replay(Registers),
}

/// What `call_task` returns for a task whose program lies at `base`.
///
/// A fresh program is called at its main function; one without a main
/// function is a load error, an entry that cannot be named an address
/// overflow. A replayed trace is not called at all.
pub open spec fn task_call_of(task: TaskSpec, base: Relocatable) -> Result<
    TaskCall,
    BootloaderError,
> {
    match task {
        TaskSpec::RunProgram(task) => match task.program.main {
            Some(main) => if base.offset + main <= usize::MAX {
                Ok(TaskCall::Run(base.plus(main as int)))
            } else {
                Err(BootloaderError::AddressOverflow)
            },
            None => Err(BootloaderError::ProgramLoadError),
        },
        TaskSpec::ReplayedTrace(task) => Ok(TaskCall::Replay(task.registers)),
    }
}

/// Whether an output of this tree can be recorded: an output for which a
/// size was reserved must have that size, and the size of any output must
/// fit `usize`.
pub open spec fn output_accepted(tree: PackedTree) -> Result<(), BootloaderError> {
    if reserved_size(tree) is Some && reserved_size(tree).unwrap() != output_len(tree) {
        Err(BootloaderError::OutputSizeMismatch)
    } else if output_len(tree) > usize::MAX {
        Err(BootloaderError::AddressOverflow)
    } else {
        Ok(())
    }
}

/// What a step of the task loop is handed besides the machine.
#[derive(Debug, PartialEq, Eq)]
pub enum StepInput {
    /// Nothing.
    Nothing,
    /// The program counter that is about to be executed.
    ProgramCounter(Relocatable),
    /// The run's builtin pointers from before the task, and the pointers
    /// that the task returned.
    BuiltinPointers { before: Vec<Relocatable>, returned: Vec<Relocatable> },
    /// The output of the task.
    TaskOutput(PackedOutput),
}

/// What a step of the task loop hands back.
#[derive(Debug, PartialEq, Eq)]
pub enum StepOutput {
    /// Nothing.
    Nothing,
    /// The number of tasks.
    TaskCount(usize),
    /// The index of the task taken up.
    TaskIndex(usize),
    /// The start of the segment allocated.
    Segment(Relocatable),
    /// The hash of the task's program.
    ProgramHash(Felt),
    /// How the task is to be carried out.
    Call(TaskCall),
    /// The run's builtin pointers after the task.
    BuiltinPointers(Vec<Relocatable>),
}

/// The handler names a step of the task loop.
pub open spec fn is_step(id: HintId) -> bool {
    ||| id is PrepareTaskRangeChecks
    ||| id is SetCurrentTask
    ||| id is AllocateProgramDataSegment
    ||| id is LoadProgram
    ||| id is ValidateHash
    ||| id is AssertProgramAddress
    ||| id is SelectBuiltinsEnterScope
    ||| id is CallTask
    ||| id is WriteReturnBuiltins
    ||| id is AppendFactTopologies
    ||| id is ExitScope
}

/// Whether the handler names a step of the task loop.
pub fn is_task_step(id: HintId) -> (r: bool)
    ensures
        r == is_step(id),
{
    match id {
        HintId::PrepareTaskRangeChecks
        | HintId::SetCurrentTask
        | HintId::AllocateProgramDataSegment
        | HintId::LoadProgram
        | HintId::ValidateHash
        | HintId::AssertProgramAddress
        | HintId::SelectBuiltinsEnterScope
        | HintId::CallTask
        | HintId::WriteReturnBuiltins
        | HintId::AppendFactTopologies
        | HintId::ExitScope => true,
        _ => false,
    }
}

/// The program counter that the step is handed, if it is handed one.
pub open spec fn input_pc(input: StepInput) -> Option<Relocatable> {
    match input {
        StepInput::ProgramCounter(pc) => Some(pc),
        _ => None,
    }
}

/// The builtin pointers that the step is handed, if it is handed any: those
/// from before the task and those that the task returned.
pub open spec fn input_pointers(input: StepInput) -> Option<(Seq<Relocatable>, Seq<Relocatable>)> {
    match input {
        StepInput::BuiltinPointers { before, returned } => Some((before@, returned@)),
        _ => None,
    }
}

/// The output that the step is handed, if it is handed one.
pub open spec fn input_output(input: StepInput) -> Option<PackedTree> {
    match input {
        StepInput::TaskOutput(output) => Some(output@),
        _ => None,
    }
}

/// The result is the given error.
pub open spec fn fails_with(r: Result<StepOutput, BootloaderError>, e: BootloaderError) -> bool {
    r == Err::<StepOutput, BootloaderError>(e)
}

/// What the handler `id` has done to a run when `execute_hint` returns `r`,
/// having been handed `input` and having taken the run from `before` to
/// `after`, on a machine that was `vm_before`.
///
/// Each handler of the task loop is the step of its name: it succeeds
/// exactly in its turn and on the step's own condition, hands back what the
/// step returns and takes the run where the step takes it. A failure aborts
/// the run. Loading succeeds only in its turn; what is settled of it before
/// the machine is asked is what comes out. Any other handler is no business
/// of the task loop: it is unknown here, and the run stays as it was.
pub open spec fn hint_step(
    id: HintId,
    input: StepInput,
    before: RunState,
    vm_before: VirtualMachine,
    after: RunState,
    r: Result<StepOutput, BootloaderError>,
) -> bool {
    &&& is_step(id) && r is Err ==> after == before.aborted()
    &&& match id {
        HintId::PrepareTaskRangeChecks => {
            &&& r is Ok <==> before.phase is Init
            &&& r is Ok ==> r.unwrap() == StepOutput::TaskCount(before.tasks.len() as usize)
            &&& r is Ok ==> after == before.started()
        },
        HintId::SetCurrentTask => {
            &&& r is Ok <==> before.in_stage(TaskStage::NotStarted)
            &&& r is Ok ==> r.unwrap() == StepOutput::TaskIndex(before.task_id as usize)
            &&& r is Ok ==> after == before.bound()
        },
        HintId::AllocateProgramDataSegment => {
            &&& r is Ok <==> before.in_stage(TaskStage::Bound)
            &&& r is Ok ==> match r.unwrap() {
                StepOutput::Segment(base) => {
                    &&& after == before.allocated(base)
                    &&& base.segment_index == vm_segments(vm_before)
                    &&& base.offset == 0
                },
                _ => false,
            }
        },
        HintId::LoadProgram => {
            &&& r is Ok ==> before.in_stage(TaskStage::Allocated)
            &&& r is Ok ==> r.unwrap() == StepOutput::Nothing
            &&& r is Ok ==> after == before.at_stage(TaskStage::Loaded)
            &&& before.in_stage(TaskStage::Allocated) ==> match load_settled(
                vm_before,
                before.program_address.unwrap(),
                before.current_task(),
            ) {
                Some(Ok(_)) => r is Ok,
                Some(Err(e)) => fails_with(r, e),
                None => true,
            }
        },
        HintId::ValidateHash => {
            let validation = validation_of(
                spec_program_hash(
                    before.current_task().spec_program(),
                    before.current_task().spec_hash_scheme(),
                ),
                before.supported_hashes,
            );
            &&& r is Ok <==> before.in_stage(TaskStage::Loaded) && validation is Ok
            &&& r is Ok ==> r.unwrap() == StepOutput::ProgramHash(validation.unwrap())
            &&& r is Ok ==> after == before.at_stage(TaskStage::Validated)
            &&& before.in_stage(TaskStage::Loaded) ==> match validation {
                Ok(_) => true,
                Err(e) => fails_with(r, e),
            }
        },
        HintId::AssertProgramAddress => {
            &&& r is Ok <==> before.in_stage(TaskStage::Validated) && input_pc(input) is Some
                && before.program_address == input_pc(input)
            &&& r is Ok ==> r.unwrap() == StepOutput::Nothing
            &&& r is Ok ==> after == before.at_stage(TaskStage::AddressAsserted)
        },
        HintId::SelectBuiltinsEnterScope => {
            &&& r is Ok <==> before.in_stage(TaskStage::AddressAsserted) && is_subsequence(
                before.current_task().spec_program().builtins@,
                before.run_builtins,
            )
            &&& r is Ok ==> r.unwrap() == StepOutput::Nothing
            &&& r is Ok ==> after.selected_builtins is Some && after == before.selected(
                after.selected_builtins.unwrap(),
            )
        },
        HintId::CallTask => {
            let call = task_call_of(before.current_task(), before.program_address.unwrap());
            &&& r is Ok <==> before.in_stage(TaskStage::BuiltinsSelected) && call is Ok
            &&& r is Ok ==> r.unwrap() == StepOutput::Call(call.unwrap())
            &&& r is Ok ==> after == before.at_stage(TaskStage::Called)
            &&& before.in_stage(TaskStage::BuiltinsSelected) ==> match call {
                Ok(_) => true,
                Err(e) => fails_with(r, e),
            }
        },
        HintId::WriteReturnBuiltins => {
            let positions = before.selected_builtins.unwrap();
            &&& r is Ok <==> before.in_stage(TaskStage::Called) && input_pointers(input) is Some
                && valid_positions(positions, input_pointers(input).unwrap().0.len() as int)
                && input_pointers(input).unwrap().1.len() == positions.len()
            &&& r is Ok ==> match r.unwrap() {
                StepOutput::BuiltinPointers(written) => returned_pointers(
                    input_pointers(input).unwrap().0,
                    positions,
                    input_pointers(input).unwrap().1,
                    written@,
                ),
                _ => false,
            }
            &&& r is Ok ==> after == before.at_stage(TaskStage::BuiltinsReturned)
        },
        HintId::AppendFactTopologies => {
            &&& r is Ok <==> before.in_stage(TaskStage::BuiltinsReturned) && input_output(input)
                is Some && output_accepted(input_output(input).unwrap()) is Ok
            &&& r is Ok ==> r.unwrap() == StepOutput::Nothing
            &&& r is Ok ==> after == before.appended(input_output(input).unwrap())
            &&& before.in_stage(TaskStage::BuiltinsReturned) && input_output(input) is Some
                ==> match output_accepted(input_output(input).unwrap()) {
                Ok(_) => true,
                Err(e) => fails_with(r, e),
            }
        },
        HintId::ExitScope => {
            &&& r is Ok <==> before.in_stage(TaskStage::TopologyAppended)
            &&& r is Ok ==> r.unwrap() == StepOutput::Nothing
            &&& r is Ok ==> after == before.exited()
        },
        _ => fails_with(r, BootloaderError::UnknownHint) && after == before,
    }
}

/// A run of the bootloader: its input, and where it stands.
pub struct SimpleBootloader {
    input: BootloaderInput,
    run_builtins: Vec<BuiltinName>,
    phase: RunPhase,
    stage: TaskStage,
    remaining_tasks: usize,
    task_id: usize,
    program_address: Option<Relocatable>,
    selected_builtins: Option<Vec<usize>>,
    outputs: Vec<PackedOutput>,
    fact_topologies: Vec<FactTopology>,
    task_log: Vec<usize>,
}

impl View for SimpleBootloader {
    type V = RunState;

    closed spec fn view(&self) -> RunState {
        RunState {
            tasks: self.input.tasks@,
            fact_topologies_path: match self.input.fact_topologies_path {
                Some(path) => Some(path@),
                None => None,
            },
            bootloader_hash: self.input.config.simple_bootloader_program_hash,
            supported_hashes: self.input.config.supported_program_hashes@,
            single_page: self.input.config.single_page,
            run_builtins: self.run_builtins@,
            phase: self.phase,
            stage: self.stage,
            remaining_tasks: self.remaining_tasks as nat,
            task_id: self.task_id as nat,
            program_address: self.program_address,
            selected_builtins: match self.selected_builtins {
                Some(positions) => Some(positions@),
                None => None,
            },
            outputs: trees_of(self.outputs@),
            fact_topologies: self.fact_topologies@.map_values(|t: FactTopology| t@),
            task_log: self.task_log@,
        }
    }
}

impl SimpleBootloader {
    /// A run of the tasks of `input` on a machine with the builtins
    /// `run_builtins`, before anything has happened.
    pub fn new(input: BootloaderInput, run_builtins: Vec<BuiltinName>) -> (r: Self)
        ensures
            r@.wf(),
            r@ == RunState::initial(
                input.tasks@,
                match input.fact_topologies_path {
                    Some(path) => Some(path@),
                    None => None,
                },
                input.config.simple_bootloader_program_hash,
                input.config.supported_program_hashes@,
                input.config.single_page,
                run_builtins@,
            ),
    {
        let remaining_tasks = input.tasks.len();
        let r = SimpleBootloader {
            input,
            run_builtins,
            phase: RunPhase::Init,
            stage: TaskStage::NotStarted,
            remaining_tasks,
            task_id: 0,
            program_address: None,
            selected_builtins: None,
            outputs: Vec::new(),
            fact_topologies: Vec::new(),
            task_log: Vec::new(),
        };
        proof {
            assert(r@.outputs =~= Seq::<PackedTree>::empty());
            assert(r@.fact_topologies =~= Seq::<TopologyView>::empty());
            assert(r@.task_log =~= Seq::<usize>::empty());
        }
        r
    }

    /// Where the fact topologies are to be written, if anywhere.
    pub fn fact_topologies_path(&self) -> (r: Option<&String>)
        ensures
            match r {
                Some(path) => self@.fact_topologies_path == Some(path@),
                None => self@.fact_topologies_path is None,
            },
    {
        match &self.input.fact_topologies_path {
            Some(path) => Some(path),
            None => None,
        }
    }

    /// The hash that the bootloader's own program is expected to have.
    pub fn simple_bootloader_program_hash(&self) -> (r: Felt)
        ensures
            r == self@.bootloader_hash,
    {
        self.input.config.simple_bootloader_program_hash
    }

    /// Whether the whole output of the run is one page.
    pub fn single_page(&self) -> (r: bool)
        ensures
            r == self@.single_page,
    {
        self.input.config.single_page
    }

    /// Where the run stands.
    pub fn phase(&self) -> (r: RunPhase)
        ensures
            r == self@.phase,
    {
        self.phase
    }

    /// Which step of the current task was the last to be done.
    pub fn stage(&self) -> (r: TaskStage)
        ensures
            r == self@.stage,
    {
        self.stage
    }

    /// The index of the current task.
    pub fn task_id(&self) -> (r: usize)
        ensures
            r == self@.task_id,
    {
        self.task_id
    }

    /// How many tasks are still to be finished.
    pub fn remaining_tasks(&self) -> (r: usize)
        ensures
            r == self@.remaining_tasks,
    {
        self.remaining_tasks
    }

    /// The handler whose turn it is, while the run is in its task loop.
    pub fn next_hint(&self) -> (r: Option<HintId>)
        ensures
            r == (if self@.phase is PerTaskLoop {
                Some(hint_after(self@.stage))
            } else {
                None
            }),
    {
        if self.phase != RunPhase::PerTaskLoop {
            return None;
        }
        Some(
            match self.stage {
                TaskStage::NotStarted => HintId::SetCurrentTask,
                TaskStage::Bound => HintId::AllocateProgramDataSegment,
                TaskStage::Allocated => HintId::LoadProgram,
                TaskStage::Loaded => HintId::ValidateHash,
                TaskStage::Validated => HintId::AssertProgramAddress,
                TaskStage::AddressAsserted => HintId::SelectBuiltinsEnterScope,
                TaskStage::BuiltinsSelected => HintId::CallTask,
                TaskStage::Called => HintId::WriteReturnBuiltins,
                TaskStage::BuiltinsReturned => HintId::AppendFactTopologies,
                TaskStage::TopologyAppended => HintId::ExitScope,
            },
        )
    }

    /// Where the current task's program lies, once a segment has been allocated for it.
    pub fn program_address(&self) -> (r: Option<Relocatable>)
        ensures
            r == self@.program_address,
    {
        self.program_address
    }

    /// The current task, while the run is in its task loop.
    pub fn current_task(&self) -> (r: Option<&TaskSpec>)
        requires
            self@.wf(),
        ensures
            self@.phase is PerTaskLoop ==> r == Some(&self@.current_task()),
            !(self@.phase is PerTaskLoop) ==> r is None,
    {
        if self.phase == RunPhase::PerTaskLoop {
            Some(&self.input.tasks[self.task_id])
        } else {
            None
        }
    }

    /// The position selected for the current task's builtin number `i`.
    pub fn selected_builtin(&self, i: usize) -> (r: Option<usize>)
        ensures
            r == (match self@.selected_builtins {
                Some(positions) => if i < positions.len() {
                    Some(positions[i as int])
                } else {
                    None
                },
                None => None,
            }),
    {
        match &self.selected_builtins {
            Some(positions) => if i < positions.len() {
                Some(positions[i])
            } else {
                None
            },
            None => None,
        }
    }

    /// The indices of the tasks taken up so far, in the order in which they were.
    pub fn task_log(&self) -> (r: &Vec<usize>)
        ensures
            r@ == self@.task_log,
    {
        &self.task_log
    }

    /// The outputs recorded so far, in the order of their tasks.
    pub fn outputs(&self) -> (r: &Vec<PackedOutput>)
        ensures
            trees_of(r@) == self@.outputs,
    {
        &self.outputs
    }

    /// The fact topologies recorded so far, in the order of their tasks.
    pub fn fact_topologies(&self) -> (r: &Vec<FactTopology>)
        ensures
            r@.map_values(|t: FactTopology| t@) == self@.fact_topologies,
    {
        &self.fact_topologies
    }

    /// Ends the run with the given error.
    fn abort<T>(&mut self, error: BootloaderError) -> (r: Result<T, BootloaderError>)
        requires
            old(self)@.wf(),
        ensures
            final(self)@.wf(),
            final(self)@ == old(self)@.aborted(),
            r == Err::<T, BootloaderError>(error),
    {
        self.phase = RunPhase::Aborted;
        Err(error)
    }

    /// Takes in the task list: with it the run enters the task loop, or is
    /// done at once if there is no task. Returns the number of tasks, which
    /// is the number of range-check slots to reserve for them.
    ///
    /// Anywhere but at the beginning of a run this is a step out of turn.
    pub fn start(&mut self) -> (r: Result<usize, BootloaderError>)
        requires
            old(self)@.wf(),
        ensures
            final(self)@.wf(),
            r == (if old(self)@.phase is Init {
                Ok::<usize, BootloaderError>(old(self)@.tasks.len() as usize)
            } else {
                Err::<usize, BootloaderError>(BootloaderError::UnexpectedStep)
            }),
            r is Ok ==> final(self)@ == old(self)@.started(),
            r is Err ==> final(self)@ == old(self)@.aborted(),
    {
        if self.phase != RunPhase::Init {
            return self.abort(BootloaderError::UnexpectedStep);
        }
        self.phase = if self.remaining_tasks == 0 {
            RunPhase::Done
        } else {
            RunPhase::PerTaskLoop
        };
        Ok(self.remaining_tasks)
    }

    /// Takes up the next task of the list. Returns its index.
    ///
    /// While a task is under way, or when no task is left, this is a step
    /// out of turn.
    pub fn set_current_task(&mut self) -> (r: Result<usize, BootloaderError>)
        requires
            old(self)@.wf(),
        ensures
            final(self)@.wf(),
            r == (if old(self)@.in_stage(TaskStage::NotStarted) {
                Ok::<usize, BootloaderError>(old(self)@.task_id as usize)
            } else {
                Err::<usize, BootloaderError>(BootloaderError::UnexpectedStep)
            }),
            r is Ok ==> final(self)@ == old(self)@.bound(),
            r is Err ==> final(self)@ == old(self)@.aborted(),
    {
        if self.phase != RunPhase::PerTaskLoop || self.stage != TaskStage::NotStarted {
            return self.abort(BootloaderError::UnexpectedStep);
        }
        self.task_log.push(self.task_id);
        self.stage = TaskStage::Bound;
        Ok(self.task_id)
    }

    /// Allocates a fresh segment for the current task's program. Returns
    /// the start of the segment.
    ///
    /// The new segment's index is the number of segments there were; the
    /// machine is otherwise as it was. Out of turn, the machine is not
    /// touched at all.
    pub fn allocate_program_data_segment(&mut self, vm: &mut VirtualMachine) -> (r: Result<
        Relocatable,
        BootloaderError,
    >)
        requires
            old(self)@.wf(),
        ensures
            final(self)@.wf(),
            vm_memory(*final(vm)) == vm_memory(*old(vm)),
            same_frame(*final(vm), *old(vm)),
            old(self)@.in_stage(TaskStage::Bound) ==> {
                &&& r is Ok
                &&& r.unwrap().segment_index == vm_segments(*old(vm))
                &&& r.unwrap().offset == 0
                &&& vm_segments(*final(vm)) == vm_segments(*old(vm)) + 1
                &&& final(self)@ == old(self)@.allocated(r.unwrap())
            },
            !old(self)@.in_stage(TaskStage::Bound) ==> {
                &&& r == Err::<Relocatable, BootloaderError>(BootloaderError::UnexpectedStep)
                &&& final(self)@ == old(self)@.aborted()
                &&& *final(vm) == *old(vm)
            },
    {
        if self.phase != RunPhase::PerTaskLoop || self.stage != TaskStage::Bound {
            return self.abort(BootloaderError::UnexpectedStep);
        }
        let base = vm_add_memory_segment(vm);
        self.program_address = Some(base);
        self.stage = TaskStage::Allocated;
        Ok(base)
    }

    /// Puts the current task's program into the segment allocated for it.
    ///
    /// On success the program is loaded there and no other cell has been
    /// written. In its turn, what `load_settled` settles is what comes out:
    /// a program of nothing is always loaded. Whatever happens, every cell
    /// that held a value keeps it and nothing but cells is changed; out of
    /// turn, the machine is not touched at all.
    pub fn load_program(&mut self, vm: &mut VirtualMachine) -> (r: Result<(), BootloaderError>)
        requires
            old(self)@.wf(),
        ensures
            final(self)@.wf(),
            only_added_cells(*old(vm), *final(vm)),
            r is Ok ==> {
                &&& old(self)@.in_stage(TaskStage::Allocated)
                &&& program_loaded(
                    vm_memory(*final(vm)),
                    old(self)@.program_address.unwrap(),
                    old(self)@.current_task(),
                )
                &&& vm_memory(*final(vm)) == with_program(
                    vm_memory(*old(vm)),
                    old(self)@.program_address.unwrap(),
                    old(self)@.current_task(),
                )
                &&& final(self)@ == old(self)@.at_stage(TaskStage::Loaded)
            },
            r is Err ==> final(self)@ == old(self)@.aborted(),
            !old(self)@.in_stage(TaskStage::Allocated) ==> r == Err::<(), BootloaderError>(
                BootloaderError::UnexpectedStep,
            ) && *final(vm) == *old(vm),
            old(self)@.in_stage(TaskStage::Allocated) && r is Err ==> (r == Err::<
                (),
                BootloaderError,
            >(BootloaderError::ProgramLoadError) || r == Err::<(), BootloaderError>(
                BootloaderError::Memory,
            ) || r == Err::<(), BootloaderError>(BootloaderError::AddressOverflow)),
            old(self)@.in_stage(TaskStage::Allocated) ==> match load_settled(
                *old(vm),
                old(self)@.program_address.unwrap(),
                old(self)@.current_task(),
            ) {
                Some(Ok(_)) => r is Ok,
                Some(Err(e)) => r == Err::<(), BootloaderError>(e),
                None => true,
            },
    {
        if self.phase != RunPhase::PerTaskLoop || self.stage != TaskStage::Allocated {
            return self.abort(BootloaderError::UnexpectedStep);
        }
        let base = match self.program_address {
            Some(base) => base,
            None => {
                return self.abort(BootloaderError::UnexpectedStep);
            },
        };
        match load_program(vm, base, &self.input.tasks[self.task_id]) {
            Ok(()) => {},
            Err(e) => {
                return self.abort(e);
            },
        }
        self.stage = TaskStage::Loaded;
        Ok(())
    }

    /// Computes the hash of the current task's program under the task's
    /// scheme and holds it against the supported hashes. Returns the hash.
    ///
    /// A hash that is not supported is a hash mismatch; a program of which
    /// no hash can be computed is a load error.
    pub fn validate_hash(&mut self) -> (r: Result<Felt, BootloaderError>)
        requires
            old(self)@.wf(),
        ensures
            final(self)@.wf(),
            r == (if old(self)@.in_stage(TaskStage::Loaded) {
                validation_of(
                    spec_program_hash(
                        old(self)@.current_task().spec_program(),
                        old(self)@.current_task().spec_hash_scheme(),
                    ),
                    old(self)@.supported_hashes,
                )
            } else {
                Err::<Felt, BootloaderError>(BootloaderError::UnexpectedStep)
            }),
            r is Ok ==> final(self)@ == old(self)@.at_stage(TaskStage::Validated),
            r is Err ==> final(self)@ == old(self)@.aborted(),
    {
        if self.phase != RunPhase::PerTaskLoop || self.stage != TaskStage::Loaded {
            return self.abort(BootloaderError::UnexpectedStep);
        }
        let hash = match validate_task(&self.input.tasks[self.task_id], &self.input.config) {
            Ok(hash) => hash,
            Err(e) => {
                return self.abort(e);
            },
        };
        self.stage = TaskStage::Validated;
        Ok(hash)
    }

    /// Holds the program counter that is about to be executed against the
    /// start of the segment that the task's program was loaded into.
    pub fn assert_program_address(&mut self, pc: Relocatable) -> (r: Result<(), BootloaderError>)
        requires
            old(self)@.wf(),
        ensures
            final(self)@.wf(),
            r == (if !old(self)@.in_stage(TaskStage::Validated) {
                Err::<(), BootloaderError>(BootloaderError::UnexpectedStep)
            } else if old(self)@.program_address == Some(pc) {
                Ok::<(), BootloaderError>(())
            } else {
                Err::<(), BootloaderError>(BootloaderError::ProgramAddressMismatch)
            }),
            r is Ok ==> final(self)@ == old(self)@.at_stage(TaskStage::AddressAsserted),
            r is Err ==> final(self)@ == old(self)@.aborted(),
    {
        if self.phase != RunPhase::PerTaskLoop || self.stage != TaskStage::Validated {
            return self.abort(BootloaderError::UnexpectedStep);
        }
        match self.program_address {
            Some(base) => {
                if base != pc {
                    return self.abort(BootloaderError::ProgramAddressMismatch);
                }
            },
            None => {
                return self.abort(BootloaderError::ProgramAddressMismatch);
            },
        }
        self.stage = TaskStage::AddressAsserted;
        Ok(())
    }

    /// Selects the current task's builtins out of the run's.
    ///
    /// Succeeds exactly when the task's builtins are the run's with some
    /// left out; the selection is then the one that `select_builtins`
    /// makes. Anything else is a builtin mismatch.
    pub fn select_builtins(&mut self) -> (r: Result<(), BootloaderError>)
        requires
            old(self)@.wf(),
        ensures
            final(self)@.wf(),
            r == (if !old(self)@.in_stage(TaskStage::AddressAsserted) {
                Err::<(), BootloaderError>(BootloaderError::UnexpectedStep)
            } else if is_subsequence(
                old(self)@.current_task().spec_program().builtins@,
                old(self)@.run_builtins,
            ) {
                Ok::<(), BootloaderError>(())
            } else {
                Err::<(), BootloaderError>(BootloaderError::BuiltinMismatch)
            }),
            r is Ok ==> final(self)@.selected_builtins is Some && final(self)@ == old(
                self,
            )@.selected(final(self)@.selected_builtins.unwrap()),
            r is Err ==> final(self)@ == old(self)@.aborted(),
    {
        if self.phase != RunPhase::PerTaskLoop || self.stage != TaskStage::AddressAsserted {
            return self.abort(BootloaderError::UnexpectedStep);
        }
        let positions = match select_builtins(
            &self.input.tasks[self.task_id].program().builtins,
            &self.run_builtins,
        ) {
            Ok(positions) => positions,
            Err(e) => {
                return self.abort(e);
            },
        };
        self.selected_builtins = Some(positions);
        self.stage = TaskStage::BuiltinsSelected;
        Ok(())
    }

    /// Marks the current task as called. Returns how it is to be carried
    /// out, as `task_call_of` says: a fresh program by a call of its main
    /// function in the segment that it was loaded into, a replayed trace by
    /// taking over its recorded registers.
    pub fn call_task(&mut self) -> (r: Result<TaskCall, BootloaderError>)
        requires
            old(self)@.wf(),
        ensures
            final(self)@.wf(),
            r == (if old(self)@.in_stage(TaskStage::BuiltinsSelected) {
                task_call_of(old(self)@.current_task(), old(self)@.program_address.unwrap())
            } else {
                Err::<TaskCall, BootloaderError>(BootloaderError::UnexpectedStep)
            }),
            r is Ok ==> final(self)@ == old(self)@.at_stage(TaskStage::Called),
            r is Err ==> final(self)@ == old(self)@.aborted(),
    {
        if self.phase != RunPhase::PerTaskLoop || self.stage != TaskStage::BuiltinsSelected {
            return self.abort(BootloaderError::UnexpectedStep);
        }
        let base = match self.program_address {
            Some(base) => base,
            None => {
                return self.abort(BootloaderError::UnexpectedStep);
            },
        };
        let call = match &self.input.tasks[self.task_id] {
            TaskSpec::RunProgram(task) => {
                let main = match task.program.main {
                    Some(main) => main,
                    None => {
                        return self.abort(BootloaderError::ProgramLoadError);
                    },
                };
                match base.add_usize(main) {
                    Some(entry) => TaskCall::Run(entry),
                    None => {
                        return self.abort(BootloaderError::AddressOverflow);
                    },
                }
            },
            TaskSpec::ReplayedTrace(task) => TaskCall::Replay(task.registers),
        };
        self.stage = TaskStage::Called;
        Ok(call)
    }

    /// Puts the builtin pointers that the task returned back among the
    /// run's. Returns the run's pointers after the task.
    ///
    /// `before` holds the run's pointers from before the task and
    /// `returned` the task's, in the order of the selection. Each selected
    /// builtin gets the pointer that the task returned for it; every other
    /// keeps its pointer. Lists of the wrong length are a builtin mismatch.
    pub fn write_return_builtins(
        &mut self,
        before: &Vec<Relocatable>,
        returned: &Vec<Relocatable>,
    ) -> (r: Result<Vec<Relocatable>, BootloaderError>)
        requires
            old(self)@.wf(),
        ensures
            final(self)@.wf(),
            !old(self)@.in_stage(TaskStage::Called) ==> r == Err::<
                Vec<Relocatable>,
                BootloaderError,
            >(BootloaderError::UnexpectedStep),
            old(self)@.in_stage(TaskStage::Called) ==> {
                let positions = old(self)@.selected_builtins.unwrap();
                &&& r is Ok <==> (valid_positions(positions, before.len() as int)
                    && returned.len() == positions.len())
                &&& r is Ok ==> returned_pointers(before@, positions, returned@, r.unwrap()@)
                &&& r is Err ==> r == Err::<Vec<Relocatable>, BootloaderError>(
                    BootloaderError::BuiltinMismatch,
                )
            },
            r is Ok ==> final(self)@ == old(self)@.at_stage(TaskStage::BuiltinsReturned),
            r is Err ==> final(self)@ == old(self)@.aborted(),
    {
        if self.phase != RunPhase::PerTaskLoop || self.stage != TaskStage::Called {
            return self.abort(BootloaderError::UnexpectedStep);
        }
        let written = match &self.selected_builtins {
            Some(positions) => write_return_builtins(before, positions, returned),
            None => Err(BootloaderError::BuiltinMismatch),
        };
        let after = match written {
            Ok(after) => after,
            Err(e) => {
                return self.abort(e);
            },
        };
        self.stage = TaskStage::BuiltinsReturned;
        Ok(after)
    }

    /// Records the current task's output and the fact topology of it.
    ///
    /// An output for which a size was reserved must have that size, else it
    /// is a size mismatch; an output too large for its size to be held is
    /// an address overflow.
    pub fn append_fact_topologies(&mut self, output: PackedOutput) -> (r: Result<
        (),
        BootloaderError,
    >)
        requires
            old(self)@.wf(),
        ensures
            final(self)@.wf(),
            r == (if old(self)@.in_stage(TaskStage::BuiltinsReturned) {
                output_accepted(output@)
            } else {
                Err::<(), BootloaderError>(BootloaderError::UnexpectedStep)
            }),
            r is Ok ==> final(self)@ == old(self)@.appended(output@),
            r is Err ==> final(self)@ == old(self)@.aborted(),
    {
        if self.phase != RunPhase::PerTaskLoop || self.stage != TaskStage::BuiltinsReturned {
            return self.abort(BootloaderError::UnexpectedStep);
        }
        match &output {
            PackedOutput::Composite { source: HashSource::Pending(guess), children } => {
                match output.output_size() {
                    Some(size) => {
                        if size != *guess {
                            return self.abort(BootloaderError::OutputSizeMismatch);
                        }
                    },
                    None => {
                        return self.abort(BootloaderError::OutputSizeMismatch);
                    },
                }
            },
            _ => {},
        }
        let topology = match task_topology(&output, self.input.config.single_page) {
            Ok(topology) => topology,
            Err(e) => {
                return self.abort(e);
            },
        };
        proof {
            assert(self.outputs@.push(output).drop_last() =~= self.outputs@);
            assert(self.fact_topologies@.push(topology).map_values(|t: FactTopology| t@)
                =~= self.fact_topologies@.map_values(|t: FactTopology| t@).push(topology@));
            let next = old(self)@.appended(output@);
            assert forall|i: int| 0 <= i < next.outputs.len() implies (
            #[trigger] next.fact_topologies[i]) == task_topology_of(
                next.outputs[i],
                next.single_page,
            ) by {
                if i < old(self)@.outputs.len() {
                    assert(next.fact_topologies[i] == old(self)@.fact_topologies[i]);
                }
            }
        }
        self.outputs.push(output);
        self.fact_topologies.push(topology);
        self.stage = TaskStage::TopologyAppended;
        Ok(())
    }

    /// Leaves the scope of the current task: nothing of the task is kept
    /// but what was recorded. The next task becomes current, or the run is
    /// done if there is none.
    pub fn exit_scope(&mut self) -> (r: Result<(), BootloaderError>)
        requires
            old(self)@.wf(),
        ensures
            final(self)@.wf(),
            r == (if old(self)@.in_stage(TaskStage::TopologyAppended) {
                Ok::<(), BootloaderError>(())
            } else {
                Err::<(), BootloaderError>(BootloaderError::UnexpectedStep)
            }),
            r is Ok ==> final(self)@ == old(self)@.exited(),
            r is Err ==> final(self)@ == old(self)@.aborted(),
    {
        if self.phase != RunPhase::PerTaskLoop || self.stage != TaskStage::TopologyAppended {
            return self.abort(BootloaderError::UnexpectedStep);
        }
        self.program_address = None;
        self.selected_builtins = None;
        self.remaining_tasks = self.remaining_tasks - 1;
        self.task_id = self.task_id + 1;
        self.stage = TaskStage::NotStarted;
        self.phase = if self.remaining_tasks == 0 {
            RunPhase::Done
        } else {
            RunPhase::PerTaskLoop
        };
        Ok(())
    }

    /// Carries out the step of the task loop that the handler names.
    ///
    /// What this does to the run, and what it returns, is what `hint_step`
    /// says. Of the machine, every cell that held a value keeps it, no
    /// segment is lost, and the registers and the relocation rules stay as
    /// they were; a handler that is no step of the task loop leaves the
    /// machine as it was.
    pub fn execute_hint(&mut self, id: HintId, vm: &mut VirtualMachine, input: StepInput) -> (r:
        Result<StepOutput, BootloaderError>)
        requires
            old(self)@.wf(),
        ensures
            final(self)@.wf(),
            hint_step(id, input, old(self)@, *old(vm), final(self)@, r),
            memory_kept(vm_memory(*old(vm)), vm_memory(*final(vm))),
            vm_segments(*final(vm)) >= vm_segments(*old(vm)),
            same_frame(*final(vm), *old(vm)),
            !is_step(id) ==> *final(vm) == *old(vm),
    {
        match id {
            HintId::PrepareTaskRangeChecks => match self.start() {
                Ok(count) => Ok(StepOutput::TaskCount(count)),
                Err(e) => Err(e),
            },
            HintId::SetCurrentTask => match self.set_current_task() {
                Ok(index) => Ok(StepOutput::TaskIndex(index)),
                Err(e) => Err(e),
            },
            HintId::AllocateProgramDataSegment => match self.allocate_program_data_segment(vm) {
                Ok(base) => Ok(StepOutput::Segment(base)),
                Err(e) => Err(e),
            },
            HintId::LoadProgram => match self.load_program(vm) {
                Ok(()) => Ok(StepOutput::Nothing),
                Err(e) => Err(e),
            },
            HintId::ValidateHash => match self.validate_hash() {
                Ok(hash) => Ok(StepOutput::ProgramHash(hash)),
                Err(e) => Err(e),
            },
            HintId::AssertProgramAddress => {
                let asserted = match input {
                    StepInput::ProgramCounter(pc) => self.assert_program_address(pc),
                    _ => self.abort(BootloaderError::UnexpectedStep),
                };
                match asserted {
                    Ok(()) => Ok(StepOutput::Nothing),
                    Err(e) => Err(e),
                }
            },
            HintId::SelectBuiltinsEnterScope => match self.select_builtins() {
                Ok(()) => Ok(StepOutput::Nothing),
                Err(e) => Err(e),
            },
            HintId::CallTask => match self.call_task() {
                Ok(call) => Ok(StepOutput::Call(call)),
                Err(e) => Err(e),
            },
            HintId::WriteReturnBuiltins => {
                let written = match &input {
                    StepInput::BuiltinPointers { before, returned } => self.write_return_builtins(
                        before,
                        returned,
                    ),
                    _ => self.abort(BootloaderError::UnexpectedStep),
                };
                match written {
                    Ok(pointers) => Ok(StepOutput::BuiltinPointers(pointers)),
                    Err(e) => Err(e),
                }
            },
            HintId::AppendFactTopologies => {
                let appended = match input {
                    StepInput::TaskOutput(output) => self.append_fact_topologies(output),
                    _ => self.abort(BootloaderError::UnexpectedStep),
                };
                match appended {
                    Ok(()) => Ok(StepOutput::Nothing),
                    Err(e) => Err(e),
                }
            },
            HintId::ExitScope => match self.exit_scope() {
                Ok(()) => Ok(StepOutput::Nothing),
                Err(e) => Err(e),
            },
            _ => Err(BootloaderError::UnknownHint),
        }
    }

    /// The layout of the output of the run so far, as `run_topology` gives
    /// it for the outputs recorded.
    pub fn run_topology(&self) -> (r: Result<FactTopology, BootloaderError>)
        ensures
            r is Ok <==> outputs_len(self@.outputs) <= usize::MAX,
            r is Ok ==> r.unwrap()@ == run_topology_of(self@.outputs, self@.single_page),
            r is Err ==> r == Err::<FactTopology, BootloaderError>(
                BootloaderError::AddressOverflow,
            ),
    {
        run_topology(&self.outputs, self.input.config.single_page)
    }

    /// The output region of the run so far: the output elements of the
    /// outputs recorded, in order.
    pub fn output_region(&self) -> (r: Vec<Felt>)
        ensures
            r@ == outputs_elements(self@.outputs),
    {
        output_region(&self.outputs)
    }

    /// Writes the output region of the run so far into the machine's memory
    /// from `base` on.
    ///
    /// On success the region is there and no other cell has been written.
    /// A failure is the machine refusing a write. An empty region is always
    /// written; a first cell that the machine cannot write is a failure.
    /// Whatever happens, every cell that held a value keeps it and nothing
    /// but cells is changed.
    pub fn write_output(&self, vm: &mut VirtualMachine, base: Relocatable) -> (r: Result<
        (),
        BootloaderError,
    >)
        ensures
            r is Ok ==> cells_at(
                vm_memory(*final(vm)),
                base,
                as_cells(outputs_elements(self@.outputs)),
            ),
            r is Ok ==> vm_memory(*final(vm)) == written_cells(
                vm_memory(*old(vm)),
                base,
                as_cells(outputs_elements(self@.outputs)),
            ),
            r is Err ==> r == Err::<(), BootloaderError>(BootloaderError::Memory),
            outputs_elements(self@.outputs).len() == 0 ==> r is Ok,
            outputs_elements(self@.outputs).len() > 0 && cannot_write(
                *old(vm),
                base,
                MaybeRelocatable::Int(outputs_elements(self@.outputs)[0]),
            ) ==> r is Err,
            only_added_cells(*old(vm), *final(vm)),
    {
        let region = self.output_region();
        write_felts(vm, base, &region)
    }
}

/// Once a run is aborted it stays aborted: whatever the state was, the
/// aborted state allows no step of a task and is no beginning of a run.
pub proof fn lemma_aborted_is_final(state: RunState, stage: TaskStage)
    ensures
        !state.aborted().in_stage(stage),
        !(state.aborted().phase is Init),
        state.aborted().aborted() == state.aborted(),
{
}

} // verus!
