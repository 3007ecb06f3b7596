//! The tasks of a run and the input they come in, and how a task is made
//! from an executable.

use vstd::prelude::*;
use crate::address::{MaybeRelocatable, Relocatable};
use crate::builtins::BuiltinName;
use crate::felt::Felt;

verus! {

/// The version of the bootloader that the program hashes are made for.
pub const BOOTLOADER_VERSION: usize = 0;

/// How far behind its start a standalone program ends.
pub const STANDALONE_END_OFFSET: usize = 4;

/// Why no task could be made.
#[derive(Clone, Copy, Debug, PartialEq, Eq, Structural, Hash)]
pub enum BootloaderTaskError {
    /// The program could not be read.
    Program,
    /// The recorded trace could not be read.
    Pie,
}

/// A program: its bytecode and what a loader has to know of it.
#[derive(Debug, PartialEq, Eq)]
pub struct Program {
    /// The builtins the program uses, in the order in which it expects them.
    pub builtins: Vec<BuiltinName>,
    /// The bytecode.
    pub data: Vec<Felt>,
    /// Where the program's main function starts, if it has one.
    pub main: Option<usize>,
    /// Where execution starts, for a program that is run by itself.
    pub start: Option<usize>,
    /// Where execution ends, for a program that is run by itself.
    pub end: Option<usize>,
}

/// Which of the two accepted hash schemes a program is hashed with.
#[derive(Clone, Copy, Debug, PartialEq, Eq, Structural, Hash)]
pub enum HashScheme {
    /// The bytecode is hashed as it stands.
    Scheme0,
    /// The length of the bytecode is hashed with it.
    Scheme1,
}

/// A program to be run afresh.
#[derive(Debug, PartialEq, Eq)]
pub struct RunProgramTask {
    pub program: Program,
    /// The input parameters of the program, each a name and a value.
    pub program_input: Vec<(String, String)>,
    pub hash_scheme: HashScheme,
}

/// A run of cells recorded in a trace, at an offset within the task's segment.
#[derive(Debug, PartialEq, Eq)]
pub struct MemoryPage {
    pub offset: usize,
    pub values: Vec<MaybeRelocatable>,
}

/// The registers of the machine.
#[derive(Clone, Copy, Debug, PartialEq, Eq, Structural, Hash)]
pub struct Registers {
    pub pc: Relocatable,
    pub ap: Relocatable,
    pub fp: Relocatable,
}

/// A program that has been run before, to be replayed from what was recorded.
#[derive(Debug, PartialEq, Eq)]
pub struct TraceTask {
    /// The program that was run; its builtins are the builtins that were used.
    pub program: Program,
    /// The memory that the run left behind.
    pub pages: Vec<MemoryPage>,
    /// The registers at the end of the run.
    pub registers: Registers,
}

/// One task of a run.
#[derive(Debug, PartialEq, Eq)]
pub enum TaskSpec {
    RunProgram(RunProgramTask),
    ReplayedTrace(TraceTask),
}

impl TaskSpec {
    /// The program of the task.
    pub open spec fn spec_program(self) -> Program {
        match self {
            TaskSpec::RunProgram(task) => task.program,
            TaskSpec::ReplayedTrace(task) => task.program,
        }
    }

    /// The hash scheme of the task: its own for a fresh program, the first
    /// for a replayed trace.
    pub open spec fn spec_hash_scheme(self) -> HashScheme {
        match self {
            TaskSpec::RunProgram(task) => task.hash_scheme,
            TaskSpec::ReplayedTrace(_) => HashScheme::Scheme0,
        }
    }

    /// The program of the task.
    pub fn program(&self) -> (r: &Program)
        ensures
            *r == self.spec_program(),
    {
        match self {
            TaskSpec::RunProgram(task) => &task.program,
            TaskSpec::ReplayedTrace(task) => &task.program,
        }
    }

    /// The hash scheme of the task.
    pub fn hash_scheme(&self) -> (r: HashScheme)
        ensures
            r == self.spec_hash_scheme(),
    {
        match self {
            TaskSpec::RunProgram(task) => task.hash_scheme,
            TaskSpec::ReplayedTrace(_) => HashScheme::Scheme0,
        }
    }
}

/// What a run is configured with.
#[derive(Debug, PartialEq, Eq)]
pub struct BootloaderConfig {
    /// The hash that the bootloader's own program is expected to have.
    pub simple_bootloader_program_hash: Felt,
    /// The program hashes that a task may have.
    pub supported_program_hashes: Vec<Felt>,
    /// Whether the whole output is one page.
    pub single_page: bool,
}

/// The input of a run.
#[derive(Debug, PartialEq, Eq)]
pub struct BootloaderInput {
    /// The tasks, in the order in which they are to be run.
    pub tasks: Vec<TaskSpec>,
    /// Where the fact topologies are to be written, if anywhere.
    pub fact_topologies_path: Option<String>,
    pub config: BootloaderConfig,
}

/// How an entry point is meant to be run.
#[derive(Clone, Copy, Debug, PartialEq, Eq, Structural, Hash)]
pub enum EntryPointKind {
    /// By a bootloader: the entry point is a function that takes the
    /// builtins as parameters and returns.
    Bootloader,
    /// By itself.
    Standalone,
}

/// An entry point of an executable.
#[derive(Debug, PartialEq, Eq)]
pub struct ExecutableEntryPoint {
    /// The builtins that the function uses.
    pub builtins: Vec<BuiltinName>,
    /// Where in the bytecode the entry point lies.
    pub offset: usize,
    pub kind: EntryPointKind,
}

/// An executable: bytecode and the ways to enter it.
#[derive(Debug, PartialEq, Eq)]
pub struct Executable {
    pub bytecode: Vec<Felt>,
    pub entrypoints: Vec<ExecutableEntryPoint>,
}

/// The index of the first entry point of the given kind, if there is one.
pub open spec fn first_of_kind(
    entrypoints: Seq<ExecutableEntryPoint>,
    kind: EntryPointKind,
) -> Option<int>
    decreases entrypoints.len(),
{
    if entrypoints.len() == 0 {
        None
    } else if entrypoints[0].kind == kind {
        Some(0)
    } else {
        match first_of_kind(entrypoints.drop_first(), kind) {
            Some(i) => Some(i + 1),
            None => None,
        }
    }
}

/// The first entry point of the given kind lies within the list, has that
/// kind, and none before it has.
pub proof fn lemma_first_of_kind(entrypoints: Seq<ExecutableEntryPoint>, kind: EntryPointKind)
    ensures
        match first_of_kind(entrypoints, kind) {
            Some(i) => {
                &&& 0 <= i < entrypoints.len()
                &&& entrypoints[i].kind == kind
                &&& forall|j: int| 0 <= j < i ==> (#[trigger] entrypoints[j]).kind != kind
            },
            None => forall|j: int|
                0 <= j < entrypoints.len() ==> (#[trigger] entrypoints[j]).kind != kind,
        },
    decreases entrypoints.len(),
{
    if entrypoints.len() > 0 && entrypoints[0].kind != kind {
        let rest = entrypoints.drop_first();
        lemma_first_of_kind(rest, kind);
        match first_of_kind(rest, kind) {
            Some(i) => {
                assert(entrypoints[i + 1] == rest[i]);
                assert forall|j: int| 0 <= j < i + 1 implies (#[trigger] entrypoints[j]).kind
                    != kind by {
                    if j > 0 {
                        assert(entrypoints[j] == rest[j - 1]);
                    }
                }
            },
            None => {
                assert forall|j: int| 0 <= j < entrypoints.len() implies (
                #[trigger] entrypoints[j]).kind != kind by {
                    if j > 0 {
                        assert(entrypoints[j] == rest[j - 1]);
                    }
                }
            },
        }
    }
}

/// The first entry point of the given kind, if there is one.
pub fn find_entrypoint(entrypoints: &Vec<ExecutableEntryPoint>, kind: EntryPointKind) -> (r:
    Option<usize>)
    ensures
        match first_of_kind(entrypoints@, kind) {
            Some(i) => r == Some(i as usize) && i < entrypoints.len(),
            None => r is None,
        },
{
    let mut i: usize = 0;
    proof {
        lemma_first_of_kind(entrypoints@, kind);
    }
    while i < entrypoints.len()
        invariant
            i <= entrypoints.len(),
            forall|j: int| 0 <= j < i ==> (#[trigger] entrypoints[j]).kind != kind,
            match first_of_kind(entrypoints@, kind) {
                Some(k) => {
                    &&& 0 <= k < entrypoints.len()
                    &&& entrypoints[k].kind == kind
                    &&& forall|j: int| 0 <= j < k ==> (#[trigger] entrypoints[j]).kind != kind
                },
                None => forall|j: int|
                    0 <= j < entrypoints.len() ==> (#[trigger] entrypoints[j]).kind != kind,
            },
        decreases entrypoints.len() - i,
    {
        if entrypoints[i].kind == kind {
            return Some(i);
        }
        i += 1;
    }
    None
}

/// The program that entering `bytecode` at `offset` in the given way makes.
///
/// Run by itself, a program starts at the offset and ends four cells
/// behind it, and has no main function. Run by a bootloader, its main
/// function is at the offset.
pub open spec fn program_at(
    bytecode: Vec<Felt>,
    builtins: Vec<BuiltinName>,
    offset: usize,
    kind: EntryPointKind,
) -> Program {
    match kind {
        EntryPointKind::Standalone => Program {
            builtins,
            data: bytecode,
            main: None,
            start: Some(offset),
            end: Some((offset + STANDALONE_END_OFFSET) as usize),
        },
        EntryPointKind::Bootloader => Program {
            builtins,
            data: bytecode,
            main: Some(offset),
            start: None,
            end: None,
        },
    }
}

/// Copies a list of field elements.
pub fn copy_felts(felts: &Vec<Felt>) -> (r: Vec<Felt>)
    ensures
        r@ == felts@,
{
    let mut out: Vec<Felt> = Vec::new();
    let mut i: usize = 0;
    while i < felts.len()
        invariant
            i <= felts.len(),
            out@ == felts@.take(i as int),
        decreases felts.len() - i,
    {
        out.push(felts[i]);
        proof {
            assert(felts@.take(i + 1) =~= felts@.take(i as int).push(felts@[i as int]));
        }
        i += 1;
    }
    proof {
        assert(felts@.take(i as int) =~= felts@);
    }
    out
}

/// Copies a list of builtins.
pub fn copy_builtins(builtins: &Vec<BuiltinName>) -> (r: Vec<BuiltinName>)
    ensures
        r@ == builtins@,
{
    let mut out: Vec<BuiltinName> = Vec::new();
    let mut i: usize = 0;
    while i < builtins.len()
        invariant
            i <= builtins.len(),
            out@ == builtins@.take(i as int),
        decreases builtins.len() - i,
    {
        out.push(builtins[i]);
        proof {
            assert(builtins@.take(i + 1) =~= builtins@.take(i as int).push(builtins@[i as int]));
        }
        i += 1;
    }
    proof {
        assert(builtins@.take(i as int) =~= builtins@);
    }
    out
}

/// The program that entering the executable at the entry point makes.
///
/// Fails only for a standalone entry point so close to the end of `usize`
/// that the place where the program ends cannot be named.
pub fn program_and_hints_from_executable(
    executable: &Executable,
    entrypoint: &ExecutableEntryPoint,
) -> (r: Result<Program, BootloaderTaskError>)
    ensures
        match r {
            Ok(program) => {
                &&& program.builtins@ == entrypoint.builtins@
                &&& program.data@ == executable.bytecode@
                &&& program.main == program_at(
                    executable.bytecode,
                    entrypoint.builtins,
                    entrypoint.offset,
                    entrypoint.kind,
                ).main
                &&& program.start == program_at(
                    executable.bytecode,
                    entrypoint.builtins,
                    entrypoint.offset,
                    entrypoint.kind,
                ).start
                &&& program.end == program_at(
                    executable.bytecode,
                    entrypoint.builtins,
                    entrypoint.offset,
                    entrypoint.kind,
                ).end
                &&& entrypoint.kind == EntryPointKind::Standalone ==> entrypoint.offset
                    + STANDALONE_END_OFFSET <= usize::MAX
            },
            Err(e) => {
                &&& e == BootloaderTaskError::Program
                &&& entrypoint.kind == EntryPointKind::Standalone
                &&& entrypoint.offset + STANDALONE_END_OFFSET > usize::MAX
            },
        },
{
    let data = copy_felts(&executable.bytecode);
    let builtins = copy_builtins(&entrypoint.builtins);
    match entrypoint.kind {
        EntryPointKind::Standalone => {
            match entrypoint.offset.checked_add(STANDALONE_END_OFFSET) {
                Some(end) => Ok(
                    Program {
                        builtins,
                        data,
                        main: None,
                        start: Some(entrypoint.offset),
                        end: Some(end),
                    },
                ),
                None => Err(BootloaderTaskError::Program),
            }
        },
        EntryPointKind::Bootloader => Ok(
            Program { builtins, data, main: Some(entrypoint.offset), start: None, end: None },
        ),
    }
}

/// Makes the task that runs an executable under a bootloader: the program
/// at the first entry point meant for a bootloader, with no input and the
/// first hash scheme. Whatever `program_input` holds is left aside.
///
/// Fails exactly when the executable has no entry point meant for a bootloader.
pub fn make_bootloader_tasks(
    executable: &Executable,
    program_input: Option<Vec<(String, String)>>,
) -> (r: Result<TaskSpec, BootloaderTaskError>)
    ensures
        match first_of_kind(executable.entrypoints@, EntryPointKind::Bootloader) {
            Some(i) => {
                &&& r matches Ok(TaskSpec::RunProgram(task))
                &&& task.program.builtins@ == executable.entrypoints[i].builtins@
                &&& task.program.data@ == executable.bytecode@
                &&& task.program.main == Some(executable.entrypoints[i].offset)
                &&& task.program.start == None::<usize>
                &&& task.program.end == None::<usize>
                &&& task.program_input@.len() == 0
                &&& task.hash_scheme == HashScheme::Scheme0
            },
            None => r == Err::<TaskSpec, BootloaderTaskError>(BootloaderTaskError::Program),
        },
{
    proof {
        lemma_first_of_kind(executable.entrypoints@, EntryPointKind::Bootloader);
    }
    let entrypoint = match find_entrypoint(&executable.entrypoints, EntryPointKind::Bootloader) {
        Some(i) => &executable.entrypoints[i],
        None => {
            return Err(BootloaderTaskError::Program);
        },
    };
    let program = match program_and_hints_from_executable(executable, entrypoint) {
        Ok(program) => program,
        Err(e) => {
            return Err(e);
        },
    };
    Ok(
        TaskSpec::RunProgram(
            RunProgramTask { program, program_input: Vec::new(), hash_scheme: HashScheme::Scheme0 },
        ),
    )
}

} // verus!
