use bootloader_core::builtins::BuiltinName;
use bootloader_core::felt::Felt;
use bootloader_core::task::{
    copy_builtins, copy_felts, find_entrypoint, make_bootloader_tasks,
    program_and_hints_from_executable, BootloaderTaskError, EntryPointKind, Executable,
    ExecutableEntryPoint, HashScheme, Program, TaskSpec,
};

fn felts(values: &[u64]) -> Vec<Felt> {
    values.iter().map(|v| Felt::from_u64(*v)).collect()
}

fn entry(kind: EntryPointKind, offset: usize, builtins: Vec<BuiltinName>) -> ExecutableEntryPoint {
    ExecutableEntryPoint { builtins, offset, kind }
}

fn executable() -> Executable {
    Executable {
        bytecode: felts(&[10, 11, 12, 13, 14, 15, 16, 17]),
        entrypoints: vec![
            entry(EntryPointKind::Standalone, 0, vec![BuiltinName::Output]),
            entry(EntryPointKind::Bootloader, 6, vec![BuiltinName::Output, BuiltinName::Pedersen]),
            entry(EntryPointKind::Bootloader, 7, vec![]),
        ],
    }
}

#[test]
fn the_first_entrypoint_of_a_kind_is_found() {
    let exe = executable();
    assert_eq!(find_entrypoint(&exe.entrypoints, EntryPointKind::Standalone), Some(0));
    assert_eq!(find_entrypoint(&exe.entrypoints, EntryPointKind::Bootloader), Some(1));
    assert_eq!(find_entrypoint(&vec![], EntryPointKind::Bootloader), None);
    let only_standalone = vec![entry(EntryPointKind::Standalone, 0, vec![])];
    assert_eq!(find_entrypoint(&only_standalone, EntryPointKind::Bootloader), None);
}

#[test]
fn a_bootloader_entrypoint_makes_a_program_with_main() {
    let exe = executable();
    let program = program_and_hints_from_executable(&exe, &exe.entrypoints[1]);
    assert_eq!(
        program,
        Ok(Program {
            builtins: vec![BuiltinName::Output, BuiltinName::Pedersen],
            data: felts(&[10, 11, 12, 13, 14, 15, 16, 17]),
            main: Some(6),
            start: None,
            end: None,
        })
    );
}

#[test]
fn a_standalone_entrypoint_makes_a_program_with_start_and_end() {
    let exe = executable();
    let program = program_and_hints_from_executable(&exe, &exe.entrypoints[0]);
    assert_eq!(
        program,
        Ok(Program {
            builtins: vec![BuiltinName::Output],
            data: felts(&[10, 11, 12, 13, 14, 15, 16, 17]),
            main: None,
            start: Some(0),
            end: Some(4),
        })
    );
    let late = entry(EntryPointKind::Standalone, usize::MAX - 4, vec![]);
    let program = program_and_hints_from_executable(&exe, &late).unwrap();
    assert_eq!((program.start, program.end), (Some(usize::MAX - 4), Some(usize::MAX)));
}

#[test]
fn a_standalone_entrypoint_at_the_end_of_usize_makes_no_program() {
    let exe = executable();
    let late = entry(EntryPointKind::Standalone, usize::MAX - 3, vec![]);
    assert_eq!(
        program_and_hints_from_executable(&exe, &late),
        Err(BootloaderTaskError::Program)
    );
    let late = entry(EntryPointKind::Bootloader, usize::MAX, vec![]);
    assert_eq!(program_and_hints_from_executable(&exe, &late).map(|p| p.main), Ok(Some(usize::MAX)));
}

#[test]
fn the_task_runs_the_first_bootloader_entrypoint() {
    let exe = executable();
    match make_bootloader_tasks(&exe, None) {
        Ok(TaskSpec::RunProgram(task)) => {
            assert_eq!(task.program.main, Some(6));
            assert_eq!(task.program.start, None);
            assert_eq!(task.program.end, None);
            assert_eq!(task.program.builtins, vec![BuiltinName::Output, BuiltinName::Pedersen]);
            assert_eq!(task.program.data, exe.bytecode);
            assert_eq!(task.program_input, vec![]);
            assert_eq!(task.hash_scheme, HashScheme::Scheme0);
        }
        _ => panic!("no task was made"),
    }
}

#[test]
fn the_program_input_is_left_aside() {
    let exe = executable();
    let input = vec![(String::from("n"), String::from("5"))];
    match make_bootloader_tasks(&exe, Some(input)) {
        Ok(TaskSpec::RunProgram(task)) => assert_eq!(task.program_input, vec![]),
        _ => panic!("no task was made"),
    }
}

#[test]
fn an_executable_without_a_bootloader_entrypoint_makes_no_task() {
    let exe = Executable {
        bytecode: felts(&[1]),
        entrypoints: vec![entry(EntryPointKind::Standalone, 0, vec![])],
    };
    assert_eq!(make_bootloader_tasks(&exe, None), Err(BootloaderTaskError::Program));
    let exe = Executable { bytecode: vec![], entrypoints: vec![] };
    assert_eq!(make_bootloader_tasks(&exe, None), Err(BootloaderTaskError::Program));
}

#[test]
fn copies_are_equal_to_what_they_copy() {
    assert_eq!(copy_felts(&felts(&[3, 1, 2])), felts(&[3, 1, 2]));
    assert_eq!(copy_felts(&vec![]), vec![]);
    let builtins = vec![BuiltinName::Keccak, BuiltinName::Output];
    assert_eq!(copy_builtins(&builtins), builtins);
}

#[test]
fn a_task_gives_its_program_and_scheme() {
    let exe = executable();
    let task = make_bootloader_tasks(&exe, None).unwrap();
    assert_eq!(task.program().main, Some(6));
    assert_eq!(task.hash_scheme(), HashScheme::Scheme0);
}
