use bootloader_core::error::BootloaderError;
use bootloader_core::external_hints::ExternalHint;
use bootloader_core::felt::Felt;
use bootloader_core::hint_processor::{
    next_after_unknown, BootloaderHintProcessor, Dispatch, HintData, TaggedHint,
};
use bootloader_core::hints::{
    get_hints, HintId, HintTable, BOOTLOADER_ASSERT_IS_COMPOSITE_PACKED_OUTPUT,
    BOOTLOADER_COMPUTE_FACT_TOPOLOGIES, BOOTLOADER_ENTER_PACKED_OUTPUT_SCOPE,
    BOOTLOADER_GUESS_PRE_IMAGE_OF_SUBTASKS_OUTPUT_HASH, BOOTLOADER_IMPORT_PACKED_OUTPUT_SCHEMAS,
    BOOTLOADER_IS_PLAIN_PACKED_OUTPUT, BOOTLOADER_LOAD_BOOTLOADER_CONFIG,
    BOOTLOADER_PREPARE_SIMPLE_BOOTLOADER_INPUT,
    BOOTLOADER_PREPARE_SIMPLE_BOOTLOADER_OUTPUT_SEGMENT, BOOTLOADER_RESTORE_BOOTLOADER_OUTPUT,
    BOOTLOADER_SAVE_OUTPUT_POINTER, BOOTLOADER_SAVE_PACKED_OUTPUTS,
    BOOTLOADER_SET_PACKED_OUTPUT_TO_SUBTASKS, EXECUTE_TASK_ALLOCATE_PROGRAM_DATA_SEGMENT,
    EXECUTE_TASK_APPEND_FACT_TOPOLOGIES, EXECUTE_TASK_ASSERT_PROGRAM_ADDRESS,
    EXECUTE_TASK_CALL_TASK, EXECUTE_TASK_EXIT_SCOPE, EXECUTE_TASK_LOAD_PROGRAM,
    EXECUTE_TASK_VALIDATE_HASH_V0_13_0, EXECUTE_TASK_VALIDATE_HASH_V0_13_1,
    EXECUTE_TASK_WRITE_RETURN_BUILTINS, INNER_SELECT_BUILTINS_SELECT_BUILTIN,
    SELECT_BUILTINS_ENTER_SCOPE, SIMPLE_BOOTLOADER_DIVIDE_NUM_BY_2,
    SIMPLE_BOOTLOADER_PREPARE_TASK_RANGE_CHECKS, SIMPLE_BOOTLOADER_SET_CURRENT_TASK,
    SIMPLE_BOOTLOADER_SET_TASKS_VARIABLE, SIMPLE_BOOTLOADER_ZERO_V0_13_0,
    SIMPLE_BOOTLOADER_ZERO_V0_13_1,
};
use cairo_vm::vm::vm_core::VirtualMachine;

fn all_hints() -> Vec<(&'static str, HintId)> {
    vec![
        (BOOTLOADER_RESTORE_BOOTLOADER_OUTPUT, HintId::RestoreBootloaderOutput),
        (BOOTLOADER_PREPARE_SIMPLE_BOOTLOADER_INPUT, HintId::PrepareSimpleBootloaderInput),
        (BOOTLOADER_LOAD_BOOTLOADER_CONFIG, HintId::LoadBootloaderConfig),
        (BOOTLOADER_ENTER_PACKED_OUTPUT_SCOPE, HintId::EnterPackedOutputScope),
        (BOOTLOADER_SAVE_OUTPUT_POINTER, HintId::SaveOutputPointer),
        (BOOTLOADER_SAVE_PACKED_OUTPUTS, HintId::SavePackedOutputs),
        (
            BOOTLOADER_GUESS_PRE_IMAGE_OF_SUBTASKS_OUTPUT_HASH,
            HintId::GuessPreImageOfSubtasksOutputHash,
        ),
        (
            BOOTLOADER_PREPARE_SIMPLE_BOOTLOADER_OUTPUT_SEGMENT,
            HintId::PrepareSimpleBootloaderOutputSegment,
        ),
        (BOOTLOADER_COMPUTE_FACT_TOPOLOGIES, HintId::ComputeAndConfigureFactTopologies),
        (BOOTLOADER_SET_PACKED_OUTPUT_TO_SUBTASKS, HintId::SetPackedOutputToSubtasks),
        (BOOTLOADER_IMPORT_PACKED_OUTPUT_SCHEMAS, HintId::ImportPackedOutputSchemas),
        (BOOTLOADER_IS_PLAIN_PACKED_OUTPUT, HintId::IsPlainPackedOutput),
        (BOOTLOADER_ASSERT_IS_COMPOSITE_PACKED_OUTPUT, HintId::AssertIsCompositePackedOutput),
        (SIMPLE_BOOTLOADER_PREPARE_TASK_RANGE_CHECKS, HintId::PrepareTaskRangeChecks),
        (SIMPLE_BOOTLOADER_SET_TASKS_VARIABLE, HintId::SetTasksVariable),
        (SIMPLE_BOOTLOADER_DIVIDE_NUM_BY_2, HintId::DivideNumBy2),
        (SIMPLE_BOOTLOADER_SET_CURRENT_TASK, HintId::SetCurrentTask),
        (SIMPLE_BOOTLOADER_ZERO_V0_13_0, HintId::SetApToZero),
        (SIMPLE_BOOTLOADER_ZERO_V0_13_1, HintId::SetApToZeroOrOne),
        (EXECUTE_TASK_ALLOCATE_PROGRAM_DATA_SEGMENT, HintId::AllocateProgramDataSegment),
        (EXECUTE_TASK_LOAD_PROGRAM, HintId::LoadProgram),
        (EXECUTE_TASK_VALIDATE_HASH_V0_13_0, HintId::ValidateHash),
        (EXECUTE_TASK_VALIDATE_HASH_V0_13_1, HintId::ValidateHash),
        (EXECUTE_TASK_ASSERT_PROGRAM_ADDRESS, HintId::AssertProgramAddress),
        (EXECUTE_TASK_CALL_TASK, HintId::CallTask),
        (EXECUTE_TASK_WRITE_RETURN_BUILTINS, HintId::WriteReturnBuiltins),
        (EXECUTE_TASK_APPEND_FACT_TOPOLOGIES, HintId::AppendFactTopologies),
        (EXECUTE_TASK_EXIT_SCOPE, HintId::ExitScope),
        (SELECT_BUILTINS_ENTER_SCOPE, HintId::SelectBuiltinsEnterScope),
        (INNER_SELECT_BUILTINS_SELECT_BUILTIN, HintId::SelectBuiltin),
    ]
}

#[test]
fn every_identifier_names_its_handler() {
    let hints = get_hints();
    let all = all_hints();
    assert_eq!(all.len(), 30);
    for (code, id) in &all {
        assert_eq!(hints.get(code), Some(*id));
    }
}

#[test]
fn the_identifiers_are_distinct() {
    let all = all_hints();
    for (i, (a, _)) in all.iter().enumerate() {
        for (b, _) in &all[i + 1..] {
            assert_ne!(a, b);
        }
    }
}

#[test]
fn identifiers_match_only_whole() {
    let hints = get_hints();
    assert_eq!(hints.get("execute_task_call_task"), Some(HintId::CallTask));
    assert_eq!(hints.get("execute_task_call"), None);
    assert_eq!(hints.get("execute_task_call_task "), None);
    assert_eq!(hints.get("execute_task_call_task_v2"), None);
    assert_eq!(hints.get("EXECUTE_TASK_CALL_TASK"), None);
    assert_eq!(hints.get(""), None);
}

#[test]
fn an_empty_table_knows_nothing() {
    let table = HintTable::new();
    assert_eq!(table.get("execute_task_call_task"), None);
    assert_eq!(table.get(""), None);
}

#[test]
fn a_later_entry_replaces_an_earlier_one() {
    let mut table = HintTable::new();
    table.insert("a", HintId::CallTask);
    table.insert("b", HintId::ExitScope);
    assert_eq!(table.get("a"), Some(HintId::CallTask));
    table.insert("a", HintId::LoadProgram);
    assert_eq!(table.get("a"), Some(HintId::LoadProgram));
    assert_eq!(table.get("b"), Some(HintId::ExitScope));
}

#[test]
fn merging_prefers_the_entries_merged_in() {
    let mut table = HintTable::new();
    table.insert("a", HintId::CallTask);
    table.insert("b", HintId::ExitScope);
    let mut other = HintTable::new();
    other.insert("b", HintId::LoadProgram);
    other.insert("c", HintId::SelectBuiltin);
    table.merge(&other);
    assert_eq!(table.get("a"), Some(HintId::CallTask));
    assert_eq!(table.get("b"), Some(HintId::LoadProgram));
    assert_eq!(table.get("c"), Some(HintId::SelectBuiltin));
    assert_eq!(table.get("d"), None);
}

#[test]
fn a_registered_identifier_goes_to_its_simple_handler() {
    let mut processor = BootloaderHintProcessor::new(vec![]);
    let mut vm = VirtualMachine::new(false, false);
    let data = HintData::Identified(String::from(EXECUTE_TASK_LOAD_PROGRAM));
    assert_eq!(
        processor.execute_hint_extensive(&mut vm, &data),
        Ok(Dispatch::Simple(HintId::LoadProgram))
    );
}

#[test]
fn an_unregistered_identifier_goes_to_the_builtin_library() {
    let mut processor = BootloaderHintProcessor::new(vec![]);
    let mut vm = VirtualMachine::new(false, false);
    let data = HintData::Identified(String::from("memory[ap] = 1"));
    assert_eq!(processor.execute_hint_extensive(&mut vm, &data), Ok(Dispatch::BuiltinLibrary));
    // A prefix of a registered identifier is not registered.
    let data = HintData::Identified(String::from("execute_task_load"));
    assert_eq!(processor.execute_hint_extensive(&mut vm, &data), Ok(Dispatch::BuiltinLibrary));
}

#[test]
fn the_simple_table_is_asked_before_the_extensive_one() {
    let mut processor = BootloaderHintProcessor::new(vec![]);
    let mut vm = VirtualMachine::new(false, false);
    let mut extensive = HintTable::new();
    extensive.insert("unrolled", HintId::SelectBuiltin);
    extensive.insert(EXECUTE_TASK_LOAD_PROGRAM, HintId::SelectBuiltin);
    processor.register_extensive(&extensive);
    let data = HintData::Identified(String::from("unrolled"));
    assert_eq!(
        processor.execute_hint_extensive(&mut vm, &data),
        Ok(Dispatch::Extensive(HintId::SelectBuiltin))
    );
    let data = HintData::Identified(String::from(EXECUTE_TASK_LOAD_PROGRAM));
    assert_eq!(
        processor.execute_hint_extensive(&mut vm, &data),
        Ok(Dispatch::Simple(HintId::LoadProgram))
    );
}

#[test]
fn registered_entries_are_found_afterwards() {
    let mut processor = BootloaderHintProcessor::new(vec![]);
    let mut vm = VirtualMachine::new(false, false);
    let mut more = HintTable::new();
    more.insert("sub_hint", HintId::DivideNumBy2);
    processor.register(&more);
    let data = HintData::Identified(String::from("sub_hint"));
    assert_eq!(
        processor.execute_hint_extensive(&mut vm, &data),
        Ok(Dispatch::Simple(HintId::DivideNumBy2))
    );
    let data = HintData::Identified(String::from(EXECUTE_TASK_CALL_TASK));
    assert_eq!(
        processor.execute_hint_extensive(&mut vm, &data),
        Ok(Dispatch::Simple(HintId::CallTask))
    );
}

#[test]
fn other_tagged_hints_go_to_the_alternate_encoding() {
    let mut processor = BootloaderHintProcessor::new(vec![]);
    let mut vm = VirtualMachine::new(false, false);
    let data = HintData::Tagged(TaggedHint::Core);
    assert_eq!(processor.execute_hint_extensive(&mut vm, &data), Ok(Dispatch::AlternateEncoding));
}

#[test]
fn unrecognized_data_is_an_unknown_hint() {
    let mut processor = BootloaderHintProcessor::new(vec![]);
    let mut vm = VirtualMachine::new(false, false);
    assert_eq!(
        processor.execute_hint_extensive(&mut vm, &HintData::Unrecognized),
        Err(BootloaderError::UnknownHint)
    );
}

#[test]
fn a_tagged_hint_of_the_library_is_handled_at_once() {
    let mut processor = BootloaderHintProcessor::new(vec![]);
    let mut vm = VirtualMachine::new(false, false);
    let data = HintData::Tagged(TaggedHint::External(ExternalHint::AddTrace {
        flag: Felt::from_u64(1),
    }));
    assert_eq!(processor.execute_hint_extensive(&mut vm, &data), Ok(Dispatch::Handled));
    assert_eq!(processor.external().panic_traceback().len(), 0);
    let data = HintData::Tagged(TaggedHint::External(ExternalHint::WriteRunParam {
        index: Felt::from_u64(0),
        dst: bootloader_core::address::Relocatable { segment_index: 1, offset: 0 },
    }));
    assert_eq!(
        processor.execute_hint_extensive(&mut vm, &data),
        Err(BootloaderError::IndexOutOfRange)
    );
}

#[test]
fn the_fallbacks_come_in_their_order() {
    assert_eq!(next_after_unknown(Dispatch::BuiltinLibrary), Ok(Dispatch::AlternateEncoding));
    assert_eq!(
        next_after_unknown(Dispatch::AlternateEncoding),
        Err(BootloaderError::UnknownHint)
    );
    assert_eq!(
        next_after_unknown(Dispatch::Simple(HintId::CallTask)),
        Err(BootloaderError::UnknownHint)
    );
    assert_eq!(
        next_after_unknown(Dispatch::Extensive(HintId::CallTask)),
        Err(BootloaderError::UnknownHint)
    );
    assert_eq!(next_after_unknown(Dispatch::Handled), Err(BootloaderError::UnknownHint));
}
