//! The registry of the bootloader's hints: each identifier, the handler it
//! names, and the table that maps the one to the other by exact match.

use vstd::prelude::*;

verus! {

pub const BOOTLOADER_RESTORE_BOOTLOADER_OUTPUT: &'static str =
    "bootloader_restore_bootloader_output";

pub const BOOTLOADER_PREPARE_SIMPLE_BOOTLOADER_INPUT: &'static str =
    "bootloader_prepare_simple_bootloader_input";

pub const BOOTLOADER_LOAD_BOOTLOADER_CONFIG: &'static str = "bootloader_load_bootloader_config";

pub const BOOTLOADER_ENTER_PACKED_OUTPUT_SCOPE: &'static str =
    "bootloader_enter_packed_output_scope";

pub const BOOTLOADER_SAVE_OUTPUT_POINTER: &'static str = "bootloader_save_output_pointer";

pub const BOOTLOADER_SAVE_PACKED_OUTPUTS: &'static str = "bootloader_save_packed_outputs";

pub const BOOTLOADER_GUESS_PRE_IMAGE_OF_SUBTASKS_OUTPUT_HASH: &'static str =
    "bootloader_guess_pre_image_of_subtasks_output_hash";

pub const BOOTLOADER_PREPARE_SIMPLE_BOOTLOADER_OUTPUT_SEGMENT: &'static str =
    "bootloader_prepare_simple_bootloader_output_segment";

pub const BOOTLOADER_COMPUTE_FACT_TOPOLOGIES: &'static str = "bootloader_compute_fact_topologies";

pub const BOOTLOADER_SET_PACKED_OUTPUT_TO_SUBTASKS: &'static str =
    "bootloader_set_packed_output_to_subtasks";

pub const BOOTLOADER_IMPORT_PACKED_OUTPUT_SCHEMAS: &'static str =
    "bootloader_import_packed_output_schemas";

pub const BOOTLOADER_IS_PLAIN_PACKED_OUTPUT: &'static str = "bootloader_is_plain_packed_output";

pub const BOOTLOADER_ASSERT_IS_COMPOSITE_PACKED_OUTPUT: &'static str =
    "bootloader_assert_is_composite_packed_output";

pub const SIMPLE_BOOTLOADER_PREPARE_TASK_RANGE_CHECKS: &'static str =
    "simple_bootloader_prepare_task_range_checks";

pub const SIMPLE_BOOTLOADER_SET_TASKS_VARIABLE: &'static str =
    "simple_bootloader_set_tasks_variable";

pub const SIMPLE_BOOTLOADER_DIVIDE_NUM_BY_2: &'static str = "simple_bootloader_divide_num_by_2";

pub const SIMPLE_BOOTLOADER_SET_CURRENT_TASK: &'static str = "simple_bootloader_set_current_task";

pub const SIMPLE_BOOTLOADER_ZERO_V0_13_0: &'static str = "simple_bootloader_zero_v0_13_0";

pub const SIMPLE_BOOTLOADER_ZERO_V0_13_1: &'static str = "simple_bootloader_zero_v0_13_1";

pub const EXECUTE_TASK_ALLOCATE_PROGRAM_DATA_SEGMENT: &'static str =
    "execute_task_allocate_program_data_segment";

pub const EXECUTE_TASK_LOAD_PROGRAM: &'static str = "execute_task_load_program";

pub const EXECUTE_TASK_VALIDATE_HASH_V0_13_0: &'static str = "execute_task_validate_hash_v0_13_0";

pub const EXECUTE_TASK_VALIDATE_HASH_V0_13_1: &'static str = "execute_task_validate_hash_v0_13_1";

pub const EXECUTE_TASK_ASSERT_PROGRAM_ADDRESS: &'static str = "execute_task_assert_program_address";

pub const EXECUTE_TASK_CALL_TASK: &'static str = "execute_task_call_task";

pub const EXECUTE_TASK_WRITE_RETURN_BUILTINS: &'static str = "execute_task_write_return_builtins";

pub const EXECUTE_TASK_APPEND_FACT_TOPOLOGIES: &'static str = "execute_task_append_fact_topologies";

pub const EXECUTE_TASK_EXIT_SCOPE: &'static str = "execute_task_exit_scope";

pub const SELECT_BUILTINS_ENTER_SCOPE: &'static str = "select_builtins_enter_scope";

pub const INNER_SELECT_BUILTINS_SELECT_BUILTIN: &'static str =
    "inner_select_builtins_select_builtin";

/// The handlers that a hint identifier can name.
#[derive(Clone, Copy, Debug, PartialEq, Eq, Structural, Hash)]
pub enum HintId {
    RestoreBootloaderOutput,
    PrepareSimpleBootloaderInput,
    LoadBootloaderConfig,
    EnterPackedOutputScope,
    SaveOutputPointer,
    SavePackedOutputs,
    GuessPreImageOfSubtasksOutputHash,
    PrepareSimpleBootloaderOutputSegment,
    ComputeAndConfigureFactTopologies,
    SetPackedOutputToSubtasks,
    ImportPackedOutputSchemas,
    IsPlainPackedOutput,
    AssertIsCompositePackedOutput,
    PrepareTaskRangeChecks,
    SetTasksVariable,
    DivideNumBy2,
    SetCurrentTask,
    SetApToZero,
    SetApToZeroOrOne,
    AllocateProgramDataSegment,
    LoadProgram,
    ValidateHash,
    AssertProgramAddress,
    CallTask,
    WriteReturnBuiltins,
    AppendFactTopologies,
    ExitScope,
    SelectBuiltinsEnterScope,
    SelectBuiltin,
}

/// The map that a list of entries stands for: each entry maps its identifier
/// to its handler, a later entry replacing an earlier one for the same
/// identifier.
pub open spec fn entries_map(entries: Seq<(String, HintId)>) -> Map<Seq<char>, HintId>
    decreases entries.len(),
{
    if entries.len() == 0 {
        Map::empty()
    } else {
        entries_map(entries.drop_last()).insert(entries.last().0@, entries.last().1)
    }
}

/// A table from hint identifiers to handlers. An identifier is found only
/// by matching it whole.
pub struct HintTable {
    entries: Vec<(String, HintId)>,
}

impl View for HintTable {
    type V = Map<Seq<char>, HintId>;

    closed spec fn view(&self) -> Map<Seq<char>, HintId> {
        entries_map(self.entries@)
    }
}

impl HintTable {
    /// The table with no entry.
    pub fn new() -> (r: Self)
        ensures
            r@ == Map::<Seq<char>, HintId>::empty(),
    {
        HintTable { entries: Vec::new() }
    }

    /// Maps `code` to `id`, replacing what `code` was mapped to before.
    pub fn insert(&mut self, code: &str, id: HintId)
        ensures
            final(self)@ == old(self)@.insert(code@, id),
    {
        let owned = code.to_owned();
        proof {
            assert(self.entries@.push((owned, id)).drop_last() =~= self.entries@);
        }
        self.entries.push((owned, id));
    }

    /// The handler that `code` names, if it names one.
    pub fn get(&self, code: &str) -> (r: Option<HintId>)
        ensures
            r == (if self@.contains_key(code@) {
                Some(self@[code@])
            } else {
                None
            }),
    {
        let wanted = code.to_owned();
        let mut k: usize = self.entries.len();
        proof {
            assert(self.entries@.take(k as int) =~= self.entries@);
        }
        while k > 0
            invariant
                k <= self.entries.len(),
                wanted@ == code@,
                self@.contains_key(code@) == entries_map(self.entries@.take(k as int)).contains_key(
                    code@,
                ),
                self@.contains_key(code@) ==> self@[code@] == entries_map(
                    self.entries@.take(k as int),
                )[code@],
            decreases k,
        {
            k -= 1;
            proof {
                assert(self.entries@.take(k + 1).drop_last() =~= self.entries@.take(k as int));
            }
            if self.entries[k].0 == wanted {
                return Some(self.entries[k].1);
            }
        }
        None
    }

    /// Adds every entry of `other`, each replacing what its identifier was
    /// mapped to before.
    pub fn merge(&mut self, other: &HintTable)
        ensures
            final(self)@ == old(self)@.union_prefer_right(other@),
    {
        let mut i: usize = 0;
        proof {
            assert(other.entries@.take(0) =~= Seq::<(String, HintId)>::empty());
            assert(self@.union_prefer_right(Map::<Seq<char>, HintId>::empty()) =~= self@);
        }
        while i < other.entries.len()
            invariant
                i <= other.entries.len(),
                self@ == old(self)@.union_prefer_right(
                    entries_map(other.entries@.take(i as int)),
                ),
            decreases other.entries.len() - i,
        {
            let ghost before = self@;
            let ghost part = entries_map(other.entries@.take(i as int));
            proof {
                assert(other.entries@.take(i + 1).drop_last() =~= other.entries@.take(i as int));
            }
            self.insert(other.entries[i].0.as_str(), other.entries[i].1);
            proof {
                assert(old(self)@.union_prefer_right(part).insert(
                    other.entries@[i as int].0@,
                    other.entries@[i as int].1,
                ) =~= old(self)@.union_prefer_right(
                    part.insert(other.entries@[i as int].0@, other.entries@[i as int].1),
                ));
            }
            i += 1;
        }
        proof {
            assert(other.entries@.take(i as int) =~= other.entries@);
        }
    }
}

/// The map from each identifier of the bootloader to its handler. Two
/// identifiers name the hash validation, one for each version of the
/// bootloader that has it.
pub open spec fn hint_map() -> Map<Seq<char>, HintId> {
    Map::<Seq<char>, HintId>::empty().insert(
        BOOTLOADER_RESTORE_BOOTLOADER_OUTPUT@,
        HintId::RestoreBootloaderOutput,
    ).insert(
        BOOTLOADER_PREPARE_SIMPLE_BOOTLOADER_INPUT@,
        HintId::PrepareSimpleBootloaderInput,
    ).insert(BOOTLOADER_LOAD_BOOTLOADER_CONFIG@, HintId::LoadBootloaderConfig).insert(
        BOOTLOADER_ENTER_PACKED_OUTPUT_SCOPE@,
        HintId::EnterPackedOutputScope,
    ).insert(BOOTLOADER_SAVE_OUTPUT_POINTER@, HintId::SaveOutputPointer).insert(
        BOOTLOADER_SAVE_PACKED_OUTPUTS@,
        HintId::SavePackedOutputs,
    ).insert(
        BOOTLOADER_GUESS_PRE_IMAGE_OF_SUBTASKS_OUTPUT_HASH@,
        HintId::GuessPreImageOfSubtasksOutputHash,
    ).insert(
        BOOTLOADER_PREPARE_SIMPLE_BOOTLOADER_OUTPUT_SEGMENT@,
        HintId::PrepareSimpleBootloaderOutputSegment,
    ).insert(
        BOOTLOADER_COMPUTE_FACT_TOPOLOGIES@,
        HintId::ComputeAndConfigureFactTopologies,
    ).insert(
        BOOTLOADER_SET_PACKED_OUTPUT_TO_SUBTASKS@,
        HintId::SetPackedOutputToSubtasks,
    ).insert(
        BOOTLOADER_IMPORT_PACKED_OUTPUT_SCHEMAS@,
        HintId::ImportPackedOutputSchemas,
    ).insert(BOOTLOADER_IS_PLAIN_PACKED_OUTPUT@, HintId::IsPlainPackedOutput).insert(
        BOOTLOADER_ASSERT_IS_COMPOSITE_PACKED_OUTPUT@,
        HintId::AssertIsCompositePackedOutput,
    ).insert(
        SIMPLE_BOOTLOADER_PREPARE_TASK_RANGE_CHECKS@,
        HintId::PrepareTaskRangeChecks,
    ).insert(SIMPLE_BOOTLOADER_SET_TASKS_VARIABLE@, HintId::SetTasksVariable).insert(
        SIMPLE_BOOTLOADER_DIVIDE_NUM_BY_2@,
        HintId::DivideNumBy2,
    ).insert(SIMPLE_BOOTLOADER_SET_CURRENT_TASK@, HintId::SetCurrentTask).insert(
        SIMPLE_BOOTLOADER_ZERO_V0_13_0@,
        HintId::SetApToZero,
    ).insert(SIMPLE_BOOTLOADER_ZERO_V0_13_1@, HintId::SetApToZeroOrOne).insert(
        EXECUTE_TASK_ALLOCATE_PROGRAM_DATA_SEGMENT@,
        HintId::AllocateProgramDataSegment,
    ).insert(EXECUTE_TASK_LOAD_PROGRAM@, HintId::LoadProgram).insert(
        EXECUTE_TASK_VALIDATE_HASH_V0_13_0@,
        HintId::ValidateHash,
    ).insert(EXECUTE_TASK_VALIDATE_HASH_V0_13_1@, HintId::ValidateHash).insert(
        EXECUTE_TASK_ASSERT_PROGRAM_ADDRESS@,
        HintId::AssertProgramAddress,
    ).insert(EXECUTE_TASK_CALL_TASK@, HintId::CallTask).insert(
        EXECUTE_TASK_WRITE_RETURN_BUILTINS@,
        HintId::WriteReturnBuiltins,
    ).insert(EXECUTE_TASK_APPEND_FACT_TOPOLOGIES@, HintId::AppendFactTopologies).insert(
        EXECUTE_TASK_EXIT_SCOPE@,
        HintId::ExitScope,
    ).insert(SELECT_BUILTINS_ENTER_SCOPE@, HintId::SelectBuiltinsEnterScope).insert(
        INNER_SELECT_BUILTINS_SELECT_BUILTIN@,
        HintId::SelectBuiltin,
    )
}

/// The length of an identifier and its last two characters.
spec fn ending(code: Seq<char>) -> (nat, char, char) {
    (code.len(), code[code.len() - 1], code[code.len() - 2])
}

/// No two identifiers of the bootloader end alike and have the same length.
proof fn lemma_endings()
    ensures
        ending(BOOTLOADER_RESTORE_BOOTLOADER_OUTPUT@) == (36nat, 't', 'u'),
        ending(BOOTLOADER_PREPARE_SIMPLE_BOOTLOADER_INPUT@) == (42nat, 't', 'u'),
        ending(BOOTLOADER_LOAD_BOOTLOADER_CONFIG@) == (33nat, 'g', 'i'),
        ending(BOOTLOADER_ENTER_PACKED_OUTPUT_SCOPE@) == (36nat, 'e', 'p'),
        ending(BOOTLOADER_SAVE_OUTPUT_POINTER@) == (30nat, 'r', 'e'),
        ending(BOOTLOADER_SAVE_PACKED_OUTPUTS@) == (30nat, 's', 't'),
        ending(BOOTLOADER_GUESS_PRE_IMAGE_OF_SUBTASKS_OUTPUT_HASH@) == (50nat, 'h', 's'),
        ending(BOOTLOADER_PREPARE_SIMPLE_BOOTLOADER_OUTPUT_SEGMENT@) == (51nat, 't', 'n'),
        ending(BOOTLOADER_COMPUTE_FACT_TOPOLOGIES@) == (34nat, 's', 'e'),
        ending(BOOTLOADER_SET_PACKED_OUTPUT_TO_SUBTASKS@) == (40nat, 's', 'k'),
        ending(BOOTLOADER_IMPORT_PACKED_OUTPUT_SCHEMAS@) == (39nat, 's', 'a'),
        ending(BOOTLOADER_IS_PLAIN_PACKED_OUTPUT@) == (33nat, 't', 'u'),
        ending(BOOTLOADER_ASSERT_IS_COMPOSITE_PACKED_OUTPUT@) == (44nat, 't', 'u'),
        ending(SIMPLE_BOOTLOADER_PREPARE_TASK_RANGE_CHECKS@) == (43nat, 's', 'k'),
        ending(SIMPLE_BOOTLOADER_SET_TASKS_VARIABLE@) == (36nat, 'e', 'l'),
        ending(SIMPLE_BOOTLOADER_DIVIDE_NUM_BY_2@) == (33nat, '2', '_'),
        ending(SIMPLE_BOOTLOADER_SET_CURRENT_TASK@) == (34nat, 'k', 's'),
        ending(SIMPLE_BOOTLOADER_ZERO_V0_13_0@) == (30nat, '0', '_'),
        ending(SIMPLE_BOOTLOADER_ZERO_V0_13_1@) == (30nat, '1', '_'),
        ending(EXECUTE_TASK_ALLOCATE_PROGRAM_DATA_SEGMENT@) == (42nat, 't', 'n'),
        ending(EXECUTE_TASK_LOAD_PROGRAM@) == (25nat, 'm', 'a'),
        ending(EXECUTE_TASK_VALIDATE_HASH_V0_13_0@) == (34nat, '0', '_'),
        ending(EXECUTE_TASK_VALIDATE_HASH_V0_13_1@) == (34nat, '1', '_'),
        ending(EXECUTE_TASK_ASSERT_PROGRAM_ADDRESS@) == (35nat, 's', 's'),
        ending(EXECUTE_TASK_CALL_TASK@) == (22nat, 'k', 's'),
        ending(EXECUTE_TASK_WRITE_RETURN_BUILTINS@) == (34nat, 's', 'n'),
        ending(EXECUTE_TASK_APPEND_FACT_TOPOLOGIES@) == (35nat, 's', 'e'),
        ending(EXECUTE_TASK_EXIT_SCOPE@) == (23nat, 'e', 'p'),
        ending(SELECT_BUILTINS_ENTER_SCOPE@) == (27nat, 'e', 'p'),
        ending(INNER_SELECT_BUILTINS_SELECT_BUILTIN@) == (36nat, 'n', 'i'),
{
    assert(ending(BOOTLOADER_RESTORE_BOOTLOADER_OUTPUT@) == (36nat, 't', 'u')) by {
        reveal_strlit("bootloader_restore_bootloader_output");
    }
    assert(ending(BOOTLOADER_PREPARE_SIMPLE_BOOTLOADER_INPUT@) == (42nat, 't', 'u')) by {
        reveal_strlit("bootloader_prepare_simple_bootloader_input");
    }
    assert(ending(BOOTLOADER_LOAD_BOOTLOADER_CONFIG@) == (33nat, 'g', 'i')) by {
        reveal_strlit("bootloader_load_bootloader_config");
    }
    assert(ending(BOOTLOADER_ENTER_PACKED_OUTPUT_SCOPE@) == (36nat, 'e', 'p')) by {
        reveal_strlit("bootloader_enter_packed_output_scope");
    }
    assert(ending(BOOTLOADER_SAVE_OUTPUT_POINTER@) == (30nat, 'r', 'e')) by {
        reveal_strlit("bootloader_save_output_pointer");
    }
    assert(ending(BOOTLOADER_SAVE_PACKED_OUTPUTS@) == (30nat, 's', 't')) by {
        reveal_strlit("bootloader_save_packed_outputs");
    }
    assert(ending(BOOTLOADER_GUESS_PRE_IMAGE_OF_SUBTASKS_OUTPUT_HASH@) == (50nat, 'h', 's')) by {
        reveal_strlit("bootloader_guess_pre_image_of_subtasks_output_hash");
    }
    assert(ending(BOOTLOADER_PREPARE_SIMPLE_BOOTLOADER_OUTPUT_SEGMENT@) == (51nat, 't', 'n')) by {
        reveal_strlit("bootloader_prepare_simple_bootloader_output_segment");
    }
    assert(ending(BOOTLOADER_COMPUTE_FACT_TOPOLOGIES@) == (34nat, 's', 'e')) by {
        reveal_strlit("bootloader_compute_fact_topologies");
    }
    assert(ending(BOOTLOADER_SET_PACKED_OUTPUT_TO_SUBTASKS@) == (40nat, 's', 'k')) by {
        reveal_strlit("bootloader_set_packed_output_to_subtasks");
    }
    assert(ending(BOOTLOADER_IMPORT_PACKED_OUTPUT_SCHEMAS@) == (39nat, 's', 'a')) by {
        reveal_strlit("bootloader_import_packed_output_schemas");
    }
    assert(ending(BOOTLOADER_IS_PLAIN_PACKED_OUTPUT@) == (33nat, 't', 'u')) by {
        reveal_strlit("bootloader_is_plain_packed_output");
    }
    assert(ending(BOOTLOADER_ASSERT_IS_COMPOSITE_PACKED_OUTPUT@) == (44nat, 't', 'u')) by {
        reveal_strlit("bootloader_assert_is_composite_packed_output");
    }
    assert(ending(SIMPLE_BOOTLOADER_PREPARE_TASK_RANGE_CHECKS@) == (43nat, 's', 'k')) by {
        reveal_strlit("simple_bootloader_prepare_task_range_checks");
    }
    assert(ending(SIMPLE_BOOTLOADER_SET_TASKS_VARIABLE@) == (36nat, 'e', 'l')) by {
        reveal_strlit("simple_bootloader_set_tasks_variable");
    }
    assert(ending(SIMPLE_BOOTLOADER_DIVIDE_NUM_BY_2@) == (33nat, '2', '_')) by {
        reveal_strlit("simple_bootloader_divide_num_by_2");
    }
    assert(ending(SIMPLE_BOOTLOADER_SET_CURRENT_TASK@) == (34nat, 'k', 's')) by {
        reveal_strlit("simple_bootloader_set_current_task");
    }
    assert(ending(SIMPLE_BOOTLOADER_ZERO_V0_13_0@) == (30nat, '0', '_')) by {
        reveal_strlit("simple_bootloader_zero_v0_13_0");
    }
    assert(ending(SIMPLE_BOOTLOADER_ZERO_V0_13_1@) == (30nat, '1', '_')) by {
        reveal_strlit("simple_bootloader_zero_v0_13_1");
    }
    assert(ending(EXECUTE_TASK_ALLOCATE_PROGRAM_DATA_SEGMENT@) == (42nat, 't', 'n')) by {
        reveal_strlit("execute_task_allocate_program_data_segment");
    }
    assert(ending(EXECUTE_TASK_LOAD_PROGRAM@) == (25nat, 'm', 'a')) by {
        reveal_strlit("execute_task_load_program");
    }
    assert(ending(EXECUTE_TASK_VALIDATE_HASH_V0_13_0@) == (34nat, '0', '_')) by {
        reveal_strlit("execute_task_validate_hash_v0_13_0");
    }
    assert(ending(EXECUTE_TASK_VALIDATE_HASH_V0_13_1@) == (34nat, '1', '_')) by {
        reveal_strlit("execute_task_validate_hash_v0_13_1");
    }
    assert(ending(EXECUTE_TASK_ASSERT_PROGRAM_ADDRESS@) == (35nat, 's', 's')) by {
        reveal_strlit("execute_task_assert_program_address");
    }
    assert(ending(EXECUTE_TASK_CALL_TASK@) == (22nat, 'k', 's')) by {
        reveal_strlit("execute_task_call_task");
    }
    assert(ending(EXECUTE_TASK_WRITE_RETURN_BUILTINS@) == (34nat, 's', 'n')) by {
        reveal_strlit("execute_task_write_return_builtins");
    }
    assert(ending(EXECUTE_TASK_APPEND_FACT_TOPOLOGIES@) == (35nat, 's', 'e')) by {
        reveal_strlit("execute_task_append_fact_topologies");
    }
    assert(ending(EXECUTE_TASK_EXIT_SCOPE@) == (23nat, 'e', 'p')) by {
        reveal_strlit("execute_task_exit_scope");
    }
    assert(ending(SELECT_BUILTINS_ENTER_SCOPE@) == (27nat, 'e', 'p')) by {
        reveal_strlit("select_builtins_enter_scope");
    }
    assert(ending(INNER_SELECT_BUILTINS_SELECT_BUILTIN@) == (36nat, 'n', 'i')) by {
        reveal_strlit("inner_select_builtins_select_builtin");
    }
}

/// Every identifier of the bootloader finds its own handler: no two of the
/// identifiers are the same.
pub proof fn lemma_hint_map_lookups()
    ensures
        hint_map().contains_key(BOOTLOADER_RESTORE_BOOTLOADER_OUTPUT@),
        hint_map()[BOOTLOADER_RESTORE_BOOTLOADER_OUTPUT@] == HintId::RestoreBootloaderOutput,
        hint_map().contains_key(BOOTLOADER_PREPARE_SIMPLE_BOOTLOADER_INPUT@),
        hint_map()[BOOTLOADER_PREPARE_SIMPLE_BOOTLOADER_INPUT@]
            == HintId::PrepareSimpleBootloaderInput,
        hint_map().contains_key(BOOTLOADER_LOAD_BOOTLOADER_CONFIG@),
        hint_map()[BOOTLOADER_LOAD_BOOTLOADER_CONFIG@] == HintId::LoadBootloaderConfig,
        hint_map().contains_key(BOOTLOADER_ENTER_PACKED_OUTPUT_SCOPE@),
        hint_map()[BOOTLOADER_ENTER_PACKED_OUTPUT_SCOPE@] == HintId::EnterPackedOutputScope,
        hint_map().contains_key(BOOTLOADER_SAVE_OUTPUT_POINTER@),
        hint_map()[BOOTLOADER_SAVE_OUTPUT_POINTER@] == HintId::SaveOutputPointer,
        hint_map().contains_key(BOOTLOADER_SAVE_PACKED_OUTPUTS@),
        hint_map()[BOOTLOADER_SAVE_PACKED_OUTPUTS@] == HintId::SavePackedOutputs,
        hint_map().contains_key(BOOTLOADER_GUESS_PRE_IMAGE_OF_SUBTASKS_OUTPUT_HASH@),
        hint_map()[BOOTLOADER_GUESS_PRE_IMAGE_OF_SUBTASKS_OUTPUT_HASH@]
            == HintId::GuessPreImageOfSubtasksOutputHash,
        hint_map().contains_key(BOOTLOADER_PREPARE_SIMPLE_BOOTLOADER_OUTPUT_SEGMENT@),
        hint_map()[BOOTLOADER_PREPARE_SIMPLE_BOOTLOADER_OUTPUT_SEGMENT@]
            == HintId::PrepareSimpleBootloaderOutputSegment,
        hint_map().contains_key(BOOTLOADER_COMPUTE_FACT_TOPOLOGIES@),
        hint_map()[BOOTLOADER_COMPUTE_FACT_TOPOLOGIES@]
            == HintId::ComputeAndConfigureFactTopologies,
        hint_map().contains_key(BOOTLOADER_SET_PACKED_OUTPUT_TO_SUBTASKS@),
        hint_map()[BOOTLOADER_SET_PACKED_OUTPUT_TO_SUBTASKS@] == HintId::SetPackedOutputToSubtasks,
        hint_map().contains_key(BOOTLOADER_IMPORT_PACKED_OUTPUT_SCHEMAS@),
        hint_map()[BOOTLOADER_IMPORT_PACKED_OUTPUT_SCHEMAS@] == HintId::ImportPackedOutputSchemas,
        hint_map().contains_key(BOOTLOADER_IS_PLAIN_PACKED_OUTPUT@),
        hint_map()[BOOTLOADER_IS_PLAIN_PACKED_OUTPUT@] == HintId::IsPlainPackedOutput,
        hint_map().contains_key(BOOTLOADER_ASSERT_IS_COMPOSITE_PACKED_OUTPUT@),
        hint_map()[BOOTLOADER_ASSERT_IS_COMPOSITE_PACKED_OUTPUT@]
            == HintId::AssertIsCompositePackedOutput,
        hint_map().contains_key(SIMPLE_BOOTLOADER_PREPARE_TASK_RANGE_CHECKS@),
        hint_map()[SIMPLE_BOOTLOADER_PREPARE_TASK_RANGE_CHECKS@] == HintId::PrepareTaskRangeChecks,
        hint_map().contains_key(SIMPLE_BOOTLOADER_SET_TASKS_VARIABLE@),
        hint_map()[SIMPLE_BOOTLOADER_SET_TASKS_VARIABLE@] == HintId::SetTasksVariable,
        hint_map().contains_key(SIMPLE_BOOTLOADER_DIVIDE_NUM_BY_2@),
        hint_map()[SIMPLE_BOOTLOADER_DIVIDE_NUM_BY_2@] == HintId::DivideNumBy2,
        hint_map().contains_key(SIMPLE_BOOTLOADER_SET_CURRENT_TASK@),
        hint_map()[SIMPLE_BOOTLOADER_SET_CURRENT_TASK@] == HintId::SetCurrentTask,
        hint_map().contains_key(SIMPLE_BOOTLOADER_ZERO_V0_13_0@),
        hint_map()[SIMPLE_BOOTLOADER_ZERO_V0_13_0@] == HintId::SetApToZero,
        hint_map().contains_key(SIMPLE_BOOTLOADER_ZERO_V0_13_1@),
        hint_map()[SIMPLE_BOOTLOADER_ZERO_V0_13_1@] == HintId::SetApToZeroOrOne,
        hint_map().contains_key(EXECUTE_TASK_ALLOCATE_PROGRAM_DATA_SEGMENT@),
        hint_map()[EXECUTE_TASK_ALLOCATE_PROGRAM_DATA_SEGMENT@]
            == HintId::AllocateProgramDataSegment,
        hint_map().contains_key(EXECUTE_TASK_LOAD_PROGRAM@),
        hint_map()[EXECUTE_TASK_LOAD_PROGRAM@] == HintId::LoadProgram,
        hint_map().contains_key(EXECUTE_TASK_VALIDATE_HASH_V0_13_0@),
        hint_map()[EXECUTE_TASK_VALIDATE_HASH_V0_13_0@] == HintId::ValidateHash,
        hint_map().contains_key(EXECUTE_TASK_VALIDATE_HASH_V0_13_1@),
        hint_map()[EXECUTE_TASK_VALIDATE_HASH_V0_13_1@] == HintId::ValidateHash,
        hint_map().contains_key(EXECUTE_TASK_ASSERT_PROGRAM_ADDRESS@),
        hint_map()[EXECUTE_TASK_ASSERT_PROGRAM_ADDRESS@] == HintId::AssertProgramAddress,
        hint_map().contains_key(EXECUTE_TASK_CALL_TASK@),
        hint_map()[EXECUTE_TASK_CALL_TASK@] == HintId::CallTask,
        hint_map().contains_key(EXECUTE_TASK_WRITE_RETURN_BUILTINS@),
        hint_map()[EXECUTE_TASK_WRITE_RETURN_BUILTINS@] == HintId::WriteReturnBuiltins,
        hint_map().contains_key(EXECUTE_TASK_APPEND_FACT_TOPOLOGIES@),
        hint_map()[EXECUTE_TASK_APPEND_FACT_TOPOLOGIES@] == HintId::AppendFactTopologies,
        hint_map().contains_key(EXECUTE_TASK_EXIT_SCOPE@),
        hint_map()[EXECUTE_TASK_EXIT_SCOPE@] == HintId::ExitScope,
        hint_map().contains_key(SELECT_BUILTINS_ENTER_SCOPE@),
        hint_map()[SELECT_BUILTINS_ENTER_SCOPE@] == HintId::SelectBuiltinsEnterScope,
        hint_map().contains_key(INNER_SELECT_BUILTINS_SELECT_BUILTIN@),
        hint_map()[INNER_SELECT_BUILTINS_SELECT_BUILTIN@] == HintId::SelectBuiltin,
{
    lemma_endings();
}

/// The table of the bootloader's hints.
pub fn get_hints() -> (hints: HintTable)
    ensures
        hints@ == hint_map(),
{
    let mut hints = HintTable::new();
    hints.insert(BOOTLOADER_RESTORE_BOOTLOADER_OUTPUT, HintId::RestoreBootloaderOutput);
    hints.insert(BOOTLOADER_PREPARE_SIMPLE_BOOTLOADER_INPUT, HintId::PrepareSimpleBootloaderInput);
    hints.insert(BOOTLOADER_LOAD_BOOTLOADER_CONFIG, HintId::LoadBootloaderConfig);
    hints.insert(BOOTLOADER_ENTER_PACKED_OUTPUT_SCOPE, HintId::EnterPackedOutputScope);
    hints.insert(BOOTLOADER_SAVE_OUTPUT_POINTER, HintId::SaveOutputPointer);
    hints.insert(BOOTLOADER_SAVE_PACKED_OUTPUTS, HintId::SavePackedOutputs);
    hints.insert(
        BOOTLOADER_GUESS_PRE_IMAGE_OF_SUBTASKS_OUTPUT_HASH,
        HintId::GuessPreImageOfSubtasksOutputHash,
    );
    hints.insert(
        BOOTLOADER_PREPARE_SIMPLE_BOOTLOADER_OUTPUT_SEGMENT,
        HintId::PrepareSimpleBootloaderOutputSegment,
    );
    hints.insert(BOOTLOADER_COMPUTE_FACT_TOPOLOGIES, HintId::ComputeAndConfigureFactTopologies);
    hints.insert(BOOTLOADER_SET_PACKED_OUTPUT_TO_SUBTASKS, HintId::SetPackedOutputToSubtasks);
    hints.insert(BOOTLOADER_IMPORT_PACKED_OUTPUT_SCHEMAS, HintId::ImportPackedOutputSchemas);
    hints.insert(BOOTLOADER_IS_PLAIN_PACKED_OUTPUT, HintId::IsPlainPackedOutput);
    hints.insert(
        BOOTLOADER_ASSERT_IS_COMPOSITE_PACKED_OUTPUT,
        HintId::AssertIsCompositePackedOutput,
    );
    hints.insert(SIMPLE_BOOTLOADER_PREPARE_TASK_RANGE_CHECKS, HintId::PrepareTaskRangeChecks);
    hints.insert(SIMPLE_BOOTLOADER_SET_TASKS_VARIABLE, HintId::SetTasksVariable);
    hints.insert(SIMPLE_BOOTLOADER_DIVIDE_NUM_BY_2, HintId::DivideNumBy2);
    hints.insert(SIMPLE_BOOTLOADER_SET_CURRENT_TASK, HintId::SetCurrentTask);
    hints.insert(SIMPLE_BOOTLOADER_ZERO_V0_13_0, HintId::SetApToZero);
    hints.insert(SIMPLE_BOOTLOADER_ZERO_V0_13_1, HintId::SetApToZeroOrOne);
    hints.insert(EXECUTE_TASK_ALLOCATE_PROGRAM_DATA_SEGMENT, HintId::AllocateProgramDataSegment);
    hints.insert(EXECUTE_TASK_LOAD_PROGRAM, HintId::LoadProgram);
    hints.insert(EXECUTE_TASK_VALIDATE_HASH_V0_13_0, HintId::ValidateHash);
    hints.insert(EXECUTE_TASK_VALIDATE_HASH_V0_13_1, HintId::ValidateHash);
    hints.insert(EXECUTE_TASK_ASSERT_PROGRAM_ADDRESS, HintId::AssertProgramAddress);
    hints.insert(EXECUTE_TASK_CALL_TASK, HintId::CallTask);
    hints.insert(EXECUTE_TASK_WRITE_RETURN_BUILTINS, HintId::WriteReturnBuiltins);
    hints.insert(EXECUTE_TASK_APPEND_FACT_TOPOLOGIES, HintId::AppendFactTopologies);
    hints.insert(EXECUTE_TASK_EXIT_SCOPE, HintId::ExitScope);
    hints.insert(SELECT_BUILTINS_ENTER_SCOPE, HintId::SelectBuiltinsEnterScope);
    hints.insert(INNER_SELECT_BUILTINS_SELECT_BUILTIN, HintId::SelectBuiltin);
    hints
}

} // verus!
