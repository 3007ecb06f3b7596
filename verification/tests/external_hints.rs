use bootloader_core::address::Relocatable;
use bootloader_core::error::BootloaderError;
use bootloader_core::external_hints::{
    capture_panic_trace, reversed, write_args, Arg, ExternalHint, ExternalHintProcessor,
    MAX_TRACEBACK_DEPTH, PANIC_FLAG,
};
use bootloader_core::felt::Felt;
use cairo_vm::types::relocatable::{MaybeRelocatable, Relocatable as VmRelocatable};
use cairo_vm::vm::vm_core::VirtualMachine;
use cairo_vm::Felt252;

const CALL_REL: u64 = 0x1104800180018000;

fn at(segment_index: isize, offset: usize) -> Relocatable {
    Relocatable { segment_index, offset }
}

fn vm_at(segment_index: isize, offset: usize) -> VmRelocatable {
    VmRelocatable::from((segment_index, offset))
}

fn value(x: u64) -> Arg {
    Arg::Value(Felt::from_u64(x))
}

fn args_size(args: &Vec<Arg>) -> Option<usize> {
    ExternalHintProcessor::args_size(args)
}

fn read_felts(
    vm: &VirtualMachine,
    start: Relocatable,
    end: Relocatable,
) -> Result<Vec<Felt>, BootloaderError> {
    ExternalHintProcessor::read_felts(vm, start, end)
}

fn vm_with_segments(n: usize) -> VirtualMachine {
    let mut vm = VirtualMachine::new(false, false);
    for _ in 0..n {
        vm.add_memory_segment();
    }
    vm
}

fn int_at(vm: &VirtualMachine, segment_index: isize, offset: usize) -> Option<Felt252> {
    match vm.get_maybe(&vm_at(segment_index, offset)) {
        Some(MaybeRelocatable::Int(x)) => Some(x),
        _ => None,
    }
}

fn ptr_at(vm: &VirtualMachine, segment_index: isize, offset: usize) -> Option<(isize, usize)> {
    match vm.get_maybe(&vm_at(segment_index, offset)) {
        Some(MaybeRelocatable::RelocatableValue(p)) => Some((p.segment_index, p.offset)),
        _ => None,
    }
}

/// A machine whose stack holds three frames, the innermost at fp = 10.
fn vm_with_three_frames() -> VirtualMachine {
    let mut vm = vm_with_segments(2);
    // The program: two calls, each an instruction and its immediate.
    vm.insert_value(vm_at(0, 4), Felt252::from(CALL_REL)).unwrap();
    vm.insert_value(vm_at(0, 5), Felt252::from(7u64)).unwrap();
    vm.insert_value(vm_at(0, 10), Felt252::from(CALL_REL)).unwrap();
    vm.insert_value(vm_at(0, 11), Felt252::from(9u64)).unwrap();
    // The outermost frame names itself as its caller.
    vm.insert_value(vm_at(1, 0), vm_at(1, 2)).unwrap();
    vm.insert_value(vm_at(1, 1), vm_at(0, 0)).unwrap();
    // The frame at fp = 5 was called from pc = 4 in the frame at fp = 2.
    vm.insert_value(vm_at(1, 3), vm_at(1, 2)).unwrap();
    vm.insert_value(vm_at(1, 4), vm_at(0, 6)).unwrap();
    // The frame at fp = 10 was called from pc = 10 in the frame at fp = 5.
    vm.insert_value(vm_at(1, 8), vm_at(1, 5)).unwrap();
    vm.insert_value(vm_at(1, 9), vm_at(0, 12)).unwrap();
    vm.set_fp(10);
    vm.set_pc(vm_at(0, 20));
    vm
}

#[test]
fn args_take_one_cell_or_two() {
    assert_eq!(value(3).size(), 1);
    assert_eq!(Arg::Array(vec![value(1), value(2), value(3)]).size(), 2);
    assert_eq!(Arg::Array(vec![]).size(), 2);
    assert_eq!(args_size(&vec![]), Some(0));
    assert_eq!(args_size(&vec![value(1), Arg::Array(vec![value(2)]), value(3)]), Some(4));
}

#[test]
fn arg_sizes_agree_with_the_runner() {
    let theirs = cairo_lang_runner::Arg::Array(vec![cairo_lang_runner::Arg::Value(
        Felt252::from(1u64),
    )]);
    assert_eq!(theirs.size(), Arg::Array(vec![value(1)]).size());
    let theirs = cairo_lang_runner::Arg::Value(Felt252::from(1u64));
    assert_eq!(theirs.size(), value(1).size());
}

#[test]
fn values_are_written_in_order() {
    let mut vm = vm_with_segments(2);
    let args = vec![value(10), value(20), value(30)];
    assert_eq!(write_args(&mut vm, at(1, 4), &args), Ok(()));
    assert_eq!(int_at(&vm, 1, 4), Some(Felt252::from(10u64)));
    assert_eq!(int_at(&vm, 1, 5), Some(Felt252::from(20u64)));
    assert_eq!(int_at(&vm, 1, 6), Some(Felt252::from(30u64)));
    assert_eq!(vm.get_maybe(&vm_at(1, 7)), None);
    assert_eq!(vm.get_maybe(&vm_at(1, 3)), None);
    assert_eq!(vm.segments.num_segments(), 2);
}

#[test]
fn large_values_are_written_whole() {
    let mut vm = vm_with_segments(1);
    let big = Felt::from_digits(1, 2, 3, 4).unwrap();
    assert_eq!(write_args(&mut vm, at(0, 0), &vec![Arg::Value(big)]), Ok(()));
    assert_eq!(int_at(&vm, 0, 0).map(|x| x.to_le_digits()), Some([1, 2, 3, 4]));
}

#[test]
fn an_array_gets_a_segment_and_two_pointers() {
    let mut vm = vm_with_segments(2);
    let args = vec![value(1), Arg::Array(vec![value(5), value(6), value(7)]), value(2)];
    assert_eq!(write_args(&mut vm, at(1, 0), &args), Ok(()));
    assert_eq!(vm.segments.num_segments(), 3);
    assert_eq!(int_at(&vm, 1, 0), Some(Felt252::from(1u64)));
    assert_eq!(ptr_at(&vm, 1, 1), Some((2, 0)));
    assert_eq!(ptr_at(&vm, 1, 2), Some((2, 3)));
    assert_eq!(int_at(&vm, 1, 3), Some(Felt252::from(2u64)));
    assert_eq!(int_at(&vm, 2, 0), Some(Felt252::from(5u64)));
    assert_eq!(int_at(&vm, 2, 1), Some(Felt252::from(6u64)));
    assert_eq!(int_at(&vm, 2, 2), Some(Felt252::from(7u64)));
    assert_eq!(vm.get_maybe(&vm_at(2, 3)), None);
}

#[test]
fn an_empty_array_is_an_empty_segment() {
    let mut vm = vm_with_segments(1);
    assert_eq!(write_args(&mut vm, at(0, 0), &vec![Arg::Array(vec![])]), Ok(()));
    assert_eq!(vm.segments.num_segments(), 2);
    assert_eq!(ptr_at(&vm, 0, 0), Some((1, 0)));
    assert_eq!(ptr_at(&vm, 0, 1), Some((1, 0)));
    assert_eq!(vm.get_maybe(&vm_at(1, 0)), None);
}

#[test]
fn nested_arrays_are_filled_last_first() {
    let mut vm = vm_with_segments(1);
    // Two arrays side by side, the first holding an array of its own.
    let args =
        vec![Arg::Array(vec![Arg::Array(vec![value(1)]), value(2)]), Arg::Array(vec![value(3)])];
    assert_eq!(write_args(&mut vm, at(0, 0), &args), Ok(()));
    assert_eq!(vm.segments.num_segments(), 4);
    // The arrays of the list get their segments as they are met.
    assert_eq!(ptr_at(&vm, 0, 0), Some((1, 0)));
    assert_eq!(ptr_at(&vm, 0, 1), Some((1, 3)));
    assert_eq!(ptr_at(&vm, 0, 2), Some((2, 0)));
    assert_eq!(ptr_at(&vm, 0, 3), Some((2, 1)));
    // The second is filled before the first, whose inner array comes last.
    assert_eq!(int_at(&vm, 2, 0), Some(Felt252::from(3u64)));
    assert_eq!(ptr_at(&vm, 1, 0), Some((3, 0)));
    assert_eq!(ptr_at(&vm, 1, 1), Some((3, 1)));
    assert_eq!(int_at(&vm, 1, 2), Some(Felt252::from(2u64)));
    assert_eq!(int_at(&vm, 3, 0), Some(Felt252::from(1u64)));
}

#[test]
fn no_args_write_nothing() {
    let mut vm = vm_with_segments(1);
    assert_eq!(write_args(&mut vm, at(0, 0), &vec![]), Ok(()));
    assert_eq!(vm.get_maybe(&vm_at(0, 0)), None);
    assert_eq!(vm.segments.num_segments(), 1);
}

#[test]
fn writing_over_another_value_is_refused() {
    let mut vm = vm_with_segments(1);
    vm.insert_value(vm_at(0, 1), Felt252::from(99u64)).unwrap();
    let args = vec![value(1), value(2)];
    assert_eq!(write_args(&mut vm, at(0, 0), &args), Err(BootloaderError::Memory));
    // What was there stays there.
    assert_eq!(int_at(&vm, 0, 1), Some(Felt252::from(99u64)));
}

#[test]
fn writing_the_same_value_again_is_accepted() {
    let mut vm = vm_with_segments(1);
    vm.insert_value(vm_at(0, 1), Felt252::from(2u64)).unwrap();
    assert_eq!(write_args(&mut vm, at(0, 0), &vec![value(1), value(2)]), Ok(()));
    assert_eq!(int_at(&vm, 0, 0), Some(Felt252::from(1u64)));
    assert_eq!(int_at(&vm, 0, 1), Some(Felt252::from(2u64)));
}

#[test]
fn writing_into_a_missing_segment_is_refused() {
    let mut vm = vm_with_segments(1);
    assert_eq!(write_args(&mut vm, at(5, 0), &vec![value(1)]), Err(BootloaderError::Memory));
    assert_eq!(write_args(&mut vm, at(1, 0), &vec![value(1)]), Err(BootloaderError::Memory));
    // The segment that a first array gets is there when the array's head is written.
    let array = vec![Arg::Array(vec![])];
    assert_eq!(write_args(&mut vm, at(2, 0), &array), Err(BootloaderError::Memory));
    assert_eq!(write_args(&mut vm, at(2, 0), &array), Ok(()));
    // An empty list is written even where nothing could be.
    assert_eq!(write_args(&mut vm, at(9, 0), &vec![]), Ok(()));
}

#[test]
fn felts_are_read_up_to_the_end() {
    let mut vm = vm_with_segments(1);
    for i in 0..5u64 {
        vm.insert_value(vm_at(0, i as usize), Felt252::from(100 + i)).unwrap();
    }
    assert_eq!(
        read_felts(&vm, at(0, 1), at(0, 4)),
        Ok(vec![Felt::from_u64(101), Felt::from_u64(102), Felt::from_u64(103)])
    );
    assert_eq!(read_felts(&vm, at(0, 2), at(0, 2)), Ok(vec![]));
    assert_eq!(read_felts(&vm, at(0, 0), at(0, 5)).map(|v| v.len()), Ok(5));
}

#[test]
fn reading_stops_at_a_cell_without_a_felt() {
    let mut vm = vm_with_segments(2);
    vm.insert_value(vm_at(0, 0), Felt252::from(1u64)).unwrap();
    vm.insert_value(vm_at(0, 1), vm_at(1, 0)).unwrap();
    vm.insert_value(vm_at(0, 2), Felt252::from(3u64)).unwrap();
    // A cell that holds an address.
    assert_eq!(read_felts(&vm, at(0, 0), at(0, 3)), Err(BootloaderError::Memory));
    // A cell that holds nothing.
    assert_eq!(read_felts(&vm, at(0, 2), at(0, 5)), Err(BootloaderError::Memory));
    // An end that lies before the start, or in another segment, is never met.
    assert_eq!(read_felts(&vm, at(0, 2), at(0, 0)), Err(BootloaderError::Memory));
    assert_eq!(read_felts(&vm, at(0, 0), at(1, 1)), Err(BootloaderError::Memory));
}

#[test]
fn pairs_are_reversed() {
    let pairs = vec![(at(0, 1), at(1, 1)), (at(0, 2), at(1, 2)), (at(0, 3), at(1, 3))];
    assert_eq!(
        reversed(&pairs),
        vec![(at(0, 3), at(1, 3)), (at(0, 2), at(1, 2)), (at(0, 1), at(1, 1))]
    );
    assert_eq!(reversed(&vec![]), vec![]);
}

#[test]
fn three_frames_give_three_pairs_outermost_first() {
    let vm = vm_with_three_frames();
    assert_eq!(
        capture_panic_trace(&vm),
        vec![(at(0, 4), at(1, 2)), (at(0, 10), at(1, 5)), (at(0, 20), at(1, 10))]
    );
}

#[test]
fn a_trace_hint_with_the_panic_flag_captures_the_traceback() {
    let mut vm = vm_with_three_frames();
    let mut processor = ExternalHintProcessor::new(vec![]);
    let hint = ExternalHint::AddTrace { flag: Felt::from_u64(PANIC_FLAG) };
    assert_eq!(processor.execute_external_hint(&mut vm, &hint), Ok(()));
    assert_eq!(
        processor.panic_traceback(),
        &vec![(at(0, 4), at(1, 2)), (at(0, 10), at(1, 5)), (at(0, 20), at(1, 10))]
    );
    assert_eq!(processor.marker_count(), 0);
}

#[test]
fn a_trace_hint_with_another_flag_is_ignored() {
    let mut vm = vm_with_three_frames();
    let mut processor = ExternalHintProcessor::new(vec![]);
    let hint = ExternalHint::AddTrace { flag: Felt::from_u64(PANIC_FLAG + 1) };
    assert_eq!(processor.execute_external_hint(&mut vm, &hint), Ok(()));
    assert_eq!(processor.panic_traceback().len(), 0);
    let hint = ExternalHint::AddTrace { flag: Felt::from_digits(PANIC_FLAG, 1, 0, 0).unwrap() };
    assert_eq!(processor.execute_external_hint(&mut vm, &hint), Ok(()));
    assert_eq!(processor.panic_traceback().len(), 0);
}

#[test]
fn a_later_traceback_replaces_an_earlier_one() {
    let mut vm = vm_with_three_frames();
    let mut processor = ExternalHintProcessor::new(vec![]);
    let hint = ExternalHint::AddTrace { flag: Felt::from_u64(PANIC_FLAG) };
    assert_eq!(processor.execute_external_hint(&mut vm, &hint), Ok(()));
    vm.set_fp(5);
    vm.set_pc(vm_at(0, 13));
    assert_eq!(processor.execute_external_hint(&mut vm, &hint), Ok(()));
    assert_eq!(processor.panic_traceback(), &vec![(at(0, 4), at(1, 2)), (at(0, 13), at(1, 5))]);
}

#[test]
fn a_frame_without_a_caller_is_a_trace_of_one() {
    let mut vm = vm_with_segments(2);
    vm.set_fp(3);
    vm.set_pc(vm_at(0, 1));
    assert_eq!(capture_panic_trace(&vm), vec![(at(0, 1), at(1, 3))]);
    // A frame pointer too close to the start of its segment.
    vm.set_fp(1);
    assert_eq!(capture_panic_trace(&vm), vec![(at(0, 1), at(1, 1))]);
    vm.set_fp(0);
    assert_eq!(capture_panic_trace(&vm), vec![(at(0, 1), at(1, 0))]);
}

#[test]
fn frames_that_call_each_other_end_the_walk() {
    let mut vm = vm_with_segments(2);
    vm.insert_value(vm_at(0, 4), Felt252::from(CALL_REL)).unwrap();
    vm.insert_value(vm_at(0, 5), Felt252::from(7u64)).unwrap();
    // The frame at fp = 2 names the frame at fp = 5 as its caller, and the other way round.
    vm.insert_value(vm_at(1, 0), vm_at(1, 5)).unwrap();
    vm.insert_value(vm_at(1, 1), vm_at(0, 6)).unwrap();
    vm.insert_value(vm_at(1, 3), vm_at(1, 2)).unwrap();
    vm.insert_value(vm_at(1, 4), vm_at(0, 6)).unwrap();
    vm.set_fp(5);
    vm.set_pc(vm_at(0, 9));
    assert_eq!(capture_panic_trace(&vm), vec![(at(0, 4), at(1, 2)), (at(0, 9), at(1, 5))]);
}

#[test]
fn a_circle_of_three_frames_is_walked_once() {
    let mut vm = vm_with_segments(2);
    vm.insert_value(vm_at(0, 4), Felt252::from(CALL_REL)).unwrap();
    vm.insert_value(vm_at(0, 5), Felt252::from(7u64)).unwrap();
    // The callers go 8 -> 5 -> 2 -> 8.
    vm.insert_value(vm_at(1, 0), vm_at(1, 8)).unwrap();
    vm.insert_value(vm_at(1, 1), vm_at(0, 6)).unwrap();
    vm.insert_value(vm_at(1, 3), vm_at(1, 2)).unwrap();
    vm.insert_value(vm_at(1, 4), vm_at(0, 6)).unwrap();
    vm.insert_value(vm_at(1, 6), vm_at(1, 5)).unwrap();
    vm.insert_value(vm_at(1, 7), vm_at(0, 6)).unwrap();
    vm.set_fp(8);
    vm.set_pc(vm_at(0, 9));
    let trace = capture_panic_trace(&vm);
    assert_eq!(trace, vec![(at(0, 4), at(1, 2)), (at(0, 4), at(1, 5)), (at(0, 9), at(1, 8))]);
    // Entering the same circle at another frame gives each frame once, too.
    vm.set_fp(2);
    let trace = capture_panic_trace(&vm);
    assert_eq!(trace, vec![(at(0, 4), at(1, 5)), (at(0, 4), at(1, 8)), (at(0, 9), at(1, 2))]);
}

#[test]
fn a_chain_of_frames_is_followed_to_the_depth_limit() {
    let frames = MAX_TRACEBACK_DEPTH + 3;
    let mut vm = vm_with_segments(2);
    vm.insert_value(vm_at(0, 4), Felt252::from(CALL_REL)).unwrap();
    vm.insert_value(vm_at(0, 5), Felt252::from(7u64)).unwrap();
    // The frame at fp = 2k + 2 was called from the frame at fp = 2k.
    for k in 0..frames {
        vm.insert_value(vm_at(1, 2 * k), vm_at(1, 2 * k)).unwrap();
        vm.insert_value(vm_at(1, 2 * k + 1), vm_at(0, 6)).unwrap();
    }
    vm.set_fp(2 * frames);
    vm.set_pc(vm_at(0, 9));
    let trace = capture_panic_trace(&vm);
    assert_eq!(trace.len(), MAX_TRACEBACK_DEPTH + 1);
    assert_eq!(trace[trace.len() - 1], (at(0, 9), at(1, 2 * frames)));
    assert_eq!(trace[trace.len() - 2], (at(0, 4), at(1, 2 * frames - 2)));
    assert_eq!(trace[0], (at(0, 4), at(1, 2 * frames - 2 * MAX_TRACEBACK_DEPTH)));
}

#[test]
fn the_walk_ends_where_no_call_precedes_the_return_address() {
    let mut vm = vm_with_segments(2);
    // Neither cell before the return address holds a call.
    vm.insert_value(vm_at(0, 4), Felt252::from(0x0000800180018000u64)).unwrap();
    vm.insert_value(vm_at(0, 5), Felt252::from(7u64)).unwrap();
    vm.insert_value(vm_at(1, 3), vm_at(1, 2)).unwrap();
    vm.insert_value(vm_at(1, 4), vm_at(0, 6)).unwrap();
    vm.set_fp(5);
    vm.set_pc(vm_at(0, 9));
    assert_eq!(capture_panic_trace(&vm), vec![(at(0, 9), at(1, 5))]);
}

#[test]
fn a_call_of_one_cell_is_found_right_before_the_return_address() {
    let mut vm = vm_with_segments(2);
    vm.insert_value(vm_at(0, 4), Felt252::from(CALL_REL)).unwrap();
    vm.insert_value(vm_at(0, 5), Felt252::from(CALL_REL)).unwrap();
    vm.insert_value(vm_at(1, 3), vm_at(1, 2)).unwrap();
    vm.insert_value(vm_at(1, 4), vm_at(0, 6)).unwrap();
    vm.set_fp(5);
    vm.set_pc(vm_at(0, 9));
    assert_eq!(capture_panic_trace(&vm), vec![(at(0, 5), at(1, 2)), (at(0, 9), at(1, 5))]);
}

#[test]
fn a_word_too_large_for_an_instruction_is_no_call() {
    let mut vm = vm_with_segments(2);
    let wide = Felt252::from_bytes_be(&Felt::from_digits(CALL_REL, 1, 0, 0).unwrap().to_bytes_be());
    vm.insert_value(vm_at(0, 4), wide).unwrap();
    vm.insert_value(vm_at(0, 5), Felt252::from(7u64)).unwrap();
    vm.insert_value(vm_at(1, 3), vm_at(1, 2)).unwrap();
    vm.insert_value(vm_at(1, 4), vm_at(0, 6)).unwrap();
    vm.set_fp(5);
    vm.set_pc(vm_at(0, 9));
    assert_eq!(capture_panic_trace(&vm), vec![(at(0, 9), at(1, 5))]);
}

#[test]
fn markers_and_traces_leave_the_memory_as_it_was() {
    let mut vm = vm_with_three_frames();
    let mut processor = ExternalHintProcessor::new(vec![]);
    let cells: Vec<(isize, usize)> = (0..2).flat_map(|s| (0..24).map(move |o| (s, o))).collect();
    let before: Vec<Option<MaybeRelocatable>> =
        cells.iter().map(|(s, o)| vm.get_maybe(&vm_at(*s, *o))).collect();
    let hint = ExternalHint::AddTrace { flag: Felt::from_u64(PANIC_FLAG) };
    assert_eq!(processor.execute_external_hint(&mut vm, &hint), Ok(()));
    let hint = ExternalHint::AddMarker { start: at(0, 4), end: at(0, 6) };
    assert_eq!(processor.execute_external_hint(&mut vm, &hint), Ok(()));
    let after: Vec<Option<MaybeRelocatable>> =
        cells.iter().map(|(s, o)| vm.get_maybe(&vm_at(*s, *o))).collect();
    assert_eq!(before, after);
    assert_eq!(vm.segments.num_segments(), 2);
    assert_eq!(vm.get_fp(), vm_at(1, 10));
    assert_eq!(vm.get_pc(), vm_at(0, 20));
}

#[test]
fn markers_are_kept_in_the_order_of_their_hints() {
    let mut vm = vm_with_segments(1);
    for i in 0..4u64 {
        vm.insert_value(vm_at(0, i as usize), Felt252::from(i * 11)).unwrap();
    }
    let mut processor = ExternalHintProcessor::new(vec![]);
    let first = ExternalHint::AddMarker { start: at(0, 0), end: at(0, 2) };
    let second = ExternalHint::AddMarker { start: at(0, 3), end: at(0, 4) };
    let empty = ExternalHint::AddMarker { start: at(0, 1), end: at(0, 1) };
    assert_eq!(processor.execute_external_hint(&mut vm, &first), Ok(()));
    assert_eq!(processor.execute_external_hint(&mut vm, &second), Ok(()));
    assert_eq!(processor.execute_external_hint(&mut vm, &empty), Ok(()));
    assert_eq!(processor.marker_count(), 3);
    assert_eq!(processor.marker(0), Some(&vec![Felt::from_u64(0), Felt::from_u64(11)]));
    assert_eq!(processor.marker(1), Some(&vec![Felt::from_u64(33)]));
    assert_eq!(processor.marker(2), Some(&vec![]));
    assert_eq!(processor.marker(3), None);
}

#[test]
fn a_marker_that_cannot_be_read_is_not_kept() {
    let mut vm = vm_with_segments(1);
    vm.insert_value(vm_at(0, 0), Felt252::from(1u64)).unwrap();
    let mut processor = ExternalHintProcessor::new(vec![]);
    let hint = ExternalHint::AddMarker { start: at(0, 0), end: at(0, 2) };
    assert_eq!(processor.execute_external_hint(&mut vm, &hint), Err(BootloaderError::Memory));
    assert_eq!(processor.marker_count(), 0);
}

#[test]
fn a_run_param_is_written_at_its_destination() {
    let mut vm = vm_with_segments(2);
    let user_args = vec![vec![value(1)], vec![value(7), Arg::Array(vec![value(8), value(9)])]];
    let mut processor = ExternalHintProcessor::new(user_args);
    let hint = ExternalHint::WriteRunParam { index: Felt::from_u64(1), dst: at(1, 2) };
    assert_eq!(processor.execute_external_hint(&mut vm, &hint), Ok(()));
    assert_eq!(int_at(&vm, 1, 2), Some(Felt252::from(7u64)));
    assert_eq!(ptr_at(&vm, 1, 3), Some((2, 0)));
    assert_eq!(ptr_at(&vm, 1, 4), Some((2, 2)));
    assert_eq!(int_at(&vm, 2, 0), Some(Felt252::from(8u64)));
    assert_eq!(int_at(&vm, 2, 1), Some(Felt252::from(9u64)));
    let hint = ExternalHint::WriteRunParam { index: Felt::from_u64(0), dst: at(0, 0) };
    assert_eq!(processor.execute_external_hint(&mut vm, &hint), Ok(()));
    assert_eq!(int_at(&vm, 0, 0), Some(Felt252::from(1u64)));
    assert_eq!(processor.user_args.len(), 2);
}

#[test]
fn a_run_param_past_the_last_is_out_of_range() {
    let mut vm = vm_with_segments(1);
    let mut processor = ExternalHintProcessor::new(vec![vec![value(1)]]);
    let hint = ExternalHint::WriteRunParam { index: Felt::from_u64(1), dst: at(0, 0) };
    assert_eq!(
        processor.execute_external_hint(&mut vm, &hint),
        Err(BootloaderError::IndexOutOfRange)
    );
    let hint = ExternalHint::WriteRunParam {
        index: Felt::from_digits(0, 1, 0, 0).unwrap(),
        dst: at(0, 0),
    };
    assert_eq!(
        processor.execute_external_hint(&mut vm, &hint),
        Err(BootloaderError::IndexOutOfRange)
    );
    assert_eq!(vm.get_maybe(&vm_at(0, 0)), None);
    assert_eq!(vm.segments.num_segments(), 1);
}

#[test]
fn a_relocation_rule_is_added_once() {
    let mut vm = vm_with_segments(2);
    let temporary = vm.add_temporary_segment();
    assert_eq!((temporary.segment_index, temporary.offset), (-1, 0));
    // A cell that points into the temporary segment.
    vm.insert_value(vm_at(0, 0), vm_at(-1, 3)).unwrap();
    let mut processor = ExternalHintProcessor::new(vec![]);
    let hint = ExternalHint::AddRelocationRule { src: at(-1, 0), dst: at(1, 5) };
    assert_eq!(processor.execute_external_hint(&mut vm, &hint), Ok(()));
    // The cell is now read as relocated.
    assert_eq!(ptr_at(&vm, 0, 0), Some((1, 8)));
    // A second rule for the same segment is refused, and the first one stays.
    let again = ExternalHint::AddRelocationRule { src: at(-1, 0), dst: at(1, 9) };
    assert_eq!(processor.execute_external_hint(&mut vm, &again), Err(BootloaderError::Memory));
    assert_eq!(ptr_at(&vm, 0, 0), Some((1, 8)));
}

#[test]
fn a_relocation_rule_needs_the_start_of_a_temporary_segment() {
    let mut vm = vm_with_segments(2);
    vm.add_temporary_segment();
    let mut processor = ExternalHintProcessor::new(vec![]);
    let hint = ExternalHint::AddRelocationRule { src: at(1, 0), dst: at(0, 0) };
    assert_eq!(processor.execute_external_hint(&mut vm, &hint), Err(BootloaderError::Memory));
    let hint = ExternalHint::AddRelocationRule { src: at(-1, 1), dst: at(0, 0) };
    assert_eq!(processor.execute_external_hint(&mut vm, &hint), Err(BootloaderError::Memory));
    let hint = ExternalHint::AddRelocationRule { src: at(-1, 0), dst: at(0, 0) };
    assert_eq!(processor.execute_external_hint(&mut vm, &hint), Ok(()));
}

#[test]
fn a_new_processor_has_recorded_nothing() {
    let processor = ExternalHintProcessor::new(vec![vec![value(1)], vec![]]);
    assert_eq!(processor.marker_count(), 0);
    assert_eq!(processor.panic_traceback().len(), 0);
    assert_eq!(processor.user_args, vec![vec![value(1)], vec![]]);
}
