//! The machine the bootloader runs in. Its memory, segments, registers and
//! relocation rules are known here only through the contracts below, each of
//! which restates what the machine's own source does.

use vstd::prelude::*;
use cairo_vm::types::relocatable::MaybeRelocatable as VmCell;
use cairo_vm::vm::errors::memory_errors::MemoryError;
use cairo_vm::vm::vm_core::VirtualMachine;
use cairo_vm::Felt252;
use crate::address::{MaybeRelocatable, Relocatable};
use crate::felt::Felt;

verus! {

#[verifier::external_type_specification]
#[verifier::external_body]
pub struct ExVirtualMachine(VirtualMachine);

#[verifier::external_type_specification]
#[verifier::external_body]
pub struct ExMemoryError(MemoryError);

/// The cells of the machine's memory that hold a value, as a read of each
/// address returns them.
pub uninterp spec fn vm_memory(vm: VirtualMachine) -> Map<Relocatable, MaybeRelocatable>;

/// How many segments with a non-negative index the machine has allocated.
pub uninterp spec fn vm_segments(vm: VirtualMachine) -> nat;

/// The machine's frame pointer.
pub uninterp spec fn vm_fp(vm: VirtualMachine) -> Relocatable;

/// The machine's program counter.
pub uninterp spec fn vm_pc(vm: VirtualMachine) -> Relocatable;

/// The relocation rules registered so far, by the index of the temporary
/// segment that each one relocates.
pub uninterp spec fn vm_relocation_rules(vm: VirtualMachine) -> Map<int, MaybeRelocatable>;

/// Every cell that held a value before holds the same value after.
pub open spec fn memory_kept(
    before: Map<Relocatable, MaybeRelocatable>,
    after: Map<Relocatable, MaybeRelocatable>,
) -> bool {
    forall|k: Relocatable| #[trigger]
        before.contains_key(k) ==> after.contains_key(k) && after[k] == before[k]
}

/// Two reasons for which the machine is sure to refuse a write of `value`
/// at `addr`: the segment has not been allocated, or the cell holds another
/// value.
pub open spec fn cannot_write(
    vm: VirtualMachine,
    addr: Relocatable,
    value: MaybeRelocatable,
) -> bool {
    ||| addr.segment_index >= vm_segments(vm)
    ||| vm_memory(vm).contains_key(addr) && vm_memory(vm)[addr] != value
}

/// What is kept from a first memory to a second and from the second to a
/// third is kept from the first to the third.
pub proof fn lemma_memory_kept_chain(
    a: Map<Relocatable, MaybeRelocatable>,
    b: Map<Relocatable, MaybeRelocatable>,
    c: Map<Relocatable, MaybeRelocatable>,
)
    requires
        memory_kept(a, b),
        memory_kept(b, c),
    ensures
        memory_kept(a, c),
{
    assert forall|k: Relocatable| #[trigger] a.contains_key(k) implies c.contains_key(k) && c[k]
        == a[k] by {
        assert(b.contains_key(k));
    }
}

/// The registers and the relocation rules are the same in both machines.
pub open spec fn same_frame(a: VirtualMachine, b: VirtualMachine) -> bool {
    &&& vm_fp(a) == vm_fp(b)
    &&& vm_pc(a) == vm_pc(b)
    &&& vm_relocation_rules(a) == vm_relocation_rules(b)
}

/// `VirtualMachine::get_fp`: the frame pointer, copied field by field.
#[verifier::external_body]
pub(crate) fn vm_get_fp(vm: &VirtualMachine) -> (r: Relocatable)
    ensures
        r == vm_fp(*vm),
{
    let fp = vm.get_fp();
    Relocatable { segment_index: fp.segment_index, offset: fp.offset }
}

/// `VirtualMachine::get_pc`: the program counter, copied field by field.
#[verifier::external_body]
pub(crate) fn vm_get_pc(vm: &VirtualMachine) -> (r: Relocatable)
    ensures
        r == vm_pc(*vm),
{
    let pc = vm.get_pc();
    Relocatable { segment_index: pc.segment_index, offset: pc.offset }
}

/// `VirtualMachine::get_relocatable`: succeeds exactly when the cell holds an
/// address, and then returns that address.
#[verifier::external_body]
pub(crate) fn vm_get_relocatable(vm: &VirtualMachine, addr: Relocatable) -> (r: Result<
    Relocatable,
    MemoryError,
>)
    ensures
        r is Ok <==> (vm_memory(*vm).contains_key(addr)
            && vm_memory(*vm)[addr] is RelocatableValue),
        r is Ok ==> vm_memory(*vm)[addr] == MaybeRelocatable::RelocatableValue(r.unwrap()),
{
    let found = vm.get_relocatable((addr.segment_index, addr.offset).into())?;
    Ok(Relocatable { segment_index: found.segment_index, offset: found.offset })
}

/// `VirtualMachine::get_integer`: succeeds exactly when the cell holds a field
/// element, and then returns it by its canonical digits.
#[verifier::external_body]
pub(crate) fn vm_get_integer(vm: &VirtualMachine, addr: Relocatable) -> (r: Result<
    Felt,
    MemoryError,
>)
    ensures
        r is Ok <==> (vm_memory(*vm).contains_key(addr) && vm_memory(*vm)[addr] is Int),
        r is Ok ==> vm_memory(*vm)[addr] == MaybeRelocatable::Int(r.unwrap()),
{
    let d = vm.get_integer((addr.segment_index, addr.offset).into())?.to_le_digits();
    Ok(Felt { d0: d[0], d1: d[1], d2: d[2], d3: d[3] })
}

/// `VirtualMachine::insert_value`: when it succeeds the cell holds the value
/// and no other cell has changed; whether it succeeds or not, every cell
/// that held a value keeps it; the machine never writes at the last offset
/// of a segment. A write into a segment that has not been allocated is
/// refused, and so is a write into a cell that holds another value. It
/// touches neither the registers, nor the number of
/// segments, nor the relocation rules. An address may only be stored here if
/// its segment is not temporary, so that no relocation rule applies to it.
#[verifier::external_body]
pub(crate) fn vm_insert_value(
    vm: &mut VirtualMachine,
    addr: Relocatable,
    value: MaybeRelocatable,
) -> (r: Result<(), MemoryError>)
    requires
        value matches MaybeRelocatable::Int(v) ==> v.wf(),
        value matches MaybeRelocatable::RelocatableValue(p) ==> p.segment_index >= 0,
    ensures
        r is Ok ==> vm_memory(*final(vm)) == vm_memory(*old(vm)).insert(addr, value),
        memory_kept(vm_memory(*old(vm)), vm_memory(*final(vm))),
        r is Ok ==> addr.offset < usize::MAX,
        cannot_write(*old(vm), addr, value) ==> r is Err,
        vm_segments(*final(vm)) == vm_segments(*old(vm)),
        same_frame(*final(vm), *old(vm)),
{
    let value = match value {
        MaybeRelocatable::Int(v) => VmCell::Int(Felt252::from_bytes_be(&v.to_bytes_be())),
        MaybeRelocatable::RelocatableValue(p) => VmCell::RelocatableValue(
            (p.segment_index, p.offset).into(),
        ),
    };
    vm.insert_value((addr.segment_index, addr.offset).into(), value)
}

/// `VirtualMachine::add_memory_segment`: appends an empty segment and returns
/// its first address; the index of the new segment is the number of segments
/// there were. Nothing else changes.
#[verifier::external_body]
pub(crate) fn vm_add_memory_segment(vm: &mut VirtualMachine) -> (r: Relocatable)
    ensures
        r.segment_index == vm_segments(*old(vm)),
        r.offset == 0,
        vm_segments(*final(vm)) == vm_segments(*old(vm)) + 1,
        vm_memory(*final(vm)) == vm_memory(*old(vm)),
        same_frame(*final(vm), *old(vm)),
{
    let base = vm.add_memory_segment();
    Relocatable { segment_index: base.segment_index, offset: base.offset }
}

/// `VirtualMachine::add_relocation_rule`: accepts a rule exactly when the
/// source is the start of a temporary segment that has no rule yet, and then
/// records the destination for that segment. A refused rule changes nothing.
/// The registers and the number of segments stay as they were.
#[verifier::external_body]
pub(crate) fn vm_add_relocation_rule(
    vm: &mut VirtualMachine,
    src: Relocatable,
    dst: Relocatable,
) -> (r: Result<(), MemoryError>)
    ensures
        r is Ok <==> (src.segment_index < 0 && src.offset == 0 && !vm_relocation_rules(
            *old(vm),
        ).contains_key(src.segment_index as int)),
        r is Ok ==> vm_relocation_rules(*final(vm)) == vm_relocation_rules(*old(vm)).insert(
            src.segment_index as int,
            MaybeRelocatable::RelocatableValue(dst),
        ),
        r is Err ==> vm_relocation_rules(*final(vm)) == vm_relocation_rules(*old(vm)),
        r is Err ==> vm_memory(*final(vm)) == vm_memory(*old(vm)),
        vm_segments(*final(vm)) == vm_segments(*old(vm)),
        vm_fp(*final(vm)) == vm_fp(*old(vm)),
        vm_pc(*final(vm)) == vm_pc(*old(vm)),
{
    vm.add_relocation_rule(
        (src.segment_index, src.offset).into(),
        VmCell::RelocatableValue((dst.segment_index, dst.offset).into()),
    )
}

} // verus!
