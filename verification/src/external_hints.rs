//! Hints that arrive by tag rather than by identifier: relocation rules, run
//! parameters, diagnostic markers and the capture of a panic traceback.

use vstd::prelude::*;
use cairo_vm::vm::vm_core::VirtualMachine;
use std::collections::HashSet;
use crate::address::{lemma_key_injective, MaybeRelocatable, Relocatable};
use crate::error::BootloaderError;
use crate::felt::{lemma_value_injective, Felt};
use crate::vm::{
    lemma_memory_kept_chain, memory_kept, same_frame, vm_add_memory_segment,
    vm_add_relocation_rule, vm_fp, vm_get_fp, vm_get_integer, vm_get_pc, vm_get_relocatable,
    vm_insert_value, vm_memory, vm_pc, vm_relocation_rules, vm_segments,
};

verus! {

/// The flag value that asks for a panic traceback: the bytes of "panic".
pub const PANIC_FLAG: u64 = 0x70616e6963;

/// The bits of an instruction word that tell a call from other instructions.
pub const CALL_MASK: u64 = 0x7000_0000_0000_0000;

/// What the masked bits of a call instruction are.
pub const CALL_PATTERN: u64 = 0x1000_0000_0000_0000;

/// How many frames a traceback follows at most.
pub const MAX_TRACEBACK_DEPTH: usize = 0x10_0000;

/// One argument of a run: a single value or an array of arguments.
#[derive(Debug, PartialEq, Eq)]
pub enum Arg {
    Value(Felt),
    Array(Vec<Arg>),
}

impl Arg {
    /// How many cells the argument takes in the buffer that holds it: one
    /// for a value, two (start and end) for an array.
    pub open spec fn cells(self) -> nat {
        match self {
            Arg::Value(_) => 1,
            Arg::Array(_) => 2,
        }
    }

    /// How many cells the argument takes in the buffer that holds it.
    pub fn size(&self) -> (r: usize)
        ensures
            r == self.cells(),
    {
        match self {
            Arg::Value(_) => 1,
            Arg::Array(_) => 2,
        }
    }
}

/// The cells that a list of arguments takes in its own buffer.
pub open spec fn args_cells(args: Seq<Arg>) -> nat
    decreases args.len(),
{
    if args.len() == 0 {
        0
    } else {
        args_cells(args.drop_last()) + args.last().cells()
    }
}

/// The first `i + 1` arguments take the cells of the first `i` and those of
/// argument `i`.
pub proof fn lemma_args_cells_step(args: Seq<Arg>, i: int)
    requires
        0 <= i < args.len(),
    ensures
        args_cells(args.take(i + 1)) == args_cells(args.take(i)) + args[i].cells(),
{
    assert(args.take(i + 1).drop_last() =~= args.take(i));
}

/// A prefix of a list takes no more cells than the list.
pub proof fn lemma_args_cells_prefix(args: Seq<Arg>, i: int)
    requires
        0 <= i <= args.len(),
    ensures
        args_cells(args.take(i)) <= args_cells(args),
    decreases args.len() - i,
{
    if i == args.len() {
        assert(args.take(i) =~= args);
    } else {
        lemma_args_cells_step(args, i);
        lemma_args_cells_prefix(args, i + 1);
    }
}

/// How many of the arguments are arrays.
pub open spec fn direct_arrays(args: Seq<Arg>) -> nat
    decreases args.len(),
{
    if args.len() == 0 {
        0
    } else {
        direct_arrays(args.drop_last()) + if args.last() is Array {
            1nat
        } else {
            0nat
        }
    }
}

/// How many arrays the arguments from index `k` on hold in all, at any
/// depth: each array among them and the arrays inside it.
pub open spec fn arrays_from(args: Seq<Arg>, k: int) -> nat
    decreases args, args.len() - k,
{
    if k < 0 || k >= args.len() {
        0
    } else {
        (match args[k] {
            Arg::Array(inner) => 1 + arrays_from(inner@, 0),
            Arg::Value(_) => 0,
        }) + arrays_from(args, k + 1)
    }
}

/// How many arrays the arguments hold in all, at any depth.
pub open spec fn array_count(args: Seq<Arg>) -> nat {
    arrays_from(args, 0)
}

/// The first of the segments that the arrays inside array `i` of the list
/// have: it comes after the segments of the arrays of the list up to array
/// `i` and after all the segments of the arrays behind it.
pub open spec fn inner_fresh(args: Seq<Arg>, i: int, fresh: nat) -> nat {
    fresh + direct_arrays(args.take(i + 1)) + arrays_from(args, i + 1)
}

/// The memory holds the arguments at `buffer`: each value in its cell, each
/// array as the start and the end of a region that in turn holds the
/// array's elements. Every region is a segment of its own. The arrays of
/// the list have the segments from `fresh` on, in the order in which they
/// stand in the list; the arrays inside them have the segments after those,
/// the ones inside the last array first.
pub open spec fn laid_out(
    mem: Map<Relocatable, MaybeRelocatable>,
    buffer: Relocatable,
    args: Seq<Arg>,
    fresh: nat,
) -> bool
    decreases args,
{
    forall|i: int|
        #![trigger args[i]]
        0 <= i < args.len() ==> {
            let at = buffer.plus(args_cells(args.take(i)) as int);
            match args[i] {
                Arg::Value(v) => mem.contains_key(at) && mem[at] == MaybeRelocatable::Int(v),
                Arg::Array(inner) => {
                    &&& mem.contains_key(at)
                    &&& mem.contains_key(at.plus(1))
                    &&& mem[at] matches MaybeRelocatable::RelocatableValue(start)
                    &&& start.offset == 0
                    &&& start.segment_index == fresh + direct_arrays(args.take(i))
                    &&& mem[at.plus(1)] == MaybeRelocatable::RelocatableValue(
                        start.plus(args_cells(inner@) as int),
                    )
                    &&& laid_out(mem, start, inner@, inner_fresh(args, i, fresh))
                },
            }
        }
}

/// Where the region of array `i` of the list starts: at the beginning of the
/// segment that is the array's.
pub open spec fn region_start(args: Seq<Arg>, i: int, fresh: nat) -> Relocatable {
    Relocatable { segment_index: (fresh + direct_arrays(args.take(i))) as isize, offset: 0 }
}

/// The memory after the heads of the first `n` arguments have been written
/// at `buffer`, one after the other: each value into its cell, each array
/// as the start and the end of its region.
pub open spec fn with_heads(
    mem: Map<Relocatable, MaybeRelocatable>,
    buffer: Relocatable,
    args: Seq<Arg>,
    n: int,
    fresh: nat,
) -> Map<Relocatable, MaybeRelocatable>
    decreases n,
{
    if n <= 0 {
        mem
    } else {
        let so_far = with_heads(mem, buffer, args, n - 1, fresh);
        let at = buffer.plus(args_cells(args.take(n - 1)) as int);
        match args[n - 1] {
            Arg::Value(v) => so_far.insert(at, MaybeRelocatable::Int(v)),
            Arg::Array(inner) => {
                let start = region_start(args, n - 1, fresh);
                so_far.insert(at, MaybeRelocatable::RelocatableValue(start)).insert(
                    at.plus(1),
                    MaybeRelocatable::RelocatableValue(start.plus(args_cells(inner@) as int)),
                )
            },
        }
    }
}

/// The memory after the arguments have been written at `buffer`: first the
/// heads of all of them, then the elements of the arrays among them, those
/// of the last array first.
pub open spec fn with_args(
    mem: Map<Relocatable, MaybeRelocatable>,
    buffer: Relocatable,
    args: Seq<Arg>,
    fresh: nat,
) -> Map<Relocatable, MaybeRelocatable>
    decreases args, 1nat, 0nat,
{
    with_bodies(with_heads(mem, buffer, args, args.len() as int, fresh), args, 0, fresh)
}

/// The memory after the elements of the arrays among the arguments from
/// index `k` on have been written into their regions, those of the last
/// array first.
pub open spec fn with_bodies(
    mem: Map<Relocatable, MaybeRelocatable>,
    args: Seq<Arg>,
    k: int,
    fresh: nat,
) -> Map<Relocatable, MaybeRelocatable>
    decreases args, 0nat, args.len() - k,
{
    if k < 0 || k >= args.len() {
        mem
    } else {
        let so_far = with_bodies(mem, args, k + 1, fresh);
        match args[k] {
            Arg::Array(inner) => with_args(
                so_far,
                region_start(args, k, fresh),
                inner@,
                inner_fresh(args, k, fresh),
            ),
            Arg::Value(_) => so_far,
        }
    }
}

/// What the first cell of the list's buffer is given: the first value, or
/// the start of the first array's region.
pub open spec fn first_head(args: Seq<Arg>, fresh: nat) -> MaybeRelocatable {
    match args[0] {
        Arg::Value(v) => MaybeRelocatable::Int(v),
        Arg::Array(_) => MaybeRelocatable::RelocatableValue(region_start(args, 0, fresh)),
    }
}

/// The machine is sure to refuse the first write of the arguments at
/// `buffer`: the buffer's segment is not allocated, even with the segment
/// that a first array gets, or the first cell holds another value.
pub open spec fn cannot_write_args(
    vm: VirtualMachine,
    buffer: Relocatable,
    args: Seq<Arg>,
) -> bool {
    &&& args.len() > 0
    &&& {
        ||| buffer.segment_index >= vm_segments(vm) + direct_arrays(args.take(1))
        ||| vm_memory(vm).contains_key(buffer) && vm_memory(vm)[buffer] != first_head(
            args,
            vm_segments(vm),
        )
    }
}

/// Arguments that are laid out stay laid out when cells are added.
pub proof fn lemma_laid_out_grows(
    before: Map<Relocatable, MaybeRelocatable>,
    after: Map<Relocatable, MaybeRelocatable>,
    buffer: Relocatable,
    args: Seq<Arg>,
    fresh: nat,
)
    requires
        laid_out(before, buffer, args, fresh),
        memory_kept(before, after),
    ensures
        laid_out(after, buffer, args, fresh),
    decreases args,
{
    assert forall|i: int| #![trigger args[i]] 0 <= i < args.len() implies {
        let at = buffer.plus(args_cells(args.take(i)) as int);
        match args[i] {
            Arg::Value(v) => after.contains_key(at) && after[at] == MaybeRelocatable::Int(v),
            Arg::Array(inner) => {
                &&& after.contains_key(at)
                &&& after.contains_key(at.plus(1))
                &&& after[at] matches MaybeRelocatable::RelocatableValue(start)
                &&& start.offset == 0
                &&& start.segment_index == fresh + direct_arrays(args.take(i))
                &&& after[at.plus(1)] == MaybeRelocatable::RelocatableValue(
                    start.plus(args_cells(inner@) as int),
                )
                &&& laid_out(after, start, inner@, inner_fresh(args, i, fresh))
            },
        }
    } by {
        let at = buffer.plus(args_cells(args.take(i)) as int);
        assert(before.contains_key(at));
        match args[i] {
            Arg::Value(v) => {},
            Arg::Array(inner) => {
                assert(before.contains_key(at.plus(1)));
                let start = before[at]->RelocatableValue_0;
                lemma_laid_out_grows(before, after, start, inner@, inner_fresh(args, i, fresh));
            },
        }
    }
}

proof fn lemma_direct_arrays_step(args: Seq<Arg>, i: int)
    requires
        0 <= i < args.len(),
    ensures
        direct_arrays(args.take(i + 1)) == direct_arrays(args.take(i)) + if args[i] is Array {
            1nat
        } else {
            0nat
        },
{
    assert(args.take(i + 1).drop_last() =~= args.take(i));
}

/// What the cell or cells of argument `j` hold once the argument's head is
/// written: a value in its cell, or the start `start` of an array's region,
/// in the segment that is the array's, and the end of that region.
spec fn head_written(
    mem: Map<Relocatable, MaybeRelocatable>,
    buffer: Relocatable,
    args: Seq<Arg>,
    start: Relocatable,
    j: int,
    fresh: nat,
) -> bool {
    let at = buffer.plus(args_cells(args.take(j)) as int);
    match args[j] {
        Arg::Value(v) => mem.contains_key(at) && mem[at] == MaybeRelocatable::Int(v),
        Arg::Array(inner) => {
            &&& mem.contains_key(at)
            &&& mem.contains_key(at.plus(1))
            &&& mem[at] == MaybeRelocatable::RelocatableValue(start)
            &&& start.offset == 0
            &&& start.segment_index == fresh + direct_arrays(args.take(j))
            &&& mem[at.plus(1)] == MaybeRelocatable::RelocatableValue(
                start.plus(args_cells(inner@) as int),
            )
        },
    }
}

/// The first `n` arguments have their heads written at `buffer`, the region
/// of array `j` starting at `starts[j]`. What the regions hold is left open.
#[verifier::opaque]
spec fn heads_laid_out(
    mem: Map<Relocatable, MaybeRelocatable>,
    buffer: Relocatable,
    args: Seq<Arg>,
    starts: Seq<Relocatable>,
    n: int,
    fresh: nat,
) -> bool {
    forall|j: int| 0 <= j < n ==> #[trigger] head_written(mem, buffer, args, starts[j], j, fresh)
}

/// The region of array `j` holds the array's elements, if argument `j` is an array.
spec fn body_written(
    mem: Map<Relocatable, MaybeRelocatable>,
    args: Seq<Arg>,
    start: Relocatable,
    j: int,
    fresh: nat,
) -> bool {
    args[j] matches Arg::Array(inner) ==> laid_out(mem, start, inner@, inner_fresh(args, j, fresh))
}

/// The arrays among the arguments from index `k` on have their elements
/// laid out in their regions.
#[verifier::opaque]
spec fn bodies_laid_out(
    mem: Map<Relocatable, MaybeRelocatable>,
    args: Seq<Arg>,
    starts: Seq<Relocatable>,
    k: int,
    fresh: nat,
) -> bool {
    forall|j: int| k <= j < args.len() ==> #[trigger] body_written(mem, args, starts[j], j, fresh)
}

proof fn lemma_heads_grow(
    before: Map<Relocatable, MaybeRelocatable>,
    after: Map<Relocatable, MaybeRelocatable>,
    buffer: Relocatable,
    args: Seq<Arg>,
    starts: Seq<Relocatable>,
    n: int,
    fresh: nat,
)
    requires
        heads_laid_out(before, buffer, args, starts, n, fresh),
        memory_kept(before, after),
    ensures
        heads_laid_out(after, buffer, args, starts, n, fresh),
{
    reveal(heads_laid_out);
    assert forall|j: int| 0 <= j < n implies #[trigger] head_written(
        after,
        buffer,
        args,
        starts[j],
        j,
        fresh,
    ) by {
        assert(head_written(before, buffer, args, starts[j], j, fresh));
        let at = buffer.plus(args_cells(args.take(j)) as int);
        assert(before.contains_key(at));
        if args[j] is Array {
            assert(before.contains_key(at.plus(1)));
        }
    }
}

proof fn lemma_bodies_grow(
    before: Map<Relocatable, MaybeRelocatable>,
    after: Map<Relocatable, MaybeRelocatable>,
    args: Seq<Arg>,
    starts: Seq<Relocatable>,
    k: int,
    fresh: nat,
)
    requires
        bodies_laid_out(before, args, starts, k, fresh),
        memory_kept(before, after),
    ensures
        bodies_laid_out(after, args, starts, k, fresh),
{
    reveal(bodies_laid_out);
    assert forall|j: int| k <= j < args.len() implies #[trigger] body_written(
        after,
        args,
        starts[j],
        j,
        fresh,
    ) by {
        assert(body_written(before, args, starts[j], j, fresh));
        if let Arg::Array(inner) = args[j] {
            lemma_laid_out_grows(before, after, starts[j], inner@, inner_fresh(args, j, fresh));
        }
    }
}

/// The region of an array starts where `region_start` says.
proof fn lemma_head_start(
    mem: Map<Relocatable, MaybeRelocatable>,
    buffer: Relocatable,
    args: Seq<Arg>,
    starts: Seq<Relocatable>,
    k: int,
    fresh: nat,
)
    requires
        0 <= k < args.len(),
        heads_laid_out(mem, buffer, args, starts, args.len() as int, fresh),
    ensures
        args[k] is Array ==> starts[k] == region_start(args, k, fresh),
{
    reveal(heads_laid_out);
    assert(head_written(mem, buffer, args, starts[k], k, fresh));
}

/// One more head: with argument `n` written, the first `n + 1` heads are.
proof fn lemma_heads_extend(
    before: Map<Relocatable, MaybeRelocatable>,
    after: Map<Relocatable, MaybeRelocatable>,
    buffer: Relocatable,
    args: Seq<Arg>,
    starts: Seq<Relocatable>,
    start: Relocatable,
    n: int,
    fresh: nat,
)
    requires
        0 <= n < args.len(),
        starts.len() == n,
        heads_laid_out(before, buffer, args, starts, n, fresh),
        memory_kept(before, after),
        head_written(after, buffer, args, start, n, fresh),
    ensures
        heads_laid_out(after, buffer, args, starts.push(start), n + 1, fresh),
{
    lemma_heads_grow(before, after, buffer, args, starts, n, fresh);
    reveal(heads_laid_out);
    let extended = starts.push(start);
    assert forall|j: int| 0 <= j < n + 1 implies #[trigger] head_written(
        after,
        buffer,
        args,
        extended[j],
        j,
        fresh,
    ) by {
        if j < n {
            assert(extended[j] == starts[j]);
            assert(head_written(after, buffer, args, starts[j], j, fresh));
        }
    }
}

/// One more body: with the region of argument `k` filled, the bodies from `k` on are.
proof fn lemma_bodies_extend(
    before: Map<Relocatable, MaybeRelocatable>,
    after: Map<Relocatable, MaybeRelocatable>,
    args: Seq<Arg>,
    starts: Seq<Relocatable>,
    k: int,
    fresh: nat,
)
    requires
        0 <= k < args.len(),
        bodies_laid_out(before, args, starts, k + 1, fresh),
        memory_kept(before, after),
        body_written(after, args, starts[k], k, fresh),
    ensures
        bodies_laid_out(after, args, starts, k, fresh),
{
    lemma_bodies_grow(before, after, args, starts, k + 1, fresh);
    reveal(bodies_laid_out);
}

/// With every head written and every body filled, the arguments are laid out.
proof fn lemma_heads_and_bodies(
    mem: Map<Relocatable, MaybeRelocatable>,
    buffer: Relocatable,
    args: Seq<Arg>,
    starts: Seq<Relocatable>,
    fresh: nat,
)
    requires
        heads_laid_out(mem, buffer, args, starts, args.len() as int, fresh),
        bodies_laid_out(mem, args, starts, 0, fresh),
    ensures
        laid_out(mem, buffer, args, fresh),
{
    reveal(heads_laid_out);
    reveal(bodies_laid_out);
    assert forall|i: int| #![trigger args[i]] 0 <= i < args.len() implies {
        let at = buffer.plus(args_cells(args.take(i)) as int);
        match args[i] {
            Arg::Value(v) => mem.contains_key(at) && mem[at] == MaybeRelocatable::Int(v),
            Arg::Array(inner) => {
                &&& mem.contains_key(at)
                &&& mem.contains_key(at.plus(1))
                &&& mem[at] matches MaybeRelocatable::RelocatableValue(start)
                &&& start.offset == 0
                &&& start.segment_index == fresh + direct_arrays(args.take(i))
                &&& mem[at.plus(1)] == MaybeRelocatable::RelocatableValue(
                    start.plus(args_cells(inner@) as int),
                )
                &&& laid_out(mem, start, inner@, inner_fresh(args, i, fresh))
            },
        }
    } by {
        assert(head_written(mem, buffer, args, starts[i], i, fresh));
        assert(body_written(mem, args, starts[i], i, fresh));
    }
}

/// Writes a list of arguments into the machine's memory at `buffer`.
///
/// The list's own cells are written first, in order; each array met on the
/// way gets a fresh segment and a start and end pointer in the list. Then the
/// arrays are filled, the last one first. On success the arguments are laid
/// out at `buffer`, every array in a new segment of its own, no other cell
/// has been written, and the machine has one more segment for each array. A failure comes from the
/// machine refusing a write or from an offset that leaves `usize`. An empty
/// list is always written; a first cell that the machine cannot write is the
/// machine's refusal. Whatever happens, every cell that held a value keeps
/// it, and the registers and relocation rules are never touched.
pub fn write_args(vm: &mut VirtualMachine, buffer: Relocatable, args: &Vec<Arg>) -> (r: Result<
    (),
    BootloaderError,
>)
    ensures
        r is Ok ==> laid_out(vm_memory(*final(vm)), buffer, args@, vm_segments(*old(vm))),
        r is Ok ==> vm_memory(*final(vm)) == with_args(
            vm_memory(*old(vm)),
            buffer,
            args@,
            vm_segments(*old(vm)),
        ),
        r is Ok ==> vm_segments(*final(vm)) == vm_segments(*old(vm)) + array_count(args@),
        memory_kept(vm_memory(*old(vm)), vm_memory(*final(vm))),
        r is Err ==> (r == Err::<(), BootloaderError>(BootloaderError::Memory) || r == Err::<
            (),
            BootloaderError,
        >(BootloaderError::AddressOverflow)),
        args@.len() == 0 ==> r is Ok,
        cannot_write_args(*old(vm), buffer, args@) ==> r == Err::<(), BootloaderError>(
            BootloaderError::Memory,
        ),
        vm_segments(*final(vm)) >= vm_segments(*old(vm)),
        same_frame(*final(vm), *old(vm)),
    decreases args,
{
    let ghost mem0 = vm_memory(*vm);
    let ghost fresh = vm_segments(*vm);
    let mut starts: Vec<Relocatable> = Vec::new();
    let mut cur = buffer;
    let mut i: usize = 0;
    proof {
        reveal(heads_laid_out);
    }
    while i < args.len()
        invariant
            i <= args.len(),
            starts.len() == i,
            cur.segment_index == buffer.segment_index,
            cur.offset == buffer.offset + args_cells(args@.take(i as int)),
            heads_laid_out(vm_memory(*vm), buffer, args@, starts@, i as int, fresh),
            vm_memory(*vm) == with_heads(mem0, buffer, args@, i as int, fresh),
            i > 0 ==> !cannot_write_args(*old(vm), buffer, args@),
            mem0 == vm_memory(*old(vm)),
            fresh == vm_segments(*old(vm)),
            memory_kept(mem0, vm_memory(*vm)),
            vm_segments(*vm) == fresh + direct_arrays(args@.take(i as int)),
            same_frame(*vm, *old(vm)),
        decreases args.len() - i,
    {
        let ghost before = vm_memory(*vm);
        proof {
            lemma_args_cells_step(args@, i as int);
            lemma_direct_arrays_step(args@, i as int);
        }
        match &args[i] {
            Arg::Value(v) => {
                proof {
                    use_type_invariant(v);
                }
                let inserted = vm_insert_value(vm, cur, MaybeRelocatable::Int(*v));
                proof {
                    lemma_memory_kept_chain(mem0, before, vm_memory(*vm));
                }
                match inserted {
                    Ok(()) => {},
                    Err(_) => {
                        return Err(BootloaderError::Memory);
                    },
                }
                proof {
                    if i == 0 {
                        assert(cur == buffer);
                        assert(!cannot_write_args(*old(vm), buffer, args@));
                    }
                    lemma_heads_extend(
                        before,
                        vm_memory(*vm),
                        buffer,
                        args@,
                        starts@,
                        cur,
                        i as int,
                        fresh,
                    );
                }
                starts.push(cur);
                cur = Relocatable { segment_index: cur.segment_index, offset: cur.offset + 1 };
            },
            Arg::Array(inner) => {
                let start = vm_add_memory_segment(vm);
                let inserted = vm_insert_value(vm, cur, MaybeRelocatable::RelocatableValue(start));
                let ghost middle = vm_memory(*vm);
                proof {
                    lemma_memory_kept_chain(mem0, before, middle);
                }
                match inserted {
                    Ok(()) => {},
                    Err(_) => {
                        return Err(BootloaderError::Memory);
                    },
                }
                proof {
                    if i == 0 {
                        assert(cur == buffer);
                        assert(start == region_start(args@, 0, fresh));
                        assert(!cannot_write_args(*old(vm), buffer, args@));
                    }
                }
                let next = Relocatable { segment_index: cur.segment_index, offset: cur.offset + 1 };
                let end = match ExternalHintProcessor::args_size(inner) {
                    Some(size) => match start.add_usize(size) {
                        Some(end) => end,
                        None => {
                            return Err(BootloaderError::AddressOverflow);
                        },
                    },
                    None => {
                        return Err(BootloaderError::AddressOverflow);
                    },
                };
                let inserted = vm_insert_value(vm, next, MaybeRelocatable::RelocatableValue(end));
                proof {
                    lemma_memory_kept_chain(before, middle, vm_memory(*vm));
                    lemma_memory_kept_chain(mem0, before, vm_memory(*vm));
                }
                match inserted {
                    Ok(()) => {},
                    Err(_) => {
                        return Err(BootloaderError::Memory);
                    },
                }
                proof {
                    let now = vm_memory(*vm);
                    assert(next == cur.plus(1));
                    assert(start == region_start(args@, i as int, fresh));
                    assert(middle.contains_key(cur));
                    assert(now.contains_key(cur) && now[cur] == middle[cur]);
                    lemma_heads_extend(before, now, buffer, args@, starts@, start, i as int, fresh);
                }
                starts.push(start);
                cur = Relocatable { segment_index: next.segment_index, offset: next.offset + 1 };
            },
        }
        i += 1;
    }
    let mut k: usize = args.len();
    proof {
        assert(args@.take(i as int) =~= args@);
        reveal(bodies_laid_out);
    }
    while k > 0
        invariant
            k <= args.len(),
            starts.len() == args.len(),
            heads_laid_out(vm_memory(*vm), buffer, args@, starts@, args.len() as int, fresh),
            bodies_laid_out(vm_memory(*vm), args@, starts@, k as int, fresh),
            !cannot_write_args(*old(vm), buffer, args@),
            vm_memory(*vm) == with_bodies(
                with_heads(mem0, buffer, args@, args.len() as int, fresh),
                args@,
                k as int,
                fresh,
            ),
            mem0 == vm_memory(*old(vm)),
            fresh == vm_segments(*old(vm)),
            memory_kept(mem0, vm_memory(*vm)),
            vm_segments(*vm) == fresh + direct_arrays(args@.take(k as int)) + arrays_from(
                args@,
                k as int,
            ),
            same_frame(*vm, *old(vm)),
        decreases k,
    {
        k -= 1;
        let ghost before = vm_memory(*vm);
        let ghost segments = vm_segments(*vm);
        proof {
            lemma_direct_arrays_step(args@, k as int);
        }
        proof {
            lemma_head_start(before, buffer, args@, starts@, k as int, fresh);
        }
        match &args[k] {
            Arg::Array(inner) => {
                let written = write_args(vm, starts[k], inner);
                proof {
                    lemma_memory_kept_chain(mem0, before, vm_memory(*vm));
                }
                match written {
                    Ok(()) => {},
                    Err(e) => {
                        return Err(e);
                    },
                }
                proof {
                    assert(segments == inner_fresh(args@, k as int, fresh));
                }
            },
            Arg::Value(_) => {},
        }
        proof {
            let now = vm_memory(*vm);
            lemma_heads_grow(before, now, buffer, args@, starts@, args.len() as int, fresh);
            lemma_bodies_extend(before, now, args@, starts@, k as int, fresh);
        }
    }
    proof {
        lemma_heads_and_bodies(vm_memory(*vm), buffer, args@, starts@, fresh);
    }
    Ok(())
}

/// What reading the cells from `curr` up to, not including, `end` gives: the
/// field elements found, or the reason why the reading stops short. It stops
/// at a cell that holds no field element, and when the offset runs out
/// before `end` is met.
pub open spec fn read_range(
    mem: Map<Relocatable, MaybeRelocatable>,
    curr: Relocatable,
    end: Relocatable,
) -> Result<Seq<Felt>, BootloaderError>
    decreases usize::MAX - curr.offset,
{
    if curr == end {
        Ok(Seq::empty())
    } else if !(mem.contains_key(curr) && mem[curr] is Int) {
        Err(BootloaderError::Memory)
    } else if curr.offset >= usize::MAX {
        Err(BootloaderError::AddressOverflow)
    } else {
        match read_range(mem, curr.plus(1), end) {
            Ok(rest) => Ok(seq![mem[curr]->Int_0] + rest),
            Err(e) => Err(e),
        }
    }
}

/// The cells from `start` up to, not including, `end` can be read: the two
/// lie in one segment, `start` not behind `end`, and every cell between
/// them holds a field element.
pub open spec fn readable(
    mem: Map<Relocatable, MaybeRelocatable>,
    start: Relocatable,
    end: Relocatable,
) -> bool {
    &&& start.segment_index == end.segment_index
    &&& start.offset <= end.offset
    &&& forall|k: int|
        0 <= k < end.offset - start.offset ==> mem.contains_key(#[trigger] start.plus(k))
            && mem[start.plus(k)] is Int
}

/// Reading succeeds exactly on cells that can be read, and gives the field
/// elements of those cells in their order.
pub proof fn lemma_read_range(
    mem: Map<Relocatable, MaybeRelocatable>,
    start: Relocatable,
    end: Relocatable,
)
    ensures
        read_range(mem, start, end) is Ok <==> readable(mem, start, end),
        read_range(mem, start, end) matches Ok(found) ==> {
            &&& found.len() == end.offset - start.offset
            &&& forall|k: int|
                0 <= k < found.len() ==> mem[start.plus(k)] == MaybeRelocatable::Int(
                    #[trigger] found[k],
                )
        },
    decreases usize::MAX - start.offset,
{
    if start == end {
    } else if !(mem.contains_key(start) && mem[start] is Int) || start.offset >= usize::MAX {
        if readable(mem, start, end) {
            assert(start.plus(0) == start);
        }
    } else {
        let next = start.plus(1);
        lemma_read_range(mem, next, end);
        assert(start.plus(0) == start);
        if readable(mem, next, end) {
            assert forall|k: int| 0 <= k < end.offset - start.offset implies mem.contains_key(
                #[trigger] start.plus(k),
            ) && mem[start.plus(k)] is Int by {
                if k > 0 {
                    assert(start.plus(k) == next.plus(k - 1));
                }
            }
        }
        if readable(mem, start, end) {
            assert forall|k: int| 0 <= k < end.offset - next.offset implies mem.contains_key(
                #[trigger] next.plus(k),
            ) && mem[next.plus(k)] is Int by {
                assert(next.plus(k) == start.plus(k + 1));
            }
        }
        if let Ok(rest) = read_range(mem, next, end) {
            let found = seq![mem[start]->Int_0] + rest;
            assert forall|k: int| 0 <= k < found.len() implies mem[start.plus(k)]
                == MaybeRelocatable::Int(#[trigger] found[k]) by {
                if k > 0 {
                    assert(found[k] == rest[k - 1]);
                    assert(start.plus(k) == next.plus(k - 1));
                }
            }
        }
    }
}

/// `found`, followed by what is still to be read.
pub open spec fn read_so_far(found: Seq<Felt>, rest: Result<Seq<Felt>, BootloaderError>) -> Result<
    Seq<Felt>,
    BootloaderError,
> {
    match rest {
        Ok(more) => Ok(found + more),
        Err(e) => Err(e),
    }
}

/// The address stored `back` cells below `fp`, if that cell holds one.
pub open spec fn frame_pointer_at(
    mem: Map<Relocatable, MaybeRelocatable>,
    fp: Relocatable,
    back: nat,
) -> Option<Relocatable> {
    let at = fp.plus(-(back as int));
    if back <= fp.offset && mem.contains_key(at) && mem[at] is RelocatableValue {
        Some(mem[at]->RelocatableValue_0)
    } else {
        None
    }
}

/// The word is small enough for an instruction and carries the call pattern.
pub open spec fn is_call_instruction(inst: Felt) -> bool {
    inst.value() <= u64::MAX && (inst.value() as u64) & CALL_MASK == CALL_PATTERN
}

/// The address `back` cells below `ret_pc`, if a call instruction stands there.
pub open spec fn call_at(
    mem: Map<Relocatable, MaybeRelocatable>,
    ret_pc: Relocatable,
    back: nat,
) -> Option<Relocatable> {
    let at = ret_pc.plus(-(back as int));
    if back <= ret_pc.offset && mem.contains_key(at) && mem[at] is Int && is_call_instruction(
        mem[at]->Int_0,
    ) {
        Some(at)
    } else {
        None
    }
}

/// The call that returns to `ret_pc`: one cell below it or, failing that, two.
pub open spec fn call_site(mem: Map<Relocatable, MaybeRelocatable>, ret_pc: Relocatable) -> Option<
    Relocatable,
> {
    if call_at(mem, ret_pc, 1) is Some {
        call_at(mem, ret_pc, 1)
    } else {
        call_at(mem, ret_pc, 2)
    }
}

/// The callers of the frame at `fp`, innermost first, following at most
/// `depth` frames; `seen` holds the frame pointers met so far. The walk
/// reads the return address one cell below the frame pointer and the
/// caller's frame pointer two cells below it. It ends where either is
/// missing, where the caller's frame pointer has been met before, and where
/// no call instruction precedes the return address.
pub open spec fn callers(
    mem: Map<Relocatable, MaybeRelocatable>,
    fp: Relocatable,
    seen: Seq<Relocatable>,
    depth: nat,
) -> Seq<(Relocatable, Relocatable)>
    decreases depth,
{
    if depth == 0 {
        Seq::empty()
    } else {
        match (frame_pointer_at(mem, fp, 1), frame_pointer_at(mem, fp, 2)) {
            (Some(ret_pc), Some(ret_fp)) => {
                if ret_fp == fp || seen.contains(ret_fp) {
                    Seq::empty()
                } else {
                    match call_site(mem, ret_pc) {
                        Some(call_pc) => seq![(call_pc, ret_fp)] + callers(
                            mem,
                            ret_fp,
                            seen.push(ret_fp),
                            (depth - 1) as nat,
                        ),
                        None => Seq::empty(),
                    }
                }
            },
            _ => Seq::empty(),
        }
    }
}

/// The traceback of a panic at `pc` in the frame `fp`: the chain of calls
/// that led there, outermost first, ending with `(pc, fp)` itself.
pub open spec fn panic_trace(
    mem: Map<Relocatable, MaybeRelocatable>,
    pc: Relocatable,
    fp: Relocatable,
) -> Seq<(Relocatable, Relocatable)> {
    (seq![(pc, fp)] + callers(mem, fp, seq![fp], MAX_TRACEBACK_DEPTH as nat)).reverse()
}

/// No frame pointer stands twice among the pairs.
pub open spec fn distinct_frames(pairs: Seq<(Relocatable, Relocatable)>) -> bool {
    forall|i: int, j: int|
        0 <= i < j < pairs.len() ==> (#[trigger] pairs[i]).1 != (#[trigger] pairs[j]).1
}

/// The callers of a frame have frame pointers that were not met before, and
/// no two of them have the same.
pub proof fn lemma_callers_distinct(
    mem: Map<Relocatable, MaybeRelocatable>,
    fp: Relocatable,
    seen: Seq<Relocatable>,
    depth: nat,
)
    ensures
        distinct_frames(callers(mem, fp, seen, depth)),
        forall|i: int|
            0 <= i < callers(mem, fp, seen, depth).len() ==> !seen.contains(
                (#[trigger] callers(mem, fp, seen, depth)[i]).1,
            ),
        callers(mem, fp, seen, depth).len() <= depth,
    decreases depth,
{
    let all = callers(mem, fp, seen, depth);
    if all.len() > 0 {
        let ret_fp = frame_pointer_at(mem, fp, 2).unwrap();
        let rest = callers(mem, ret_fp, seen.push(ret_fp), (depth - 1) as nat);
        lemma_callers_distinct(mem, ret_fp, seen.push(ret_fp), (depth - 1) as nat);
        assert(seen.push(ret_fp).last() == ret_fp);
        assert forall|i: int| 0 <= i < all.len() implies !seen.contains((#[trigger] all[i]).1) by {
            if i > 0 {
                assert(all[i] == rest[i - 1]);
                let found = rest[i - 1].1;
                if seen.contains(found) {
                    let at = choose|at: int| 0 <= at < seen.len() && seen[at] == found;
                    assert(seen.push(ret_fp)[at] == found);
                }
            }
        }
        assert forall|i: int, j: int| 0 <= i < j < all.len() implies (#[trigger] all[i]).1 != (
        #[trigger] all[j]).1 by {
            assert(all[j] == rest[j - 1]);
            if i > 0 {
                assert(all[i] == rest[i - 1]);
            } else {
                assert(seen.push(ret_fp)[seen.len() as int] == ret_fp);
            }
        }
    }
}

/// No frame pointer stands twice in a traceback, whatever the memory holds,
/// and a traceback has at most one pair more than the depth limit.
pub proof fn lemma_panic_trace_distinct(
    mem: Map<Relocatable, MaybeRelocatable>,
    pc: Relocatable,
    fp: Relocatable,
)
    ensures
        distinct_frames(panic_trace(mem, pc, fp)),
        1 <= panic_trace(mem, pc, fp).len() <= MAX_TRACEBACK_DEPTH + 1,
{
    let rest = callers(mem, fp, seq![fp], MAX_TRACEBACK_DEPTH as nat);
    let all = seq![(pc, fp)] + rest;
    let trace = panic_trace(mem, pc, fp);
    lemma_callers_distinct(mem, fp, seq![fp], MAX_TRACEBACK_DEPTH as nat);
    assert(seq![fp][0] == fp);
    assert forall|i: int, j: int| 0 <= i < j < trace.len() implies (#[trigger] trace[i]).1 != (
    #[trigger] trace[j]).1 by {
        let a = all.len() - 1 - i;
        let b = all.len() - 1 - j;
        assert(trace[i] == all[a]);
        assert(trace[j] == all[b]);
        assert(all[a] == rest[a - 1]);
        if b > 0 {
            assert(all[b] == rest[b - 1]);
        }
    }
}

fn ptr_at_offset(vm: &VirtualMachine, fp: Relocatable, offset: usize) -> (r: Option<Relocatable>)
    ensures
        r == frame_pointer_at(vm_memory(*vm), fp, offset as nat),
{
    match fp.sub_usize(offset) {
        Some(at) => match vm_get_relocatable(vm, at) {
            Ok(found) => Some(found),
            Err(_) => None,
        },
        None => None,
    }
}

fn call_instruction(vm: &VirtualMachine, ret_pc: Relocatable, offset: usize) -> (r: Option<
    Relocatable,
>)
    ensures
        r == call_at(vm_memory(*vm), ret_pc, offset as nat),
{
    match ret_pc.sub_usize(offset) {
        Some(ptr) => match vm_get_integer(vm, ptr) {
            Ok(inst) => match inst.to_u64() {
                Some(inst_short) => if inst_short & CALL_MASK == CALL_PATTERN {
                    Some(ptr)
                } else {
                    None
                },
                None => None,
            },
            Err(_) => None,
        },
        None => None,
    }
}

/// The pairs in reverse order.
pub fn reversed(pairs: &Vec<(Relocatable, Relocatable)>) -> (r: Vec<(Relocatable, Relocatable)>)
    ensures
        r@ == pairs@.reverse(),
{
    let mut out: Vec<(Relocatable, Relocatable)> = Vec::new();
    let mut k: usize = pairs.len();
    while k > 0
        invariant
            k <= pairs.len(),
            out.len() == pairs.len() - k,
            forall|j: int| 0 <= j < out.len() ==> out@[j] == pairs@[pairs.len() - 1 - j],
        decreases k,
    {
        k -= 1;
        out.push(pairs[k]);
    }
    proof {
        assert(out@ =~= pairs@.reverse());
    }
    out
}

/// The frame pointers whose keys are in the set are those of the list.
spec fn holds_seen(keys: Set<i128>, seen: Seq<Relocatable>) -> bool {
    forall|p: Relocatable| keys.contains(#[trigger] p.spec_key() as i128) <==> seen.contains(p)
}

proof fn lemma_seen_one_more(keys: Set<i128>, seen: Seq<Relocatable>, met: Relocatable)
    requires
        holds_seen(keys, seen),
    ensures
        holds_seen(keys.insert(met.spec_key() as i128), seen.push(met)),
{
    let more = seen.push(met);
    assert forall|p: Relocatable|
        keys.insert(met.spec_key() as i128).contains(#[trigger] p.spec_key() as i128)
            <==> more.contains(p) by {
        if p.spec_key() == met.spec_key() {
            lemma_key_injective(p, met);
            assert(more[seen.len() as int] == p);
        }
        if seen.contains(p) {
            let at = choose|at: int| 0 <= at < seen.len() && seen[at] == p;
            assert(more[at] == p);
        }
        if more.contains(p) && p != met {
            let at = choose|at: int| 0 <= at < more.len() && more[at] == p;
            assert(seen[at] == p);
        }
    }
}

/// Captures the traceback of a panic at the machine's current program
/// counter and frame pointer. The machine is only read.
pub fn capture_panic_trace(vm: &VirtualMachine) -> (r: Vec<(Relocatable, Relocatable)>)
    ensures
        r@ == panic_trace(vm_memory(*vm), vm_pc(*vm), vm_fp(*vm)),
{
    broadcast use vstd::std_specs::hash::group_hash_axioms;

    let mut fp = vm_get_fp(vm);
    let mut trace: Vec<(Relocatable, Relocatable)> = Vec::new();
    trace.push((vm_get_pc(vm), fp));
    let mut keys: HashSet<i128> = HashSet::new();
    keys.insert(fp.key());
    let ghost mut seen = seq![fp];
    let mut depth: usize = 0;
    let mut walking = true;
    let ghost whole = seq![(vm_pc(*vm), vm_fp(*vm))] + callers(
        vm_memory(*vm),
        vm_fp(*vm),
        seq![vm_fp(*vm)],
        MAX_TRACEBACK_DEPTH as nat,
    );
    proof {
        assert(trace@ =~= seq![(vm_pc(*vm), vm_fp(*vm))]);
        lemma_seen_one_more(Set::<i128>::empty(), Seq::<Relocatable>::empty(), fp);
        assert(Seq::<Relocatable>::empty().push(fp) =~= seen);
    }
    while walking && depth < MAX_TRACEBACK_DEPTH
        invariant
            depth <= MAX_TRACEBACK_DEPTH,
            holds_seen(keys@, seen),
            whole == trace@ + if walking {
                callers(vm_memory(*vm), fp, seen, (MAX_TRACEBACK_DEPTH - depth) as nat)
            } else {
                Seq::empty()
            },
        decreases MAX_TRACEBACK_DEPTH - depth + if walking { 1int } else { 0int },
    {
        walking = false;
        if let Some(ret_pc) = ptr_at_offset(vm, fp, 1) {
            if let Some(ret_fp) = ptr_at_offset(vm, fp, 2) {
                let ret_key = ret_fp.key();
                let met = keys.contains(&ret_key);
                assert(met == seen.contains(ret_fp));
                if ret_fp != fp && !met {
                    let found = match call_instruction(vm, ret_pc, 1) {
                        Some(call_pc) => Some(call_pc),
                        None => call_instruction(vm, ret_pc, 2),
                    };
                    if let Some(call_pc) = found {
                        proof {
                            let more = callers(
                                vm_memory(*vm),
                                ret_fp,
                                seen.push(ret_fp),
                                (MAX_TRACEBACK_DEPTH - depth - 1) as nat,
                            );
                            assert(trace@ + (seq![(call_pc, ret_fp)] + more) =~= trace@.push(
                                (call_pc, ret_fp),
                            ) + more);
                            lemma_seen_one_more(keys@, seen, ret_fp);
                            seen = seen.push(ret_fp);
                        }
                        trace.push((call_pc, ret_fp));
                        keys.insert(ret_key);
                        fp = ret_fp;
                        depth += 1;
                        walking = true;
                    }
                }
            }
        }
    }
    proof {
        assert(callers(vm_memory(*vm), fp, seen, 0) =~= Seq::empty());
        assert(trace@ + Seq::<(Relocatable, Relocatable)>::empty() =~= trace@);
    }
    reversed(&trace)
}

/// A hint that arrives by tag, with its operands already evaluated.
#[derive(Clone, Copy, Debug, PartialEq, Eq)]
pub enum ExternalHint {
    /// Relocates the temporary segment that starts at `src` to `dst`.
    AddRelocationRule { src: Relocatable, dst: Relocatable },
    /// Writes run argument number `index` into memory at `dst`.
    WriteRunParam { index: Felt, dst: Relocatable },
    /// Records the field elements in the cells from `start` up to `end`.
    AddMarker { start: Relocatable, end: Relocatable },
    /// Captures a panic traceback if `flag` is the panic flag.
    AddTrace { flag: Felt },
}

/// Handles the tagged hints of one run.
pub struct ExternalHintProcessor {
    /// The arguments of the run, one list per parameter.
    pub user_args: Vec<Vec<Arg>>,
    markers: Vec<Vec<Felt>>,
    panic_traceback: Vec<(Relocatable, Relocatable)>,
}

impl ExternalHintProcessor {
    /// The arguments of the run, one list per parameter.
    pub closed spec fn spec_user_args(&self) -> Seq<Seq<Arg>> {
        self.user_args@.map_values(|a: Vec<Arg>| a@)
    }

    /// The markers recorded so far, oldest first.
    pub closed spec fn spec_markers(&self) -> Seq<Seq<Felt>> {
        self.markers@.map_values(|m: Vec<Felt>| m@)
    }

    /// The traceback captured last, outermost call first; empty if none was.
    pub closed spec fn spec_panic_traceback(&self) -> Seq<(Relocatable, Relocatable)> {
        self.panic_traceback@
    }

    /// A processor for a run with these arguments, with no marker and no traceback yet.
    pub fn new(user_args: Vec<Vec<Arg>>) -> (r: Self)
        ensures
            r.spec_user_args() == user_args@.map_values(|a: Vec<Arg>| a@),
            r.spec_markers() == Seq::<Seq<Felt>>::empty(),
            r.spec_panic_traceback() == Seq::<(Relocatable, Relocatable)>::empty(),
    {
        let r = ExternalHintProcessor {
            user_args,
            markers: Vec::new(),
            panic_traceback: Vec::new(),
        };
        proof {
            assert(r.spec_markers() =~= Seq::<Seq<Felt>>::empty());
        }
        r
    }

    /// The size in memory of the arguments; `None` when it does not fit `usize`.
    pub fn args_size(args: &Vec<Arg>) -> (r: Option<usize>)
        ensures
            r == (if args_cells(args@) <= usize::MAX {
                Some(args_cells(args@) as usize)
            } else {
                None
            }),
    {
        let mut total: usize = 0;
        let mut i: usize = 0;
        while i < args.len()
            invariant
                0 <= i <= args.len(),
                total == args_cells(args@.take(i as int)),
            decreases args.len() - i,
        {
            proof {
                lemma_args_cells_step(args@, i as int);
                lemma_args_cells_prefix(args@, i + 1);
            }
            match total.checked_add(args[i].size()) {
                Some(next) => {
                    total = next;
                },
                None => {
                    return None;
                },
            }
            i += 1;
        }
        proof {
            assert(args@.take(i as int) =~= args@);
        }
        Some(total)
    }

    /// Reads the field elements in the cells from `start` up to, not including, `end`.
    pub fn read_felts(vm: &VirtualMachine, start: Relocatable, end: Relocatable) -> (r: Result<
        Vec<Felt>,
        BootloaderError,
    >)
        ensures
            match read_range(vm_memory(*vm), start, end) {
                Ok(found) => r is Ok && r.unwrap()@ == found,
                Err(e) => r == Err::<Vec<Felt>, BootloaderError>(e),
            },
    {
        let mut curr = start;
        let mut felts: Vec<Felt> = Vec::new();
        proof {
            assert(Seq::<Felt>::empty() + read_range(vm_memory(*vm), start, end).unwrap()
                =~= read_range(vm_memory(*vm), start, end).unwrap());
        }
        while curr != end
            invariant
                read_range(vm_memory(*vm), start, end) == read_so_far(
                    felts@,
                    read_range(vm_memory(*vm), curr, end),
                ),
            decreases usize::MAX - curr.offset,
        {
            let value = match vm_get_integer(vm, curr) {
                Ok(value) => value,
                Err(_) => {
                    return Err(BootloaderError::Memory);
                },
            };
            let next = match curr.add_usize(1) {
                Some(next) => next,
                None => {
                    return Err(BootloaderError::AddressOverflow);
                },
            };
            proof {
                let rest = read_range(vm_memory(*vm), next, end);
                if rest is Ok {
                    assert(felts@ + (seq![value] + rest.unwrap()) =~= felts@.push(value)
                        + rest.unwrap());
                }
            }
            felts.push(value);
            curr = next;
        }
        proof {
            assert(felts@ + Seq::<Felt>::empty() =~= felts@);
        }
        Ok(felts)
    }

    /// How many markers have been recorded.
    pub fn marker_count(&self) -> (r: usize)
        ensures
            r == self.spec_markers().len(),
    {
        self.markers.len()
    }

    /// The marker recorded as number `i`, if there are that many.
    pub fn marker(&self, i: usize) -> (r: Option<&Vec<Felt>>)
        ensures
            r is Some <==> i < self.spec_markers().len(),
            r is Some ==> r.unwrap()@ == self.spec_markers()[i as int],
    {
        if i < self.markers.len() {
            Some(&self.markers[i])
        } else {
            None
        }
    }

    /// The traceback captured last, outermost call first.
    pub fn panic_traceback(&self) -> (r: &Vec<(Relocatable, Relocatable)>)
        ensures
            r@ == self.spec_panic_traceback(),
    {
        &self.panic_traceback
    }

    /// What the hint has done when `execute_external_hint` returns `r`,
    /// having taken the processor from `before` to `after` and the machine
    /// from `vm_before` to `vm_after`.
    pub open spec fn hint_effect(
        hint: ExternalHint,
        before: Self,
        vm_before: VirtualMachine,
        after: Self,
        vm_after: VirtualMachine,
        r: Result<(), BootloaderError>,
    ) -> bool {
        match hint {
            ExternalHint::AddRelocationRule { src, dst } => {
                let accepted = src.segment_index < 0 && src.offset == 0 && !vm_relocation_rules(
                    vm_before,
                ).contains_key(src.segment_index as int);
                &&& after == before
                &&& r == (if accepted {
                    Ok::<(), BootloaderError>(())
                } else {
                    Err::<(), BootloaderError>(BootloaderError::Memory)
                })
                &&& vm_relocation_rules(vm_after) == (if accepted {
                    vm_relocation_rules(vm_before).insert(
                        src.segment_index as int,
                        MaybeRelocatable::RelocatableValue(dst),
                    )
                } else {
                    vm_relocation_rules(vm_before)
                })
                &&& !accepted ==> vm_memory(vm_after) == vm_memory(vm_before)
                &&& vm_segments(vm_after) == vm_segments(vm_before)
                &&& vm_fp(vm_after) == vm_fp(vm_before)
                &&& vm_pc(vm_after) == vm_pc(vm_before)
            },
            ExternalHint::WriteRunParam { index, dst } => {
                &&& after == before
                &&& same_frame(vm_after, vm_before)
                &&& memory_kept(vm_memory(vm_before), vm_memory(vm_after))
                &&& if index.value() < before.spec_user_args().len() {
                    let args = before.spec_user_args()[index.value() as int];
                    &&& r is Ok ==> laid_out(
                        vm_memory(vm_after),
                        dst,
                        args,
                        vm_segments(vm_before),
                    )
                    &&& r is Ok ==> vm_memory(vm_after) == with_args(
                        vm_memory(vm_before),
                        dst,
                        args,
                        vm_segments(vm_before),
                    )
                    &&& r is Ok ==> vm_segments(vm_after) == vm_segments(vm_before)
                        + array_count(args)
                    &&& args.len() == 0 ==> r is Ok
                    &&& cannot_write_args(vm_before, dst, args) ==> r == Err::<
                        (),
                        BootloaderError,
                    >(BootloaderError::Memory)
                    &&& r is Err ==> (r == Err::<(), BootloaderError>(BootloaderError::Memory)
                        || r == Err::<(), BootloaderError>(BootloaderError::AddressOverflow))
                } else {
                    &&& r == Err::<(), BootloaderError>(BootloaderError::IndexOutOfRange)
                    &&& vm_after == vm_before
                }
            },
            ExternalHint::AddMarker { start, end } => {
                &&& vm_after == vm_before
                &&& after.spec_user_args() == before.spec_user_args()
                &&& after.spec_panic_traceback() == before.spec_panic_traceback()
                &&& match read_range(vm_memory(vm_before), start, end) {
                    Ok(found) => r is Ok && after.spec_markers()
                        == before.spec_markers().push(found),
                    Err(e) => r == Err::<(), BootloaderError>(e) && after.spec_markers()
                        == before.spec_markers(),
                }
            },
            ExternalHint::AddTrace { flag } => {
                &&& vm_after == vm_before
                &&& r is Ok
                &&& after.spec_user_args() == before.spec_user_args()
                &&& after.spec_markers() == before.spec_markers()
                &&& after.spec_panic_traceback() == (if flag.value() == PANIC_FLAG {
                    panic_trace(vm_memory(vm_before), vm_pc(vm_before), vm_fp(vm_before))
                } else {
                    before.spec_panic_traceback()
                })
            },
        }
    }

    /// Carries out one tagged hint.
    ///
    /// A relocation rule is accepted exactly when its source starts a
    /// temporary segment that has no rule yet. A run parameter is written as
    /// `write_args` writes it; an index past the last argument list is
    /// refused and leaves the machine as it was. A marker is the run of field
    /// elements between its two addresses; reading it leaves the machine as
    /// it was, and a failed reading records nothing. A trace request reads
    /// the machine and never fails; any flag but the panic flag is ignored.
    pub fn execute_external_hint(&mut self, vm: &mut VirtualMachine, hint: &ExternalHint) -> (r:
        Result<(), BootloaderError>)
        ensures
            Self::hint_effect(*hint, *old(self), *old(vm), *final(self), *final(vm), r),
    {
        match hint {
            ExternalHint::AddRelocationRule { src, dst } => {
                match vm_add_relocation_rule(vm, *src, *dst) {
                    Ok(()) => Ok(()),
                    Err(_) => Err(BootloaderError::Memory),
                }
            },
            ExternalHint::WriteRunParam { index, dst } => {
                proof {
                    assert(self.spec_user_args().len() == self.user_args@.len());
                }
                let count = self.user_args.len();
                match index.to_usize() {
                    Some(index) => {
                        if index < count {
                            write_args(vm, *dst, &self.user_args[index])
                        } else {
                            Err(BootloaderError::IndexOutOfRange)
                        }
                    },
                    None => Err(BootloaderError::IndexOutOfRange),
                }
            },
            ExternalHint::AddMarker { start, end } => {
                match Self::read_felts(vm, *start, *end) {
                    Ok(felts) => {
                        proof {
                            assert(self.markers@.push(felts).map_values(|m: Vec<Felt>| m@)
                                =~= self.markers@.map_values(|m: Vec<Felt>| m@).push(felts@));
                        }
                        self.markers.push(felts);
                        Ok(())
                    },
                    Err(e) => Err(e),
                }
            },
            ExternalHint::AddTrace { flag } => {
                let panic_flag = Felt::from_u64(PANIC_FLAG);
                proof {
                    if flag.value() == PANIC_FLAG {
                        lemma_value_injective(*flag, panic_flag);
                    }
                }
                // Setting the panic backtrace if the given flag is panic.
                if *flag == panic_flag {
                    self.panic_traceback = capture_panic_trace(vm);
                }
                Ok(())
            },
        }
    }
}

} // verus!
