//! Puts a task's program into the machine's memory: the bytecode of a fresh
//! program, or the recorded pages of a replayed trace.

use vstd::prelude::*;
use cairo_vm::vm::vm_core::VirtualMachine;
use crate::address::{MaybeRelocatable, Relocatable};
use crate::error::BootloaderError;
use crate::felt::Felt;
use crate::task::{MemoryPage, TaskSpec};
use crate::vm::{
    cannot_write, lemma_memory_kept_chain, memory_kept, same_frame, vm_insert_value, vm_memory,
    vm_segments,
};

verus! {

/// The memory holds `cells` in the cells from `base` on.
pub open spec fn cells_at(
    mem: Map<Relocatable, MaybeRelocatable>,
    base: Relocatable,
    cells: Seq<MaybeRelocatable>,
) -> bool {
    forall|j: int|
        0 <= j < cells.len() ==> mem.contains_key(#[trigger] base.plus(j)) && mem[base.plus(j)]
            == cells[j]
}

/// The memory after `cells` have been written into the cells from `base`
/// on, one after the other.
pub open spec fn written_cells(
    mem: Map<Relocatable, MaybeRelocatable>,
    base: Relocatable,
    cells: Seq<MaybeRelocatable>,
) -> Map<Relocatable, MaybeRelocatable>
    decreases cells.len(),
{
    if cells.len() == 0 {
        mem
    } else {
        written_cells(mem, base, cells.drop_last()).insert(
            base.plus(cells.len() - 1),
            cells.last(),
        )
    }
}

/// The memory after the first `n` pages have been written, each at its
/// offset from `base`, one after the other.
pub open spec fn written_pages(
    mem: Map<Relocatable, MaybeRelocatable>,
    base: Relocatable,
    pages: Seq<MemoryPage>,
    n: int,
) -> Map<Relocatable, MaybeRelocatable>
    decreases n,
{
    if n <= 0 {
        mem
    } else {
        written_cells(
            written_pages(mem, base, pages, n - 1),
            base.plus(pages[n - 1].offset as int),
            pages[n - 1].values@,
        )
    }
}

/// The memory after the task's program has been put into it at `base`.
pub open spec fn with_program(
    mem: Map<Relocatable, MaybeRelocatable>,
    base: Relocatable,
    task: TaskSpec,
) -> Map<Relocatable, MaybeRelocatable> {
    match task {
        TaskSpec::RunProgram(task) => written_cells(mem, base, as_cells(task.program.data@)),
        TaskSpec::ReplayedTrace(task) => written_pages(
            mem,
            base,
            task.pages@,
            task.pages@.len() as int,
        ),
    }
}

/// The field elements as memory cells.
pub open spec fn as_cells(felts: Seq<Felt>) -> Seq<MaybeRelocatable> {
    felts.map_values(|f: Felt| MaybeRelocatable::Int(f))
}

/// A cell value that can be stored as it stands: a field element, or an
/// address in a segment that is not temporary.
pub open spec fn storable(cell: MaybeRelocatable) -> bool {
    match cell {
        MaybeRelocatable::Int(_) => true,
        MaybeRelocatable::RelocatableValue(p) => p.segment_index >= 0,
    }
}

/// The pages of a trace are in memory, each at its offset from `base`.
pub open spec fn pages_at(
    mem: Map<Relocatable, MaybeRelocatable>,
    base: Relocatable,
    pages: Seq<MemoryPage>,
    n: int,
) -> bool {
    forall|p: int|
        0 <= p < n ==> cells_at(
            mem,
            base.plus(pages[p].offset as int),
            (#[trigger] pages[p]).values@,
        )
}

/// The task's program is in memory at `base`: the bytecode of a fresh
/// program, or every recorded page of a replayed trace at its offset.
pub open spec fn program_loaded(
    mem: Map<Relocatable, MaybeRelocatable>,
    base: Relocatable,
    task: TaskSpec,
) -> bool {
    match task {
        TaskSpec::RunProgram(task) => cells_at(mem, base, as_cells(task.program.data@)),
        TaskSpec::ReplayedTrace(task) => pages_at(mem, base, task.pages@, task.pages@.len() as int),
    }
}

/// What every write into the machine's memory leaves as it was: the cells
/// that held a value, the number of segments, the registers and the
/// relocation rules.
pub open spec fn only_added_cells(before: VirtualMachine, after: VirtualMachine) -> bool {
    &&& memory_kept(vm_memory(before), vm_memory(after))
    &&& vm_segments(after) == vm_segments(before)
    &&& same_frame(after, before)
}

proof fn lemma_cells_kept(
    before: Map<Relocatable, MaybeRelocatable>,
    after: Map<Relocatable, MaybeRelocatable>,
    base: Relocatable,
    cells: Seq<MaybeRelocatable>,
)
    requires
        cells_at(before, base, cells),
        memory_kept(before, after),
    ensures
        cells_at(after, base, cells),
{
    assert forall|j: int| 0 <= j < cells.len() implies after.contains_key(#[trigger] base.plus(j))
        && after[base.plus(j)] == cells[j] by {
        assert(before.contains_key(base.plus(j)));
    }
}

proof fn lemma_pages_kept(
    before: Map<Relocatable, MaybeRelocatable>,
    after: Map<Relocatable, MaybeRelocatable>,
    base: Relocatable,
    pages: Seq<MemoryPage>,
    n: int,
)
    requires
        pages_at(before, base, pages, n),
        memory_kept(before, after),
    ensures
        pages_at(after, base, pages, n),
{
    assert forall|p: int| 0 <= p < n implies cells_at(
        after,
        base.plus(pages[p].offset as int),
        (#[trigger] pages[p]).values@,
    ) by {
        lemma_cells_kept(before, after, base.plus(pages[p].offset as int), pages[p].values@);
    }
}

/// Writes `cells` into the cells from `base` on.
///
/// On success the cells are there, every cell that held a value keeps it,
/// and no other cell has been written. A cell value that cannot be stored
/// as it stands is a load error, met before anything is written; any other
/// failure is the machine refusing a write. No cells are always written;
/// a first cell that the machine cannot write is a failure. Nothing but
/// cells is ever changed.
pub fn write_cells(vm: &mut VirtualMachine, base: Relocatable, cells: &Vec<MaybeRelocatable>) -> (r:
    Result<(), BootloaderError>)
    ensures
        r is Ok ==> cells_at(vm_memory(*final(vm)), base, cells@),
        r is Ok ==> vm_memory(*final(vm)) == written_cells(vm_memory(*old(vm)), base, cells@),
        r == Err::<(), BootloaderError>(BootloaderError::ProgramLoadError) <==> exists|j: int|
            0 <= j < cells.len() && !storable(#[trigger] cells[j]),
        r == Err::<(), BootloaderError>(BootloaderError::ProgramLoadError) ==> *final(vm) == *old(
            vm,
        ),
        r is Err ==> (r == Err::<(), BootloaderError>(BootloaderError::ProgramLoadError) || r
            == Err::<(), BootloaderError>(BootloaderError::Memory)),
        cells@.len() == 0 ==> r is Ok,
        cells@.len() > 0 && cannot_write(*old(vm), base, cells@[0]) ==> r is Err,
        only_added_cells(*old(vm), *final(vm)),
{
    let mut k: usize = 0;
    while k < cells.len()
        invariant
            k <= cells.len(),
            forall|j: int| 0 <= j < k ==> storable(#[trigger] cells[j]),
        decreases cells.len() - k,
    {
        match &cells[k] {
            MaybeRelocatable::Int(_) => {},
            MaybeRelocatable::RelocatableValue(p) => {
                if p.segment_index < 0 {
                    return Err(BootloaderError::ProgramLoadError);
                }
            },
        }
        k += 1;
    }
    let ghost mem0 = vm_memory(*vm);
    let mut cur = base;
    let mut i: usize = 0;
    while i < cells.len()
        invariant
            i <= cells.len(),
            forall|j: int| 0 <= j < cells.len() ==> storable(#[trigger] cells[j]),
            cur.segment_index == base.segment_index,
            cur.offset == base.offset + i,
            cells_at(vm_memory(*vm), base, cells@.take(i as int)),
            vm_memory(*vm) == written_cells(mem0, base, cells@.take(i as int)),
            i > 0 ==> !cannot_write(*old(vm), base, cells@[0]),
            mem0 == vm_memory(*old(vm)),
            memory_kept(mem0, vm_memory(*vm)),
            vm_segments(*vm) == vm_segments(*old(vm)),
            same_frame(*vm, *old(vm)),
        decreases cells.len() - i,
    {
        let ghost before = vm_memory(*vm);
        let cell = cells[i];
        proof {
            assert(storable(cells[i as int]));
        }
        match &cells[i] {
            MaybeRelocatable::Int(v) => {
                proof {
                    use_type_invariant(v);
                }
            },
            MaybeRelocatable::RelocatableValue(_) => {},
        }
        let inserted = vm_insert_value(vm, cur, cell);
        proof {
            lemma_memory_kept_chain(mem0, before, vm_memory(*vm));
        }
        match inserted {
            Ok(()) => {},
            Err(_) => {
                return Err(BootloaderError::Memory);
            },
        }
        proof {
            let now = vm_memory(*vm);
            lemma_cells_kept(before, now, base, cells@.take(i as int));
            assert(cur == base.plus(i as int));
            assert(cells@.take(i + 1).drop_last() =~= cells@.take(i as int));
            assert forall|j: int| 0 <= j < i + 1 implies now.contains_key(
                #[trigger] base.plus(j),
            ) && now[base.plus(j)] == cells@.take(i + 1)[j] by {
                if j < i {
                    assert(cells@.take(i as int)[j] == cells@.take(i + 1)[j]);
                }
            }
        }
        cur = Relocatable { segment_index: cur.segment_index, offset: cur.offset + 1 };
        i += 1;
    }
    proof {
        assert(cells@.take(i as int) =~= cells@);
    }
    Ok(())
}

/// Writes field elements into the cells from `base` on.
///
/// On success the elements are there, every cell that held a value keeps
/// it, and no other cell has been written. A failure is the machine
/// refusing a write. No elements are always written; a first cell that the
/// machine cannot write is a failure. Nothing but cells is ever changed.
pub fn write_felts(vm: &mut VirtualMachine, base: Relocatable, felts: &Vec<Felt>) -> (r: Result<
    (),
    BootloaderError,
>)
    ensures
        r is Ok ==> cells_at(vm_memory(*final(vm)), base, as_cells(felts@)),
        r is Ok ==> vm_memory(*final(vm)) == written_cells(
            vm_memory(*old(vm)),
            base,
            as_cells(felts@),
        ),
        r is Err ==> r == Err::<(), BootloaderError>(BootloaderError::Memory),
        felts@.len() == 0 ==> r is Ok,
        felts@.len() > 0 && cannot_write(*old(vm), base, MaybeRelocatable::Int(felts@[0])) ==> r
            is Err,
        only_added_cells(*old(vm), *final(vm)),
{
    let ghost mem0 = vm_memory(*vm);
    let ghost cells = as_cells(felts@);
    let mut cur = base;
    let mut i: usize = 0;
    while i < felts.len()
        invariant
            i <= felts.len(),
            cells == as_cells(felts@),
            cur.segment_index == base.segment_index,
            cur.offset == base.offset + i,
            cells_at(vm_memory(*vm), base, cells.take(i as int)),
            vm_memory(*vm) == written_cells(mem0, base, cells.take(i as int)),
            i > 0 ==> !cannot_write(*old(vm), base, MaybeRelocatable::Int(felts@[0])),
            mem0 == vm_memory(*old(vm)),
            memory_kept(mem0, vm_memory(*vm)),
            vm_segments(*vm) == vm_segments(*old(vm)),
            same_frame(*vm, *old(vm)),
        decreases felts.len() - i,
    {
        let ghost before = vm_memory(*vm);
        let v = &felts[i];
        proof {
            use_type_invariant(v);
        }
        let inserted = vm_insert_value(vm, cur, MaybeRelocatable::Int(*v));
        proof {
            lemma_memory_kept_chain(mem0, before, vm_memory(*vm));
        }
        match inserted {
            Ok(()) => {},
            Err(_) => {
                return Err(BootloaderError::Memory);
            },
        }
        proof {
            let now = vm_memory(*vm);
            lemma_cells_kept(before, now, base, cells.take(i as int));
            assert(cur == base.plus(i as int));
            assert(cells.take(i + 1).drop_last() =~= cells.take(i as int));
            assert forall|j: int| 0 <= j < i + 1 implies now.contains_key(
                #[trigger] base.plus(j),
            ) && now[base.plus(j)] == cells.take(i + 1)[j] by {
                if j < i {
                    assert(cells.take(i as int)[j] == cells.take(i + 1)[j]);
                }
            }
        }
        cur = Relocatable { segment_index: cur.segment_index, offset: cur.offset + 1 };
        i += 1;
    }
    proof {
        assert(cells.take(i as int) =~= cells);
    }
    Ok(())
}

/// What is settled of the loading of a program before the machine is asked
/// for the first time, if anything is.
///
/// A fresh program with no bytecode and a trace with no pages are loaded.
/// Of a trace, a first page whose place cannot be named is an address
/// overflow, and a first page with a value that cannot be stored is a load
/// error. A fresh program whose first cell the machine cannot write is the
/// machine's refusal.
pub open spec fn load_settled(vm: VirtualMachine, base: Relocatable, task: TaskSpec) -> Option<
    Result<(), BootloaderError>,
> {
    match task {
        TaskSpec::RunProgram(task) => {
            if task.program.data@.len() == 0 {
                Some(Ok(()))
            } else if cannot_write(vm, base, MaybeRelocatable::Int(task.program.data@[0])) {
                Some(Err(BootloaderError::Memory))
            } else {
                None
            }
        },
        TaskSpec::ReplayedTrace(task) => {
            if task.pages@.len() == 0 {
                Some(Ok(()))
            } else if base.offset + task.pages@[0].offset > usize::MAX {
                Some(Err(BootloaderError::AddressOverflow))
            } else if exists|j: int|
                0 <= j < task.pages@[0].values@.len() && !storable(
                    #[trigger] task.pages@[0].values@[j],
                ) {
                Some(Err(BootloaderError::ProgramLoadError))
            } else {
                None
            }
        },
    }
}

/// Puts the task's program into memory at `base`.
///
/// The bytecode of a fresh program is copied there; of a replayed trace,
/// every recorded page is written at its offset from `base`. On success the
/// program is loaded, every cell that held a value keeps it, and no other
/// cell has been written. A failure is a recorded value that cannot be
/// stored, a page whose place cannot be named, or the machine refusing a
/// write. What `load_settled` settles is what comes out. Nothing but cells
/// is ever changed.
pub fn load_program(vm: &mut VirtualMachine, base: Relocatable, task: &TaskSpec) -> (r: Result<
    (),
    BootloaderError,
>)
    ensures
        r is Ok ==> program_loaded(vm_memory(*final(vm)), base, *task),
        r is Ok ==> vm_memory(*final(vm)) == with_program(vm_memory(*old(vm)), base, *task),
        r is Err ==> (r == Err::<(), BootloaderError>(BootloaderError::ProgramLoadError) || r
            == Err::<(), BootloaderError>(BootloaderError::Memory) || r == Err::<
            (),
            BootloaderError,
        >(BootloaderError::AddressOverflow)),
        match load_settled(*old(vm), base, *task) {
            Some(Ok(_)) => r is Ok,
            Some(Err(e)) => r == Err::<(), BootloaderError>(e),
            None => true,
        },
        only_added_cells(*old(vm), *final(vm)),
{
    match task {
        TaskSpec::RunProgram(fresh) => write_felts(vm, base, &fresh.program.data),
        TaskSpec::ReplayedTrace(trace) => {
            let mut p: usize = 0;
            while p < trace.pages.len()
                invariant
                    p <= trace.pages.len(),
                    *task == TaskSpec::ReplayedTrace(*trace),
                    pages_at(vm_memory(*vm), base, trace.pages@, p as int),
                    vm_memory(*vm) == written_pages(
                        vm_memory(*old(vm)),
                        base,
                        trace.pages@,
                        p as int,
                    ),
                    only_added_cells(*old(vm), *vm),
                    p > 0 ==> load_settled(*old(vm), base, *task) is None,
                decreases trace.pages.len() - p,
            {
                let ghost before = vm_memory(*vm);
                let at = match base.add_usize(trace.pages[p].offset) {
                    Some(at) => at,
                    None => {
                        return Err(BootloaderError::AddressOverflow);
                    },
                };
                let written = write_cells(vm, at, &trace.pages[p].values);
                proof {
                    lemma_memory_kept_chain(vm_memory(*old(vm)), before, vm_memory(*vm));
                }
                match written {
                    Ok(()) => {},
                    Err(e) => {
                        return Err(e);
                    },
                }
                proof {
                    let now = vm_memory(*vm);
                    lemma_pages_kept(before, now, base, trace.pages@, p as int);
                }
                p += 1;
            }
            Ok(())
        },
    }
}

} // verus!
