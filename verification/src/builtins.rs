//! Which builtins a task may use: its list must pick builtins out of the
//! run's list without changing their order.

use vstd::prelude::*;
use crate::address::Relocatable;
use crate::error::BootloaderError;

verus! {

/// A co-processor of the machine.
#[derive(Clone, Copy, Debug, PartialEq, Eq, Structural, Hash)]
pub enum BuiltinName {
    Output,
    RangeCheck,
    Pedersen,
    Ecdsa,
    Keccak,
    Bitwise,
    EcOp,
    Poseidon,
    SegmentArena,
    RangeCheck96,
    AddMod,
    MulMod,
}

impl BuiltinName {
    /// The name under which the machine knows the builtin.
    pub open spec fn spec_name(self) -> Seq<char> {
        match self {
            BuiltinName::Output => "output"@,
            BuiltinName::RangeCheck => "range_check"@,
            BuiltinName::Pedersen => "pedersen"@,
            BuiltinName::Ecdsa => "ecdsa"@,
            BuiltinName::Keccak => "keccak"@,
            BuiltinName::Bitwise => "bitwise"@,
            BuiltinName::EcOp => "ec_op"@,
            BuiltinName::Poseidon => "poseidon"@,
            BuiltinName::SegmentArena => "segment_arena"@,
            BuiltinName::RangeCheck96 => "range_check96"@,
            BuiltinName::AddMod => "add_mod"@,
            BuiltinName::MulMod => "mul_mod"@,
        }
    }

    /// The name under which the machine knows the builtin.
    pub fn name(self) -> (r: &'static str)
        ensures
            r@ == self.spec_name(),
    {
        match self {
            BuiltinName::Output => "output",
            BuiltinName::RangeCheck => "range_check",
            BuiltinName::Pedersen => "pedersen",
            BuiltinName::Ecdsa => "ecdsa",
            BuiltinName::Keccak => "keccak",
            BuiltinName::Bitwise => "bitwise",
            BuiltinName::EcOp => "ec_op",
            BuiltinName::Poseidon => "poseidon",
            BuiltinName::SegmentArena => "segment_arena",
            BuiltinName::RangeCheck96 => "range_check96",
            BuiltinName::AddMod => "add_mod",
            BuiltinName::MulMod => "mul_mod",
        }
    }
}

/// The name is that of a builtin.
pub open spec fn is_builtin_name(name: Seq<char>) -> bool {
    exists|b: BuiltinName| #[trigger] b.spec_name() == name
}

/// `positions` picks the builtins of `task` out of `run`: one position for
/// each, holding that builtin, the positions strictly increasing.
pub open spec fn selects(
    task: Seq<BuiltinName>,
    run: Seq<BuiltinName>,
    positions: Seq<usize>,
) -> bool {
    &&& positions.len() == task.len()
    &&& forall|i: int|
        0 <= i < task.len() ==> (#[trigger] positions[i]) < run.len() && run[positions[i] as int]
            == task[i]
    &&& forall|i: int, j: int|
        0 <= i < j < task.len() ==> (#[trigger] positions[i]) < (#[trigger] positions[j])
}

/// `task` can be picked out of `run` without changing the order.
pub open spec fn is_subsequence(task: Seq<BuiltinName>, run: Seq<BuiltinName>) -> bool {
    exists|positions: Seq<usize>| selects(task, run, positions)
}

/// Where the search for builtin `i` starts: behind the position of the one before.
pub open spec fn search_start(positions: Seq<usize>, i: int) -> int {
    if i <= 0 {
        0
    } else {
        positions[i - 1] + 1
    }
}

/// `positions` picks `task` out of `run` and takes for each builtin the
/// first place it can have behind the one before.
pub open spec fn selects_first(
    task: Seq<BuiltinName>,
    run: Seq<BuiltinName>,
    positions: Seq<usize>,
) -> bool {
    &&& selects(task, run, positions)
    &&& forall|i: int, m: int|
        0 <= i < task.len() && search_start(positions, i) <= m < positions[i] ==> #[trigger] run[m]
            != #[trigger] task[i]
}

/// No selection can place a builtin before the place that the first-place
/// selection of the same builtins gives it.
pub proof fn lemma_first_is_least(
    task: Seq<BuiltinName>,
    run: Seq<BuiltinName>,
    first: Seq<usize>,
    n: int,
    other: Seq<usize>,
    i: int,
)
    requires
        0 <= i < n <= task.len(),
        selects_first(task.take(n), run, first),
        selects(task, run, other),
    ensures
        first[i] <= other[i],
    decreases i,
{
    assert(task.take(n)[i] == task[i]);
    if i > 0 {
        lemma_first_is_least(task, run, first, n, other, i - 1);
        assert(other[i - 1] < other[i]);
    }
    let m = other[i] as int;
    assert(run[m] == task[i]);
    if m < first[i] {
        assert(search_start(first, i) <= m);
        assert(run[m] != task.take(n)[i]);
    }
}

/// Finds for each builtin of the task its position in the run's list.
///
/// Succeeds exactly when the task's list is the run's list with some
/// builtins left out. The positions are then strictly increasing, and each
/// is the first that can be had behind the one before, so they are as far to
/// the front as any selection can be. A builtin that the run lacks, or one
/// that stands out of order, is a mismatch.
pub fn select_builtins(task: &Vec<BuiltinName>, run: &Vec<BuiltinName>) -> (r: Result<
    Vec<usize>,
    BootloaderError,
>)
    ensures
        r is Ok <==> is_subsequence(task@, run@),
        r is Ok ==> selects_first(task@, run@, r.unwrap()@),
        r is Err ==> r == Err::<Vec<usize>, BootloaderError>(BootloaderError::BuiltinMismatch),
{
    let mut positions: Vec<usize> = Vec::new();
    let mut next: usize = 0;
    let mut i: usize = 0;
    proof {
        assert(task@.take(0) =~= Seq::<BuiltinName>::empty());
    }
    while i < task.len()
        invariant
            i <= task.len(),
            next <= run.len(),
            positions.len() == i,
            next == search_start(positions@, i as int),
            selects_first(task@.take(i as int), run@, positions@),
        decreases task.len() - i,
    {
        let wanted = task[i];
        let ghost start = next;
        while next < run.len() && run[next] != wanted
            invariant
                start <= next <= run.len(),
                forall|m: int| start <= m < next ==> run@[m] != wanted,
            decreases run.len() - next,
        {
            next += 1;
        }
        if next >= run.len() {
            proof {
                if is_subsequence(task@, run@) {
                    let other = choose|p: Seq<usize>| selects(task@, run@, p);
                    if i > 0 {
                        lemma_first_is_least(task@, run@, positions@, i as int, other, i - 1);
                        assert(other[i - 1] < other[i as int]);
                    }
                    let m = other[i as int] as int;
                    assert(run@[m] == task@[i as int]);
                    assert(start <= m < run.len());
                }
            }
            return Err(BootloaderError::BuiltinMismatch);
        }
        proof {
            let old_positions = positions@;
            let new_positions = positions@.push(next);
            let prefix = task@.take(i + 1);
            assert forall|k: int| 0 <= k < prefix.len() implies (#[trigger] new_positions[k])
                < run.len() && run@[new_positions[k] as int] == prefix[k] by {
                if k < i {
                    assert(new_positions[k] == old_positions[k]);
                    assert(task@.take(i as int)[k] == prefix[k]);
                }
            }
            assert forall|a: int, b: int| 0 <= a < b < prefix.len() implies (
            #[trigger] new_positions[a]) < (#[trigger] new_positions[b]) by {
                assert(new_positions[a] == old_positions[a]);
                if b < i {
                    assert(new_positions[b] == old_positions[b]);
                } else {
                    if a < i - 1 {
                        assert(old_positions[a] < old_positions[i - 1]);
                    }
                }
            }
            assert forall|k: int, m: int|
                0 <= k < prefix.len() && search_start(new_positions, k) <= m
                    < new_positions[k] implies #[trigger] run@[m] != #[trigger] prefix[k] by {
                if k < i {
                    assert(new_positions[k] == old_positions[k]);
                    assert(search_start(new_positions, k) == search_start(old_positions, k));
                    assert(task@.take(i as int)[k] == prefix[k]);
                    assert(run@[m] != task@.take(i as int)[k]);
                }
            }
        }
        positions.push(next);
        next += 1;
        i += 1;
    }
    proof {
        assert(task@.take(i as int) =~= task@);
    }
    Ok(positions)
}

/// The positions are strictly increasing and lie within a list of `n` builtins.
pub open spec fn valid_positions(positions: Seq<usize>, n: int) -> bool {
    &&& forall|k: int| 0 <= k < positions.len() ==> (#[trigger] positions[k]) < n
    &&& forall|a: int, b: int|
        0 <= a < b < positions.len() ==> (#[trigger] positions[a]) < (#[trigger] positions[b])
}

/// The builtin pointers after a task: at each selected position the pointer
/// that the task returned for it, in the order of the selection; at every
/// other position the pointer from before the task.
pub open spec fn returned_pointers(
    before: Seq<Relocatable>,
    positions: Seq<usize>,
    returned: Seq<Relocatable>,
    after: Seq<Relocatable>,
) -> bool {
    &&& after.len() == before.len()
    &&& forall|k: int|
        0 <= k < positions.len() ==> after[(#[trigger] positions[k]) as int] == returned[k]
    &&& forall|m: int|
        0 <= m < before.len() && (forall|k: int|
            0 <= k < positions.len() ==> (#[trigger] positions[k]) != m) ==> #[trigger] after[m]
            == before[m]
}

/// Puts the builtin pointers that a task returned back among the run's.
///
/// `before` holds one pointer for each builtin of the run, `positions` the
/// selection made for the task and `returned` the task's pointers in the
/// order of the selection. Fails with a mismatch exactly when the positions
/// are not a valid selection out of `before` or there is not one returned
/// pointer for each.
pub fn write_return_builtins(
    before: &Vec<Relocatable>,
    positions: &Vec<usize>,
    returned: &Vec<Relocatable>,
) -> (r: Result<Vec<Relocatable>, BootloaderError>)
    ensures
        r is Ok <==> (valid_positions(positions@, before.len() as int) && returned.len()
            == positions.len()),
        r is Ok ==> returned_pointers(before@, positions@, returned@, r.unwrap()@),
        r is Err ==> r == Err::<Vec<Relocatable>, BootloaderError>(
            BootloaderError::BuiltinMismatch,
        ),
{
    if returned.len() != positions.len() {
        return Err(BootloaderError::BuiltinMismatch);
    }
    let mut after: Vec<Relocatable> = Vec::new();
    let mut used: usize = 0;
    let mut m: usize = 0;
    while m < before.len()
        invariant
            m <= before.len(),
            used <= positions.len(),
            returned.len() == positions.len(),
            after.len() == m,
            forall|k: int| 0 <= k < used ==> (#[trigger] positions[k]) < m,
            forall|a: int, b: int|
                0 <= a < b < used ==> (#[trigger] positions[a]) < (#[trigger] positions[b]),
            forall|k: int| 0 <= k < used ==> after[(#[trigger] positions[k]) as int] == returned[k],
            forall|x: int|
                0 <= x < m && (forall|k: int| 0 <= k < used ==> (#[trigger] positions[k]) != x)
                    ==> #[trigger] after[x] == before[x],
            valid_positions(positions@, before.len() as int) ==> forall|k: int|
                used <= k < positions.len() ==> (#[trigger] positions[k]) >= m,
        decreases before.len() - m,
    {
        let ghost old_after = after@;
        if used < positions.len() && positions[used] == m {
            after.push(returned[used]);
            proof {
                assert forall|x: int|
                    0 <= x < m + 1 && (forall|k: int|
                        0 <= k < used + 1 ==> (#[trigger] positions[k]) != x) implies (
                #[trigger] after[x]) == before[x] by {
                    assert(positions[used as int] != x);
                    assert(x < m);
                    assert(after[x] == old_after[x]);
                }
                assert forall|k: int| 0 <= k < used + 1 implies after[(
                #[trigger] positions[k]) as int] == returned[k] by {
                    if k < used {
                        assert(after[positions[k] as int] == old_after[positions[k] as int]);
                    }
                }
            }
            used += 1;
        } else {
            after.push(before[m]);
            proof {
                assert forall|x: int|
                    0 <= x < m + 1 && (forall|k: int|
                        0 <= k < used ==> (#[trigger] positions[k]) != x) implies (
                #[trigger] after[x]) == before[x] by {
                    if x < m {
                        assert(after[x] == old_after[x]);
                    }
                }
                assert forall|k: int| 0 <= k < used implies after[(#[trigger] positions[k]) as int]
                    == returned[k] by {
                    assert(after[positions[k] as int] == old_after[positions[k] as int]);
                }
                if valid_positions(positions@, before.len() as int) {
                    assert forall|k: int| used <= k < positions.len() implies (
                    #[trigger] positions[k]) >= m + 1 by {
                        if k > used {
                            assert(positions[used as int] < positions[k]);
                        }
                    }
                }
            }
        }
        m += 1;
    }
    if used != positions.len() {
        proof {
            if valid_positions(positions@, before.len() as int) {
                assert(positions[used as int] >= m);
            }
        }
        return Err(BootloaderError::BuiltinMismatch);
    }
    Ok(after)
}

} // verus!
