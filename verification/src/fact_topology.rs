//! How the output of a run is cut into pages, and how its packed outputs
//! nest: what whoever composes proofs of the output needs besides the output
//! itself.

use vstd::prelude::*;
use crate::error::BootloaderError;
use crate::felt::Felt;
use crate::packed_output::{
    arities, forest_arities, lemma_outputs_len_prefix, lemma_outputs_len_step, lemma_trees_of,
    output_len, outputs_len, outputs_size, trees_of, PackedOutput, PackedTree,
};

verus! {

/// The layout of an output: the child counts of the nodes of its tree, each
/// node before its children, and the sizes of its pages in order.
#[derive(Debug, PartialEq, Eq)]
pub struct FactTopology {
    pub tree_structure: Vec<usize>,
    pub page_sizes: Vec<usize>,
}

/// The layout that a `FactTopology` stands for.
pub struct TopologyView {
    pub tree_structure: Seq<usize>,
    pub page_sizes: Seq<nat>,
}

impl View for FactTopology {
    type V = TopologyView;

    open spec fn view(&self) -> TopologyView {
        TopologyView {
            tree_structure: self.tree_structure@,
            page_sizes: self.page_sizes@.map_values(|size: usize| size as nat),
        }
    }
}

/// The field elements of a tree in the order of the output: those of a plain
/// leaf, and for a composite those of its children in order.
pub open spec fn output_elements(tree: PackedTree) -> Seq<Felt>
    decreases tree, 0nat,
{
    match tree {
        PackedTree::Plain(elements) => elements,
        PackedTree::Composite { source, children } => outputs_elements(children),
    }
}

/// The field elements of the trees, tree after tree.
pub open spec fn outputs_elements(trees: Seq<PackedTree>) -> Seq<Felt>
    decreases trees, 1nat,
{
    if trees.len() == 0 {
        Seq::empty()
    } else {
        outputs_elements(trees.drop_last()) + output_elements(trees.last())
    }
}

/// A tree has as many output elements as `output_len` says.
pub proof fn lemma_output_elements_len(tree: PackedTree)
    ensures
        output_elements(tree).len() == output_len(tree),
    decreases tree, 0nat,
{
    match tree {
        PackedTree::Plain(elements) => {},
        PackedTree::Composite { source, children } => {
            lemma_outputs_elements_len(children);
        },
    }
}

/// Trees have together as many output elements as `outputs_len` says.
pub proof fn lemma_outputs_elements_len(trees: Seq<PackedTree>)
    ensures
        outputs_elements(trees).len() == outputs_len(trees),
    decreases trees, 1nat,
{
    if trees.len() > 0 {
        lemma_outputs_elements_len(trees.drop_last());
        lemma_output_elements_len(trees.last());
    }
}

/// The page sizes for a list of outputs that stand side by side: one page
/// for all of them in single-page mode, else one page for each.
pub open spec fn page_sizes_of(trees: Seq<PackedTree>, single_page: bool) -> Seq<nat> {
    if single_page {
        seq![outputs_len(trees)]
    } else {
        Seq::new(trees.len(), |i: int| output_len(trees[i]))
    }
}

/// The page sizes of one task's output: a plain output is one page; a
/// composite is cut where its children meet, or not at all in single-page mode.
pub open spec fn task_page_sizes(tree: PackedTree, single_page: bool) -> Seq<nat> {
    match tree {
        PackedTree::Plain(elements) => seq![elements.len()],
        PackedTree::Composite { source, children } => page_sizes_of(children, single_page),
    }
}

/// The layout of one task's output: the tree structure of the output and
/// the page sizes of the output.
pub open spec fn task_topology_of(tree: PackedTree, single_page: bool) -> TopologyView {
    TopologyView {
        tree_structure: arities(tree),
        page_sizes: task_page_sizes(tree, single_page),
    }
}

/// The layout of the output of a whole run: the tree structure of a
/// composite with the tasks' outputs as its children, and one page for each
/// task or, in single-page mode, one page in all.
pub open spec fn run_topology_of(trees: Seq<PackedTree>, single_page: bool) -> TopologyView {
    TopologyView {
        tree_structure: seq![trees.len() as usize] + forest_arities(trees),
        page_sizes: page_sizes_of(trees, single_page),
    }
}

/// The sizes in `sizes` are the numbers in `pages`.
pub open spec fn sizes_are(sizes: Seq<usize>, pages: Seq<nat>) -> bool {
    &&& sizes.len() == pages.len()
    &&& forall|i: int| 0 <= i < sizes.len() ==> (#[trigger] sizes[i]) == pages[i]
}

/// In single-page mode there is exactly one page, and it has the size of
/// the whole output: the sum of the lengths of the outputs, which is the
/// number of their field elements.
pub proof fn lemma_single_page(trees: Seq<PackedTree>)
    ensures
        page_sizes_of(trees, true).len() == 1,
        page_sizes_of(trees, true)[0] == outputs_len(trees),
        page_sizes_of(trees, true)[0] == outputs_elements(trees).len(),
{
    lemma_outputs_elements_len(trees);
}

/// The child counts of the nodes of the output's tree, each node before its children.
pub fn tree_structure(output: &PackedOutput) -> (r: Vec<usize>)
    ensures
        r@ == arities(output@),
    decreases output,
{
    let mut out: Vec<usize> = Vec::new();
    match output {
        PackedOutput::Plain(_) => {
            out.push(0);
            proof {
                assert(out@ =~= seq![0usize]);
            }
        },
        PackedOutput::Composite { source, children } => {
            out.push(children.len());
            let ghost trees = trees_of(children@);
            proof {
                lemma_trees_of(children@);
                assert(trees.take(0) =~= Seq::<PackedTree>::empty());
                assert(out@ =~= seq![children@.len() as usize] + forest_arities(trees.take(0)));
            }
            let mut i: usize = 0;
            while i < children.len()
                invariant
                    i <= children.len(),
                    output is Composite,
                    output->children == *children,
                    trees == trees_of(children@),
                    trees.len() == children.len(),
                    out@ == seq![children@.len() as usize] + forest_arities(trees.take(i as int)),
                decreases children.len() - i,
            {
                let mut part = tree_structure(&children[i]);
                proof {
                    lemma_trees_of(children@);
                    assert(trees.take(i + 1).drop_last() =~= trees.take(i as int));
                    assert(trees.take(i + 1).last() == trees[i as int]);
                    assert(seq![children@.len() as usize] + forest_arities(trees.take(i as int))
                        + part@ =~= seq![children@.len() as usize] + (forest_arities(
                        trees.take(i as int),
                    ) + part@));
                }
                out.append(&mut part);
                i += 1;
            }
            proof {
                assert(trees.take(i as int) =~= trees);
            }
        },
    }
    out
}

/// The page sizes for a list of outputs that stand side by side. Fails when
/// the size of the whole output does not fit `usize`.
pub fn page_sizes(outputs: &Vec<PackedOutput>, single_page: bool) -> (r: Result<
    Vec<usize>,
    BootloaderError,
>)
    ensures
        r is Ok <==> outputs_len(trees_of(outputs@)) <= usize::MAX,
        r is Ok ==> sizes_are(r.unwrap()@, page_sizes_of(trees_of(outputs@), single_page)),
        r is Err ==> r == Err::<Vec<usize>, BootloaderError>(BootloaderError::AddressOverflow),
{
    let total = match outputs_size(outputs) {
        Some(total) => total,
        None => {
            return Err(BootloaderError::AddressOverflow);
        },
    };
    let mut sizes: Vec<usize> = Vec::new();
    if single_page {
        sizes.push(total);
        return Ok(sizes);
    }
    let ghost trees = trees_of(outputs@);
    proof {
        lemma_trees_of(outputs@);
    }
    let mut i: usize = 0;
    while i < outputs.len()
        invariant
            i <= outputs.len(),
            trees == trees_of(outputs@),
            trees.len() == outputs.len(),
            outputs_len(trees) <= usize::MAX,
            sizes.len() == i,
            forall|j: int| 0 <= j < i ==> (#[trigger] sizes[j]) == output_len(trees[j]),
        decreases outputs.len() - i,
    {
        proof {
            lemma_trees_of(outputs@);
            lemma_outputs_len_step(trees, i as int);
            lemma_outputs_len_prefix(trees, i + 1);
        }
        match outputs[i].output_size() {
            Some(size) => {
                sizes.push(size);
            },
            None => {
                return Err(BootloaderError::AddressOverflow);
            },
        }
        i += 1;
    }
    Ok(sizes)
}

/// The layout of one task's output.
///
/// The tree structure is that of the output. A plain output is one page; a
/// composite has one page for each child or, in single-page mode, one page
/// in all. Fails when the size of the output does not fit `usize`.
pub fn task_topology(output: &PackedOutput, single_page: bool) -> (r: Result<
    FactTopology,
    BootloaderError,
>)
    ensures
        r is Ok <==> output_len(output@) <= usize::MAX,
        r is Ok ==> r.unwrap()@ == task_topology_of(output@, single_page),
        r is Err ==> r == Err::<FactTopology, BootloaderError>(BootloaderError::AddressOverflow),
{
    let sizes = match output {
        PackedOutput::Plain(elements) => {
            let mut sizes: Vec<usize> = Vec::new();
            sizes.push(elements.len());
            sizes
        },
        PackedOutput::Composite { source, children } => match page_sizes(children, single_page) {
            Ok(sizes) => sizes,
            Err(e) => {
                return Err(e);
            },
        },
    };
    let topology = FactTopology { tree_structure: tree_structure(output), page_sizes: sizes };
    proof {
        assert(topology@.page_sizes =~= task_page_sizes(output@, single_page));
    }
    Ok(topology)
}

/// The layout of the output of a whole run, whose tasks left `outputs`.
///
/// The tree structure is that of a composite with the tasks' outputs as its
/// children. There is one page for each task or, in single-page mode, one
/// page in all, as large as all the outputs together. Fails when the size of
/// the whole output does not fit `usize`.
pub fn run_topology(outputs: &Vec<PackedOutput>, single_page: bool) -> (r: Result<
    FactTopology,
    BootloaderError,
>)
    ensures
        r is Ok <==> outputs_len(trees_of(outputs@)) <= usize::MAX,
        r is Ok ==> r.unwrap()@ == run_topology_of(trees_of(outputs@), single_page),
        r is Ok && single_page ==> r.unwrap().page_sizes@ == seq![
            outputs_len(trees_of(outputs@)) as usize,
        ],
        r is Err ==> r == Err::<FactTopology, BootloaderError>(BootloaderError::AddressOverflow),
{
    let sizes = match page_sizes(outputs, single_page) {
        Ok(sizes) => sizes,
        Err(e) => {
            return Err(e);
        },
    };
    let mut structure: Vec<usize> = Vec::new();
    structure.push(outputs.len());
    let ghost trees = trees_of(outputs@);
    proof {
        lemma_trees_of(outputs@);
        assert(trees.take(0) =~= Seq::<PackedTree>::empty());
        assert(structure@ =~= seq![outputs@.len() as usize] + forest_arities(trees.take(0)));
    }
    let mut i: usize = 0;
    while i < outputs.len()
        invariant
            i <= outputs.len(),
            trees == trees_of(outputs@),
            trees.len() == outputs.len(),
            structure@ == seq![outputs@.len() as usize] + forest_arities(trees.take(i as int)),
        decreases outputs.len() - i,
    {
        let mut part = tree_structure(&outputs[i]);
        proof {
            lemma_trees_of(outputs@);
            assert(trees.take(i + 1).drop_last() =~= trees.take(i as int));
            assert(trees.take(i + 1).last() == trees[i as int]);
            assert(seq![outputs@.len() as usize] + forest_arities(trees.take(i as int)) + part@
                =~= seq![outputs@.len() as usize] + (forest_arities(trees.take(i as int))
                + part@));
        }
        structure.append(&mut part);
        i += 1;
    }
    let topology = FactTopology { tree_structure: structure, page_sizes: sizes };
    proof {
        assert(trees.take(i as int) =~= trees);
        if single_page {
            assert(sizes@ =~= seq![outputs_len(trees) as usize]);
        }
        assert(topology@.page_sizes =~= page_sizes_of(trees, single_page));
    }
    Ok(topology)
}

/// Appends the output elements of `output` to `out`.
pub fn collect_output(output: &PackedOutput, out: &mut Vec<Felt>)
    ensures
        final(out)@ == old(out)@ + output_elements(output@),
    decreases output,
{
    match output {
        PackedOutput::Plain(elements) => {
            let mut i: usize = 0;
            proof {
                assert(out@ =~= old(out)@ + elements@.take(0));
            }
            while i < elements.len()
                invariant
                    i <= elements.len(),
                    out@ == old(out)@ + elements@.take(i as int),
                decreases elements.len() - i,
            {
                out.push(elements[i]);
                proof {
                    assert(elements@.take(i + 1) =~= elements@.take(i as int).push(
                        elements@[i as int],
                    ));
                }
                i += 1;
            }
            proof {
                assert(elements@.take(i as int) =~= elements@);
            }
        },
        PackedOutput::Composite { source, children } => {
            let ghost trees = trees_of(children@);
            proof {
                lemma_trees_of(children@);
                assert(trees.take(0) =~= Seq::<PackedTree>::empty());
                assert(out@ =~= old(out)@ + outputs_elements(trees.take(0)));
            }
            let mut i: usize = 0;
            while i < children.len()
                invariant
                    i <= children.len(),
                    output is Composite,
                    output->children == *children,
                    trees == trees_of(children@),
                    trees.len() == children.len(),
                    out@ == old(out)@ + outputs_elements(trees.take(i as int)),
                decreases children.len() - i,
            {
                let ghost before = out@;
                collect_output(&children[i], out);
                proof {
                    lemma_trees_of(children@);
                    assert(trees.take(i + 1).drop_last() =~= trees.take(i as int));
                    assert(trees.take(i + 1).last() == trees[i as int]);
                    assert(out@ =~= old(out)@ + outputs_elements(trees.take(i + 1)));
                }
                i += 1;
            }
            proof {
                assert(trees.take(i as int) =~= trees);
            }
        },
    }
}

/// The output region of a run: the output elements of its tasks' outputs, in order.
pub fn output_region(outputs: &Vec<PackedOutput>) -> (r: Vec<Felt>)
    ensures
        r@ == outputs_elements(trees_of(outputs@)),
{
    let mut out: Vec<Felt> = Vec::new();
    let ghost trees = trees_of(outputs@);
    proof {
        lemma_trees_of(outputs@);
        assert(trees.take(0) =~= Seq::<PackedTree>::empty());
    }
    let mut i: usize = 0;
    while i < outputs.len()
        invariant
            i <= outputs.len(),
            trees == trees_of(outputs@),
            trees.len() == outputs.len(),
            out@ == outputs_elements(trees.take(i as int)),
        decreases outputs.len() - i,
    {
        collect_output(&outputs[i], &mut out);
        proof {
            lemma_trees_of(outputs@);
            assert(trees.take(i + 1).drop_last() =~= trees.take(i as int));
            assert(trees.take(i + 1).last() == trees[i as int]);
        }
        i += 1;
    }
    proof {
        assert(trees.take(i as int) =~= trees);
    }
    out
}

/// Holds the size of an output against the size reserved for it.
///
/// The space for an output is reserved before the task runs, so an output
/// of any other size cannot be put right: it is a size mismatch.
pub fn check_output_size(reserved: usize, output: &PackedOutput) -> (r: Result<
    (),
    BootloaderError,
>)
    ensures
        r == (if output_len(output@) == reserved {
            Ok::<(), BootloaderError>(())
        } else {
            Err::<(), BootloaderError>(BootloaderError::OutputSizeMismatch)
        }),
{
    match output.output_size() {
        Some(size) => {
            if size == reserved {
                Ok(())
            } else {
                Err(BootloaderError::OutputSizeMismatch)
            }
        },
        None => Err(BootloaderError::OutputSizeMismatch),
    }
}

} // verus!
