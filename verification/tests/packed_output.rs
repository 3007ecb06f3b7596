use bootloader_core::error::BootloaderError;
use bootloader_core::fact_topology::{
    check_output_size, collect_output, output_region, page_sizes, run_topology, task_topology,
    tree_structure, FactTopology,
};
use bootloader_core::felt::Felt;
use bootloader_core::packed_output::{outputs_size, HashSource, PackedOutput};

fn felts(values: &[u64]) -> Vec<Felt> {
    values.iter().map(|v| Felt::from_u64(*v)).collect()
}

fn plain(values: &[u64]) -> PackedOutput {
    PackedOutput::Plain(felts(values))
}

fn known(hash: u64, children: Vec<PackedOutput>) -> PackedOutput {
    PackedOutput::Composite { source: HashSource::Known(Felt::from_u64(hash)), children }
}

fn pending(guess: usize, children: Vec<PackedOutput>) -> PackedOutput {
    PackedOutput::Composite { source: HashSource::Pending(guess), children }
}

fn nested() -> PackedOutput {
    known(
        77,
        vec![
            plain(&[1, 2]),
            pending(3, vec![plain(&[3]), known(5, vec![]), plain(&[4, 5])]),
            plain(&[]),
        ],
    )
}

#[test]
fn a_plain_leaf_is_its_tag_its_length_and_its_elements() {
    assert_eq!(plain(&[10, 20, 30]).encode(), felts(&[0, 3, 10, 20, 30]));
    assert_eq!(plain(&[]).encode(), felts(&[0, 0]));
}

#[test]
fn a_composite_is_its_tag_its_source_its_count_and_its_children() {
    assert_eq!(
        known(99, vec![plain(&[7]), plain(&[8, 9])]).encode(),
        felts(&[1, 0, 99, 2, 0, 1, 7, 0, 2, 8, 9])
    );
    assert_eq!(pending(4, vec![]).encode(), felts(&[1, 1, 4, 0]));
    assert_eq!(
        pending(1, vec![known(6, vec![plain(&[5])])]).encode(),
        felts(&[1, 1, 1, 1, 1, 0, 6, 1, 0, 1, 5])
    );
}

#[test]
fn encode_into_appends() {
    let mut out = felts(&[42]);
    plain(&[1]).encode_into(&mut out);
    pending(0, vec![]).encode_into(&mut out);
    assert_eq!(out, felts(&[42, 0, 1, 1, 1, 1, 0, 0]));
}

#[test]
fn decoding_an_encoding_gives_the_tree_back() {
    for tree in [plain(&[]), plain(&[1, 2, 3]), known(1, vec![]), pending(9, vec![]), nested()] {
        assert_eq!(PackedOutput::decode(&tree.encode()), Some(tree));
    }
}

#[test]
fn plain_leaves_keep_order_and_count() {
    let leaf = plain(&[5, 5, 1, 0, 5]);
    match PackedOutput::decode(&leaf.encode()) {
        Some(PackedOutput::Plain(elements)) => assert_eq!(elements, felts(&[5, 5, 1, 0, 5])),
        _ => panic!("not a plain leaf"),
    }
}

#[test]
fn large_elements_survive_the_round_trip() {
    let big = Felt::from_digits(9, 8, 7, 6).unwrap();
    let tree = PackedOutput::Composite {
        source: HashSource::Known(big),
        children: vec![PackedOutput::Plain(vec![big, Felt::from_u64(1)])],
    };
    assert_eq!(PackedOutput::decode(&tree.encode()), Some(tree));
}

#[test]
fn decode_at_tells_where_the_tree_ends() {
    let mut data = felts(&[42, 42]);
    plain(&[1, 2]).encode_into(&mut data);
    data.push(Felt::from_u64(42));
    assert_eq!(PackedOutput::decode_at(&data, 2), Some((plain(&[1, 2]), 6)));
    assert_eq!(PackedOutput::decode_at(&data, 6), None);
    assert_eq!(PackedOutput::decode_at(&data, 7), None);
    assert_eq!(PackedOutput::decode_at(&data, 8), None);
    assert_eq!(PackedOutput::decode_at(&data, usize::MAX), None);
}

#[test]
fn malformed_data_decodes_to_nothing() {
    // Nothing at all, or a tag alone.
    assert_eq!(PackedOutput::decode(&felts(&[])), None);
    assert_eq!(PackedOutput::decode(&felts(&[0])), None);
    // A tag that is none.
    assert_eq!(PackedOutput::decode(&felts(&[2, 0])), None);
    let wide_tag = Felt::from_digits(0, 1, 0, 0).unwrap();
    assert_eq!(PackedOutput::decode(&vec![wide_tag, Felt::from_u64(0)]), None);
    // A leaf shorter than its length says.
    assert_eq!(PackedOutput::decode(&felts(&[0, 3, 1, 2])), None);
    // Something behind the tree.
    assert_eq!(PackedOutput::decode(&felts(&[0, 1, 5, 6])), None);
    // A composite cut short, or with fewer children than its count says.
    assert_eq!(PackedOutput::decode(&felts(&[1, 0, 9])), None);
    assert_eq!(PackedOutput::decode(&felts(&[1, 0, 9, 2, 0, 0])), None);
    // A source tag that is none.
    assert_eq!(PackedOutput::decode(&felts(&[1, 2, 9, 0])), None);
    // A guess or a length too large to be one.
    let wide = Felt::from_digits(0, 1, 0, 0).unwrap();
    assert_eq!(
        PackedOutput::decode(&vec![Felt::from_u64(1), Felt::from_u64(1), wide, Felt::from_u64(0)]),
        None
    );
    assert_eq!(PackedOutput::decode(&vec![Felt::from_u64(0), wide]), None);
}

#[test]
fn plain_and_composite_are_told_apart() {
    assert!(plain(&[1]).is_plain());
    assert!(!plain(&[1]).is_composite());
    assert!(known(1, vec![]).is_composite());
    assert!(!pending(1, vec![]).is_plain());
}

#[test]
fn output_sizes_add_up() {
    assert_eq!(plain(&[1, 2, 3]).output_size(), Some(3));
    assert_eq!(plain(&[]).output_size(), Some(0));
    assert_eq!(known(1, vec![]).output_size(), Some(0));
    assert_eq!(nested().output_size(), Some(5));
    assert_eq!(outputs_size(&vec![plain(&[1, 2]), nested(), plain(&[3])]), Some(8));
    assert_eq!(outputs_size(&vec![]), Some(0));
}

#[test]
fn the_tree_structure_lists_child_counts_parents_first() {
    assert_eq!(tree_structure(&plain(&[1, 2])), vec![0]);
    assert_eq!(tree_structure(&known(1, vec![])), vec![0]);
    assert_eq!(tree_structure(&known(1, vec![plain(&[1]), plain(&[2])])), vec![2, 0, 0]);
    assert_eq!(tree_structure(&nested()), vec![3, 0, 3, 0, 0, 0, 0]);
}

#[test]
fn a_plain_task_is_one_page() {
    let expected = FactTopology { tree_structure: vec![0], page_sizes: vec![3] };
    assert_eq!(task_topology(&plain(&[1, 2, 3]), false), Ok(expected));
    let expected = FactTopology { tree_structure: vec![0], page_sizes: vec![3] };
    assert_eq!(task_topology(&plain(&[1, 2, 3]), true), Ok(expected));
}

#[test]
fn a_composite_task_is_cut_where_its_children_meet() {
    let expected =
        FactTopology { tree_structure: vec![3, 0, 3, 0, 0, 0, 0], page_sizes: vec![2, 3, 0] };
    assert_eq!(task_topology(&nested(), false), Ok(expected));
    let expected =
        FactTopology { tree_structure: vec![3, 0, 3, 0, 0, 0, 0], page_sizes: vec![5] };
    assert_eq!(task_topology(&nested(), true), Ok(expected));
}

#[test]
fn a_run_has_one_page_for_each_task() {
    let outputs = vec![plain(&[1, 2]), nested(), plain(&[3])];
    let expected = FactTopology {
        tree_structure: vec![3, 0, 3, 0, 3, 0, 0, 0, 0, 0],
        page_sizes: vec![2, 5, 1],
    };
    assert_eq!(run_topology(&outputs, false), Ok(expected));
    assert_eq!(page_sizes(&outputs, false), Ok(vec![2, 5, 1]));
}

#[test]
fn in_single_page_mode_a_run_has_one_page_of_the_whole_size() {
    let outputs = vec![plain(&[1, 2]), nested(), plain(&[3])];
    let expected = FactTopology {
        tree_structure: vec![3, 0, 3, 0, 3, 0, 0, 0, 0, 0],
        page_sizes: vec![8],
    };
    assert_eq!(run_topology(&outputs, true), Ok(expected));
    assert_eq!(page_sizes(&outputs, true), Ok(vec![8]));
    assert_eq!(output_region(&outputs).len(), 8);
}

#[test]
fn a_run_without_tasks_has_an_empty_layout() {
    let expected = FactTopology { tree_structure: vec![0], page_sizes: vec![0] };
    assert_eq!(run_topology(&vec![], true), Ok(expected));
    let expected = FactTopology { tree_structure: vec![0], page_sizes: vec![] };
    assert_eq!(run_topology(&vec![], false), Ok(expected));
}

#[test]
fn the_output_region_is_the_elements_in_order() {
    assert_eq!(output_region(&vec![plain(&[1, 2]), plain(&[3])]), felts(&[1, 2, 3]));
    assert_eq!(output_region(&vec![nested(), plain(&[9])]), felts(&[1, 2, 3, 4, 5, 9]));
    assert_eq!(output_region(&vec![]), felts(&[]));
    let mut out = felts(&[0]);
    collect_output(&nested(), &mut out);
    assert_eq!(out, felts(&[0, 1, 2, 3, 4, 5]));
}

#[test]
fn an_output_of_the_reserved_size_is_accepted() {
    assert_eq!(check_output_size(3, &plain(&[1, 2, 3])), Ok(()));
    assert_eq!(check_output_size(5, &nested()), Ok(()));
    assert_eq!(check_output_size(0, &known(1, vec![])), Ok(()));
}

#[test]
fn an_output_of_another_size_is_a_mismatch() {
    assert_eq!(check_output_size(2, &plain(&[1, 2, 3])), Err(BootloaderError::OutputSizeMismatch));
    assert_eq!(check_output_size(4, &plain(&[1, 2, 3])), Err(BootloaderError::OutputSizeMismatch));
    assert_eq!(check_output_size(6, &nested()), Err(BootloaderError::OutputSizeMismatch));
}
