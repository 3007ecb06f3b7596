//! The packed output of a task: a plain run of field elements, or a
//! composite of the packed outputs of its subtasks. Its encoding as field
//! elements, and the decoding that undoes it.

use vstd::prelude::*;
use crate::felt::Felt;

verus! {

/// Where the program hash of a composite output comes from.
#[derive(Clone, Copy, Debug, PartialEq, Eq, Structural, Hash)]
pub enum HashSource {
    /// The hash is known.
    Known(Felt),
    /// The hash is not known yet; space was reserved for an output of the
    /// guessed size.
    Pending(usize),
}

/// The packed output of a task.
#[derive(Debug, PartialEq, Eq)]
pub enum PackedOutput {
    /// The task's own output, as it stands.
    Plain(Vec<Felt>),
    /// The outputs of the task's subtasks, in order.
    Composite { source: HashSource, children: Vec<PackedOutput> },
}

/// The mathematical tree that a packed output stands for.
pub enum PackedTree {
    Plain(Seq<Felt>),
    Composite { source: HashSource, children: Seq<PackedTree> },
}

/// The tree that a packed output stands for.
pub open spec fn tree_of(output: PackedOutput) -> PackedTree
    decreases output, 0nat,
{
    match output {
        PackedOutput::Plain(elements) => PackedTree::Plain(elements@),
        PackedOutput::Composite { source, children } => PackedTree::Composite {
            source,
            children: trees_of(children@),
        },
    }
}

/// The trees that a list of packed outputs stands for.
pub open spec fn trees_of(outputs: Seq<PackedOutput>) -> Seq<PackedTree>
    decreases outputs, 1nat,
{
    if outputs.len() == 0 {
        Seq::empty()
    } else {
        trees_of(outputs.drop_last()).push(tree_of(outputs.last()))
    }
}

impl View for PackedOutput {
    type V = PackedTree;

    open spec fn view(&self) -> PackedTree {
        tree_of(*self)
    }
}

/// The trees of a list are the trees of its elements, one for one.
pub proof fn lemma_trees_of(outputs: Seq<PackedOutput>)
    ensures
        trees_of(outputs).len() == outputs.len(),
        forall|i: int|
            0 <= i < outputs.len() ==> (#[trigger] trees_of(outputs)[i]) == tree_of(outputs[i]),
    decreases outputs.len(),
{
    if outputs.len() > 0 {
        lemma_trees_of(outputs.drop_last());
        assert forall|i: int| 0 <= i < outputs.len() implies (#[trigger] trees_of(outputs)[i])
            == tree_of(outputs[i]) by {
            if i < outputs.len() - 1 {
                assert(outputs.drop_last()[i] == outputs[i]);
            }
        }
    }
}

/// How many field elements a tree contributes to the output: those of a
/// plain leaf, and for a composite those of its children.
pub open spec fn output_len(tree: PackedTree) -> nat
    decreases tree, 0nat,
{
    match tree {
        PackedTree::Plain(elements) => elements.len(),
        PackedTree::Composite { source, children } => outputs_len(children),
    }
}

/// How many field elements the trees contribute together.
pub open spec fn outputs_len(trees: Seq<PackedTree>) -> nat
    decreases trees, 1nat,
{
    if trees.len() == 0 {
        0
    } else {
        outputs_len(trees.drop_last()) + output_len(trees.last())
    }
}

/// The child counts of the nodes of a tree, each node before its children:
/// 0 for a plain leaf, the number of children for a composite.
pub open spec fn arities(tree: PackedTree) -> Seq<usize>
    decreases tree, 0nat,
{
    match tree {
        PackedTree::Plain(_) => seq![0usize],
        PackedTree::Composite { source, children } => seq![children.len() as usize]
            + forest_arities(children),
    }
}

/// The child counts of the nodes of the trees, tree after tree.
pub open spec fn forest_arities(trees: Seq<PackedTree>) -> Seq<usize>
    decreases trees, 1nat,
{
    if trees.len() == 0 {
        Seq::empty()
    } else {
        forest_arities(trees.drop_last()) + arities(trees.last())
    }
}

/// The tag that opens the encoding of a plain leaf.
pub const TAG_PLAIN: u64 = 0;

/// The tag that opens the encoding of a composite.
pub const TAG_COMPOSITE: u64 = 1;

/// The tag of a known hash.
pub const TAG_KNOWN: u64 = 0;

/// The tag of a pending hash.
pub const TAG_PENDING: u64 = 1;

/// The two field elements that encode a hash source: its tag, then the hash
/// or the guessed size.
pub open spec fn encode_source(source: HashSource) -> Seq<Felt> {
    match source {
        HashSource::Known(hash) => seq![Felt::from_nat(TAG_KNOWN as nat), hash],
        HashSource::Pending(guess) => seq![
            Felt::from_nat(TAG_PENDING as nat),
            Felt::from_nat(guess as nat),
        ],
    }
}

/// The encoding of a tree. A plain leaf is its tag, its length and its
/// elements; a composite is its tag, its hash source, the number of its
/// children and the encodings of the children in order.
pub open spec fn encode_tree(tree: PackedTree) -> Seq<Felt>
    decreases tree, 0nat,
{
    match tree {
        PackedTree::Plain(elements) => seq![
            Felt::from_nat(TAG_PLAIN as nat),
            Felt::from_nat(elements.len()),
        ] + elements,
        PackedTree::Composite { source, children } => seq![Felt::from_nat(TAG_COMPOSITE as nat)]
            + encode_source(source) + seq![Felt::from_nat(children.len())] + encode_trees(children),
    }
}

/// The encodings of the trees, one after the other.
pub open spec fn encode_trees(trees: Seq<PackedTree>) -> Seq<Felt>
    decreases trees, 1nat,
{
    if trees.len() == 0 {
        Seq::empty()
    } else {
        encode_trees(trees.drop_last()) + encode_tree(trees.last())
    }
}

/// The hash source that a tag and a payload encode, if they encode one.
pub open spec fn parse_source(tag: Felt, payload: Felt) -> Option<HashSource> {
    if tag.value() == TAG_KNOWN {
        Some(HashSource::Known(payload))
    } else if tag.value() == TAG_PENDING && payload.value() <= usize::MAX {
        Some(HashSource::Pending(payload.value() as usize))
    } else {
        None
    }
}

/// The tree that the front of `data` encodes and what follows it, if the
/// front of `data` encodes a tree.
pub open spec fn parse_tree(data: Seq<Felt>) -> Option<(PackedTree, Seq<Felt>)>
    decreases data.len(), 0nat,
{
    if data.len() < 2 {
        None
    } else if data[0].value() == TAG_PLAIN {
        let n = data[1].value() as int;
        if 2 + n <= data.len() {
            Some((PackedTree::Plain(data.subrange(2, 2 + n)), data.skip(2 + n)))
        } else {
            None
        }
    } else if data[0].value() == TAG_COMPOSITE && data.len() >= 4 && data[3].value()
        <= usize::MAX {
        match (parse_source(data[1], data[2]), parse_trees(data.skip(4), data[3].value())) {
            (Some(source), Some((children, rest))) => Some(
                (PackedTree::Composite { source, children }, rest),
            ),
            _ => None,
        }
    } else {
        None
    }
}

/// The `n` trees that the front of `data` encodes and what follows them, if
/// it encodes that many. Every tree takes up some of the data.
pub open spec fn parse_trees(data: Seq<Felt>, n: nat) -> Option<(Seq<PackedTree>, Seq<Felt>)>
    decreases data.len(), 1 + n,
{
    if n == 0 {
        Some((Seq::empty(), data))
    } else {
        match parse_tree(data) {
            Some((tree, rest)) => {
                if rest.len() < data.len() {
                    match parse_trees(rest, (n - 1) as nat) {
                        Some((trees, rest)) => Some((seq![tree] + trees, rest)),
                        None => None,
                    }
                } else {
                    None
                }
            },
            None => None,
        }
    }
}

/// The tree that `data` encodes, if it encodes one and nothing more.
pub open spec fn decode_tree(data: Seq<Felt>) -> Option<PackedTree> {
    match parse_tree(data) {
        Some((tree, rest)) => if rest.len() == 0 {
            Some(tree)
        } else {
            None
        },
        None => None,
    }
}

/// Every list in the tree is short enough for its length to be held in a
/// `usize`, as the lists of every packed output are.
pub open spec fn encodable(tree: PackedTree) -> bool
    decreases tree,
{
    match tree {
        PackedTree::Plain(elements) => elements.len() <= usize::MAX,
        PackedTree::Composite { source, children } => children.len() <= usize::MAX && forall|
            i: int,
        | 0 <= i < children.len() ==> encodable(#[trigger] children[i]),
    }
}

/// The encoding of a list of trees starts with the encoding of the first.
pub proof fn lemma_encode_trees_front(trees: Seq<PackedTree>)
    requires
        trees.len() > 0,
    ensures
        encode_trees(trees) == encode_tree(trees[0]) + encode_trees(trees.drop_first()),
    decreases trees.len(),
{
    if trees.len() == 1 {
        assert(trees.drop_last() =~= Seq::<PackedTree>::empty());
        assert(trees.drop_first() =~= Seq::<PackedTree>::empty());
        assert(encode_trees(trees.drop_last()) =~= Seq::<Felt>::empty());
        assert(encode_trees(trees) =~= encode_tree(trees[0]) + encode_trees(trees.drop_first()));
    } else {
        lemma_encode_trees_front(trees.drop_last());
        assert(trees.drop_first().drop_last() =~= trees.drop_last().drop_first());
        assert(trees.drop_first().last() == trees.last());
        assert(trees.drop_last()[0] == trees[0]);
        assert(encode_trees(trees) =~= encode_tree(trees[0]) + encode_trees(trees.drop_first()));
    }
}

/// The encoding of a list of trees with one more tree at its end.
pub proof fn lemma_encode_trees_push(trees: Seq<PackedTree>, tree: PackedTree)
    ensures
        encode_trees(trees.push(tree)) == encode_trees(trees) + encode_tree(tree),
{
    assert(trees.push(tree).drop_last() =~= trees);
}

/// The encoding of a tree has at least its tag and one more element.
pub proof fn lemma_encode_tree_len(tree: PackedTree)
    ensures
        encode_tree(tree).len() >= 2,
{
    match tree {
        PackedTree::Plain(elements) => {},
        PackedTree::Composite { source, children } => {},
    }
}

/// Parsing the encoding of a tree gives back the tree, and leaves what
/// follows the encoding.
pub proof fn lemma_parse_encode(tree: PackedTree, rest: Seq<Felt>)
    requires
        encodable(tree),
    ensures
        parse_tree(encode_tree(tree) + rest) == Some((tree, rest)),
    decreases tree, 0nat,
{
    let data = encode_tree(tree) + rest;
    match tree {
        PackedTree::Plain(elements) => {
            Felt::lemma_from_nat(TAG_PLAIN as nat);
            Felt::lemma_from_nat(elements.len());
            let n = elements.len() as int;
            assert(data[0] == Felt::from_nat(TAG_PLAIN as nat));
            assert(data[1] == Felt::from_nat(elements.len()));
            assert(data.subrange(2, 2 + n) =~= elements);
            assert(data.skip(2 + n) =~= rest);
        },
        PackedTree::Composite { source, children } => {
            Felt::lemma_from_nat(TAG_COMPOSITE as nat);
            Felt::lemma_from_nat(TAG_KNOWN as nat);
            Felt::lemma_from_nat(TAG_PENDING as nat);
            Felt::lemma_from_nat(children.len());
            assert(data[0] == Felt::from_nat(TAG_COMPOSITE as nat));
            assert(data[1] == encode_source(source)[0]);
            assert(data[2] == encode_source(source)[1]);
            assert(data[3] == Felt::from_nat(children.len()));
            match source {
                HashSource::Known(hash) => {},
                HashSource::Pending(guess) => {
                    Felt::lemma_from_nat(guess as nat);
                },
            }
            assert(parse_source(data[1], data[2]) == Some(source));
            assert(data.skip(4) =~= encode_trees(children) + rest);
            lemma_parse_encode_trees(children, rest);
        },
    }
}

/// Parsing the encodings of a list of trees gives back the trees, and
/// leaves what follows the encodings.
pub proof fn lemma_parse_encode_trees(trees: Seq<PackedTree>, rest: Seq<Felt>)
    requires
        forall|i: int| 0 <= i < trees.len() ==> encodable(#[trigger] trees[i]),
    ensures
        parse_trees(encode_trees(trees) + rest, trees.len()) == Some((trees, rest)),
    decreases trees, 1nat,
{
    let data = encode_trees(trees) + rest;
    if trees.len() == 0 {
        assert(data =~= rest);
        assert(trees =~= Seq::<PackedTree>::empty());
    } else {
        let first = trees[0];
        let others = trees.drop_first();
        let after_first = encode_trees(others) + rest;
        lemma_encode_trees_front(trees);
        lemma_encode_tree_len(first);
        assert(data =~= encode_tree(first) + after_first);
        lemma_parse_encode(first, after_first);
        assert forall|i: int| 0 <= i < others.len() implies encodable(#[trigger] others[i]) by {
            assert(others[i] == trees[i + 1]);
        }
        lemma_parse_encode_trees(others, rest);
        assert(seq![first] + others =~= trees);
    }
}

/// Decoding the encoding of a tree gives back the tree.
pub proof fn lemma_decode_encode(tree: PackedTree)
    requires
        encodable(tree),
    ensures
        decode_tree(encode_tree(tree)) == Some(tree),
{
    lemma_parse_encode(tree, Seq::empty());
    assert(encode_tree(tree) + Seq::<Felt>::empty() =~= encode_tree(tree));
}

/// Encoding a packed output and decoding what comes out gives the tree of
/// the output back: every leaf with its elements in their order, every
/// composite with its hash source and its children in their order.
pub proof fn lemma_round_trip(output: PackedOutput)
    ensures
        decode_tree(encode_tree(output@)) == Some(output@),
{
    lemma_output_encodable(output);
    lemma_decode_encode(output@);
}

/// The tree of every packed output can be encoded.
pub proof fn lemma_output_encodable(output: PackedOutput)
    ensures
        encodable(output@),
    decreases output,
{
    match output {
        PackedOutput::Plain(elements) => {
            assert(elements@.len() == elements.len());
        },
        PackedOutput::Composite { source, children } => {
            assert(children@.len() == children.len());
            lemma_trees_of(children@);
            assert forall|i: int| 0 <= i < trees_of(children@).len() implies encodable(
                #[trigger] trees_of(children@)[i],
            ) by {
                lemma_output_encodable(children@[i]);
            }
        },
    }
}

/// `found` trees, followed by what parsing the rest gives.
pub open spec fn parsed_so_far(
    found: Seq<PackedTree>,
    more: Option<(Seq<PackedTree>, Seq<Felt>)>,
) -> Option<(Seq<PackedTree>, Seq<Felt>)> {
    match more {
        Some((trees, rest)) => Some((found + trees, rest)),
        None => None,
    }
}

/// What `decode_at` returns for `data` from position `pos` on: the tree that
/// stands there and the position behind it, or nothing where no tree stands.
pub open spec fn decoded_at(data: Seq<Felt>, pos: int, r: Option<(PackedOutput, usize)>) -> bool {
    match parse_tree(data.skip(pos)) {
        Some((tree, rest)) => {
            &&& r is Some
            &&& r.unwrap().0@ == tree
            &&& pos <= r.unwrap().1 <= data.len()
            &&& data.skip(r.unwrap().1 as int) == rest
        },
        None => r is None,
    }
}

fn decode_source(tag: &Felt, payload: &Felt) -> (r: Option<HashSource>)
    ensures
        r == parse_source(*tag, *payload),
{
    match tag.to_u64() {
        Some(TAG_KNOWN) => Some(HashSource::Known(*payload)),
        Some(TAG_PENDING) => match payload.to_usize() {
            Some(guess) => Some(HashSource::Pending(guess)),
            None => None,
        },
        _ => None,
    }
}

fn encode_source_into(source: &HashSource, out: &mut Vec<Felt>)
    ensures
        final(out)@ == old(out)@ + encode_source(*source),
{
    match source {
        HashSource::Known(hash) => {
            out.push(Felt::from_u64(TAG_KNOWN));
            out.push(*hash);
        },
        HashSource::Pending(guess) => {
            out.push(Felt::from_u64(TAG_PENDING));
            out.push(Felt::from_usize(*guess));
        },
    }
    proof {
        assert(out@ =~= old(out)@ + encode_source(*source));
    }
}

impl PackedOutput {
    /// Whether the output is a plain leaf.
    pub fn is_plain(&self) -> (r: bool)
        ensures
            r == (self@ is Plain),
    {
        match self {
            PackedOutput::Plain(_) => true,
            PackedOutput::Composite { .. } => false,
        }
    }

    /// Whether the output is a composite.
    pub fn is_composite(&self) -> (r: bool)
        ensures
            r == (self@ is Composite),
    {
        !self.is_plain()
    }

    /// How many field elements the output contributes; `None` when the
    /// number does not fit `usize`.
    pub fn output_size(&self) -> (r: Option<usize>)
        ensures
            r == (if output_len(self@) <= usize::MAX {
                Some(output_len(self@) as usize)
            } else {
                None
            }),
        decreases self,
    {
        match self {
            PackedOutput::Plain(elements) => Some(elements.len()),
            PackedOutput::Composite { source, children } => outputs_size(children),
        }
    }

    /// Appends the encoding of the output to `out`.
    pub fn encode_into(&self, out: &mut Vec<Felt>)
        ensures
            final(out)@ == old(out)@ + encode_tree(self@),
        decreases self,
    {
        match self {
            PackedOutput::Plain(elements) => {
                out.push(Felt::from_u64(TAG_PLAIN));
                out.push(Felt::from_usize(elements.len()));
                let mut i: usize = 0;
                while i < elements.len()
                    invariant
                        i <= elements.len(),
                        out@ == old(out)@ + seq![
                            Felt::from_nat(TAG_PLAIN as nat),
                            Felt::from_nat(elements@.len()),
                        ] + elements@.take(i as int),
                    decreases elements.len() - i,
                {
                    out.push(elements[i]);
                    proof {
                        assert(elements@.take(i + 1) =~= elements@.take(i as int).push(
                            elements@[i as int],
                        ));
                    }
                    i += 1;
                }
                proof {
                    assert(elements@.take(i as int) =~= elements@);
                }
            },
            PackedOutput::Composite { source, children } => {
                out.push(Felt::from_u64(TAG_COMPOSITE));
                encode_source_into(source, out);
                out.push(Felt::from_usize(children.len()));
                let ghost head = old(out)@ + seq![Felt::from_nat(TAG_COMPOSITE as nat)]
                    + encode_source(*source) + seq![Felt::from_nat(children@.len())];
                let ghost trees = trees_of(children@);
                proof {
                    lemma_trees_of(children@);
                    assert(trees.take(0) =~= Seq::<PackedTree>::empty());
                    assert(out@ =~= head + encode_trees(trees.take(0)));
                }
                let mut i: usize = 0;
                while i < children.len()
                    invariant
                        i <= children.len(),
                        self is Composite,
                        self->children == *children,
                        trees == trees_of(children@),
                        trees.len() == children.len(),
                        out@ == head + encode_trees(trees.take(i as int)),
                    decreases children.len() - i,
                {
                    children[i].encode_into(out);
                    proof {
                        lemma_trees_of(children@);
                        lemma_encode_trees_push(trees.take(i as int), trees[i as int]);
                        assert(trees.take(i + 1) =~= trees.take(i as int).push(trees[i as int]));
                    }
                    i += 1;
                }
                proof {
                    assert(trees.take(i as int) =~= trees);
                    assert(out@ =~= old(out)@ + encode_tree(self@));
                }
            },
        }
    }

    /// The encoding of the output.
    pub fn encode(&self) -> (r: Vec<Felt>)
        ensures
            r@ == encode_tree(self@),
    {
        let mut out: Vec<Felt> = Vec::new();
        self.encode_into(&mut out);
        proof {
            assert(Seq::<Felt>::empty() + encode_tree(self@) =~= encode_tree(self@));
        }
        out
    }

    /// The output that `data` encodes from position `pos` on, and the
    /// position behind its encoding. A position behind the data holds nothing.
    pub fn decode_at(data: &Vec<Felt>, pos: usize) -> (r: Option<(PackedOutput, usize)>)
        ensures
            pos <= data.len() ==> decoded_at(data@, pos as int, r),
            pos > data.len() ==> r is None,
        decreases data.len() - pos,
    {
        let ghost tail = data@.skip(pos as int);
        if pos > data.len() || data.len() - pos < 2 {
            return None;
        }
        proof {
            assert(tail[0] == data@[pos as int]);
            assert(tail[1] == data@[pos + 1]);
        }
        match data[pos].to_u64() {
            Some(TAG_PLAIN) => {
                let n = match data[pos + 1].to_usize() {
                    Some(n) => n,
                    None => {
                        return None;
                    },
                };
                if n > data.len() - pos - 2 {
                    return None;
                }
                let mut elements: Vec<Felt> = Vec::new();
                let mut j: usize = 0;
                while j < n
                    invariant
                        j <= n,
                        pos + 2 + n <= data.len(),
                        elements@ == data@.subrange(pos + 2, pos + 2 + j),
                    decreases n - j,
                {
                    elements.push(data[pos + 2 + j]);
                    proof {
                        assert(data@.subrange(pos + 2, pos + 2 + j + 1) =~= data@.subrange(
                            pos + 2,
                            pos + 2 + j,
                        ).push(data@[pos + 2 + j]));
                    }
                    j += 1;
                }
                proof {
                    assert(tail.subrange(2, 2 + n) =~= data@.subrange(pos + 2, pos + 2 + n));
                    assert(tail.skip(2 + n) =~= data@.skip(pos + 2 + n));
                }
                Some((PackedOutput::Plain(elements), pos + 2 + n))
            },
            Some(TAG_COMPOSITE) => {
                if data.len() - pos < 4 {
                    return None;
                }
                proof {
                    assert(tail[2] == data@[pos + 2]);
                    assert(tail[3] == data@[pos + 3]);
                    assert(tail.skip(4) =~= data@.skip(pos + 4));
                }
                let n = match data[pos + 3].to_usize() {
                    Some(n) => n,
                    None => {
                        return None;
                    },
                };
                let source = match decode_source(&data[pos + 1], &data[pos + 2]) {
                    Some(source) => source,
                    None => {
                        return None;
                    },
                };
                let mut children: Vec<PackedOutput> = Vec::new();
                let mut at: usize = pos + 4;
                let mut i: usize = 0;
                let ghost whole = parse_trees(data@.skip(pos + 4), n as nat);
                let ghost outcome = parse_tree(tail);
                proof {
                    assert(outcome == match whole {
                        Some((trees, rest)) => Some(
                            (PackedTree::Composite { source, children: trees }, rest),
                        ),
                        None => None,
                    });
                    assert(trees_of(children@) =~= Seq::<PackedTree>::empty());
                    if whole is Some {
                        assert(Seq::<PackedTree>::empty() + whole.unwrap().0 =~= whole.unwrap().0);
                    }
                }
                while i < n
                    invariant
                        i <= n,
                        pos + 4 <= at <= data.len(),
                        outcome == parse_tree(data@.skip(pos as int)),
                        outcome is None <==> whole is None,
                        whole == parsed_so_far(
                            trees_of(children@),
                            parse_trees(data@.skip(at as int), (n - i) as nat),
                        ),
                    decreases n - i,
                {
                    let ghost found = trees_of(children@);
                    let ghost here = data@.skip(at as int);
                    match Self::decode_at(data, at) {
                        Some((child, next)) => {
                            if next <= at {
                                return None;
                            }
                            proof {
                                let more = parse_trees(data@.skip(next as int), (n - i - 1) as nat);
                                assert(children@.push(child).drop_last() =~= children@);
                                if more is Some {
                                    assert(found + (seq![child@] + more.unwrap().0) =~= found.push(
                                        child@,
                                    ) + more.unwrap().0);
                                }
                            }
                            children.push(child);
                            at = next;
                            i += 1;
                        },
                        None => {
                            return None;
                        },
                    }
                }
                proof {
                    assert(trees_of(children@) + Seq::<PackedTree>::empty() =~= trees_of(
                        children@,
                    ));
                }
                Some((PackedOutput::Composite { source, children }, at))
            },
            _ => None,
        }
    }

    /// The output that `data` encodes, if it encodes one and nothing more.
    pub fn decode(data: &Vec<Felt>) -> (r: Option<PackedOutput>)
        ensures
            match decode_tree(data@) {
                Some(tree) => r is Some && r.unwrap()@ == tree,
                None => r is None,
            },
    {
        proof {
            assert(data@.skip(0) =~= data@);
        }
        match Self::decode_at(data, 0) {
            Some((output, next)) => {
                if next == data.len() {
                    Some(output)
                } else {
                    None
                }
            },
            None => None,
        }
    }
}

/// How many field elements the outputs contribute together; `None` when the
/// number does not fit `usize`.
pub fn outputs_size(outputs: &Vec<PackedOutput>) -> (r: Option<usize>)
    ensures
        r == (if outputs_len(trees_of(outputs@)) <= usize::MAX {
            Some(outputs_len(trees_of(outputs@)) as usize)
        } else {
            None
        }),
    decreases outputs,
{
    let mut total: usize = 0;
    let mut i: usize = 0;
    let ghost trees = trees_of(outputs@);
    proof {
        lemma_trees_of(outputs@);
        assert(trees.take(0) =~= Seq::<PackedTree>::empty());
    }
    while i < outputs.len()
        invariant
            i <= outputs.len(),
            trees == trees_of(outputs@),
            trees.len() == outputs.len(),
            total == outputs_len(trees.take(i as int)),
        decreases outputs.len() - i,
    {
        proof {
            lemma_trees_of(outputs@);
            lemma_outputs_len_step(trees, i as int);
            lemma_outputs_len_prefix(trees, i + 1);
        }
        let size = match outputs[i].output_size() {
            Some(size) => size,
            None => {
                return None;
            },
        };
        total = match total.checked_add(size) {
            Some(total) => total,
            None => {
                return None;
            },
        };
        i += 1;
    }
    proof {
        assert(trees.take(i as int) =~= trees);
    }
    Some(total)
}

/// The first `i + 1` trees contribute what the first `i` do and what tree `i` does.
pub proof fn lemma_outputs_len_step(trees: Seq<PackedTree>, i: int)
    requires
        0 <= i < trees.len(),
    ensures
        outputs_len(trees.take(i + 1)) == outputs_len(trees.take(i)) + output_len(trees[i]),
{
    assert(trees.take(i + 1).drop_last() =~= trees.take(i));
}

/// A prefix of a list of trees contributes no more than the list.
pub proof fn lemma_outputs_len_prefix(trees: Seq<PackedTree>, i: int)
    requires
        0 <= i <= trees.len(),
    ensures
        outputs_len(trees.take(i)) <= outputs_len(trees),
    decreases trees.len() - i,
{
    if i == trees.len() {
        assert(trees.take(i) =~= trees);
    } else {
        lemma_outputs_len_step(trees, i);
        lemma_outputs_len_prefix(trees, i + 1);
    }
}

} // verus!
