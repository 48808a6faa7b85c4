//! Mind maps on the board: the tree, what a new one starts with, and its words.

use vstd::prelude::*;

use crate::item::Color;
use crate::kanban::{push_word, with_word};
use crate::text::{blank, only_white_space_is_trimmed_to_nothing, texts};

verus! {

/// How a node is drawn. Widths and sizes are in whole pixels.
#[derive(Clone, Copy, Debug, PartialEq, Eq, Structural)]
pub struct NodeStyle {
    pub fill: Color,
    pub border: Color,
    pub border_width: u32,
    pub connector: Color,
    pub connector_width: u32,
    /// `None` leaves the layout's own size.
    pub font_size: Option<u32>,
    pub bold: bool,
}

/// A node and everything under it. A folded node's children are hidden, not gone.
#[derive(Debug)]
pub struct Node {
    pub text: String,
    pub style: NodeStyle,
    pub folded: bool,
    pub children: Vec<Node>,
}

/// The words of a node and of everything under it, the node's own first, after `words`.
/// Folded branches count.
pub open spec fn words_under(words: Seq<Seq<char>>, node: Node) -> Seq<Seq<char>>
    decreases node,
{
    words_of_children(with_word(words, node.text@), node.children, node.children@.len())
}

/// The words of the first `count` children, one branch after another.
pub open spec fn words_of_children(
    words: Seq<Seq<char>>,
    children: Vec<Node>,
    count: nat,
) -> Seq<Seq<char>>
    decreases children, count,
{
    if count == 0 || count > children@.len() {
        words
    } else {
        words_under(words_of_children(words, children, (count - 1) as nat), children[count - 1])
    }
}

fn collect(node: &Node, list: &mut Vec<String>)
    ensures
        texts(final(list)@) == words_under(texts(old(list)@), *node),
    decreases node,
{
    let ghost before = texts(list@);
    push_word(list, node.text.as_str());
    let ghost own = texts(list@);
    let mut at: usize = 0;
    while at < node.children.len()
        invariant
            at <= node.children@.len(),
            texts(list@) == words_of_children(own, node.children, at as nat),
        decreases node.children@.len() - at,
    {
        proof {
            assert(decreases_to!(*node => node.children@[at as int]));
        }
        collect(&node.children[at], list);
        at = at + 1;
    }
}

/// Every word of a map, root first. Folded branches are counted in: a word that is merely
/// folded away is still on the board.
pub fn words(root: &Node) -> (list: Vec<String>)
    ensures
        texts(list@) == words_under(Seq::empty(), *root),
{
    let mut list: Vec<String> = Vec::new();
    proof {
        assert(texts(list@) =~= Seq::<Seq<char>>::empty());
    }
    collect(root, &mut list);
    list
}

/// How a branch of a new map is drawn: white, ringed in frost.
pub open spec fn branch_style() -> NodeStyle {
    NodeStyle {
        fill: Color { r: 0xFF, g: 0xFF, b: 0xFF, a: 255 },
        border: Color { r: 0xE5, g: 0xEA, b: 0xED, a: 255 },
        border_width: 1,
        connector: Color { r: 0x5C, g: 0x65, b: 0x6B, a: 255 },
        connector_width: 2,
        font_size: None,
        bold: false,
    }
}

/// How the root of a new map is drawn: ringed in the accent, larger and bold.
pub open spec fn root_style() -> NodeStyle {
    NodeStyle {
        border: Color { r: 0x00, g: 0xA3, b: 0x8C, a: 255 },
        border_width: 2,
        font_size: Some(18),
        bold: true,
        ..branch_style()
    }
}

fn new_node(text: &str, root: bool) -> (node: Node)
    ensures
        node.text@ == text@,
        node.style == (if root {
            root_style()
        } else {
            branch_style()
        }),
        !node.folded,
        node.children@.len() == 0,
{
    let branch = NodeStyle {
        fill: Color::rgb(0xFF, 0xFF, 0xFF),
        border: Color::rgb(0xE5, 0xEA, 0xED),
        border_width: 1,
        connector: Color::rgb(0x5C, 0x65, 0x6B),
        connector_width: 2,
        font_size: None,
        bold: false,
    };
    let style = if root {
        NodeStyle {
            border: Color::rgb(0x00, 0xA3, 0x8C),
            border_width: 2,
            font_size: Some(18),
            bold: true,
            ..branch
        }
    } else {
        branch
    };
    Node { text: text.to_owned(), style, folded: false, children: Vec::new() }
}

/// Whether a node is a leaf of a new map that reads `text`.
pub open spec fn is_leaf(node: Node, text: Seq<char>) -> bool {
    &&& node.text@ == text
    &&& node.style == branch_style()
    &&& !node.folded
    &&& node.children@.len() == 0
}

/// Whether a node is a branch of a new map that reads `text` with these leaves.
pub open spec fn is_branch(node: Node, text: Seq<char>, leaves: Seq<Seq<char>>) -> bool {
    &&& node.text@ == text
    &&& node.style == branch_style()
    &&& !node.folded
    &&& node.children@.len() == leaves.len()
    &&& forall|i: int|
        0 <= i < leaves.len() ==> is_leaf(#[trigger] node.children@[i], leaves[i])
}

/// What the mind-map tool places: a root and two levels under it. A lone box would look like
/// a sticky that failed to draw.
pub fn default_mindmap() -> (root: Node)
    ensures
        root.text@ == "Central idea"@,
        root.style == root_style(),
        !root.folded,
        root.children@.len() == 3,
        is_branch(root.children@[0], "Branch one"@, seq!["Detail"@, "Another detail"@]),
        is_branch(root.children@[1], "Branch two"@, seq!["Detail"@]),
        is_branch(root.children@[2], "Branch three"@, seq!["Detail"@, "Another detail"@]),
{
    let mut one = new_node("Branch one", false);
    one.children.push(new_node("Detail", false));
    one.children.push(new_node("Another detail", false));
    let mut two = new_node("Branch two", false);
    two.children.push(new_node("Detail", false));
    let mut three = new_node("Branch three", false);
    three.children.push(new_node("Detail", false));
    three.children.push(new_node("Another detail", false));
    let mut root = new_node("Central idea", true);
    root.children.push(one);
    root.children.push(two);
    root.children.push(three);
    root
}

/// The map a token names, given what it reads as: one that cannot be read is a new one.
pub fn decode(read: Option<Node>) -> (root: Node)
    ensures
        read is Some ==> root == read->0,
        read is None ==> root.text@ == "Central idea"@ && root.style == root_style()
            && !root.folded && root.children@.len() == 3 && is_branch(
            root.children@[0],
            "Branch one"@,
            seq!["Detail"@, "Another detail"@],
        ) && is_branch(root.children@[1], "Branch two"@, seq!["Detail"@]) && is_branch(
            root.children@[2],
            "Branch three"@,
            seq!["Detail"@, "Another detail"@],
        ),
{
    match read {
        Some(root) => root,
        None => default_mindmap(),
    }
}

/// Folding hides and does not delete: the words of a map are the same whether its root is
/// folded or not.
pub proof fn folding_keeps_the_words(words: Seq<Seq<char>>, node: Node, folded: bool)
    ensures
        words_under(words, Node { folded, ..node }) == words_under(words, node),
{
}

proof fn words_go_behind(words: Seq<Seq<char>>, node: Node)
    ensures
        words_under(words, node) == words + words_under(Seq::empty(), node),
    decreases node, 1nat,
{
    let none = Seq::<Seq<char>>::empty();
    let own = with_word(none, node.text@);
    let count = node.children@.len();
    children_go_behind(with_word(words, node.text@), node, count);
    children_go_behind(own, node, count);
    assert(with_word(words, node.text@) =~= words + own);
    let under = words_of_children(none, node.children, count);
    assert((words + own) + under =~= words + (own + under));
}

proof fn children_go_behind(words: Seq<Seq<char>>, node: Node, count: nat)
    requires
        count <= node.children@.len(),
    ensures
        words_of_children(words, node.children, count) == words + words_of_children(
            Seq::empty(),
            node.children,
            count,
        ),
    decreases node, 0nat, count,
{
    let none = Seq::<Seq<char>>::empty();
    if count > 0 {
        let child = node.children@[count - 1];
        assert(decreases_to!(node => node.children@[count - 1]));
        children_go_behind(words, node, (count - 1) as nat);
        let before = words_of_children(none, node.children, (count - 1) as nat);
        words_go_behind(words + before, child);
        words_go_behind(before, child);
        let under = words_under(none, child);
        assert((words + before) + under =~= words + (before + under));
    } else {
        assert(words + none =~= words);
    }
}

/// A map is read from its root: the node's own words first, and behind them everything its
/// children say, one branch after another.
pub proof fn a_map_is_read_branch_by_branch(node: Node, count: nat)
    requires
        count < node.children@.len(),
    ensures
        ({
            let none = Seq::<Seq<char>>::empty();
            let own = if exists|k: int| 0 <= k < node.text@.len() && !blank(#[trigger] node.text@[k]) {
                seq![node.text@]
            } else {
                none
            };
            &&& words_under(none, node) == own + words_of_children(
                none,
                node.children,
                node.children@.len(),
            )
            &&& words_of_children(none, node.children, 0) == none
            &&& words_of_children(none, node.children, count + 1) == words_of_children(
                none,
                node.children,
                count,
            ) + words_under(none, node.children@[count as int])
        }),
{
    let none = Seq::<Seq<char>>::empty();
    only_white_space_is_trimmed_to_nothing(node.text@);
    children_go_behind(with_word(none, node.text@), node, node.children@.len());
    let own = if exists|k: int| 0 <= k < node.text@.len() && !blank(#[trigger] node.text@[k]) {
        seq![node.text@]
    } else {
        none
    };
    assert(with_word(none, node.text@) =~= own);
    words_go_behind(
        words_of_children(none, node.children, count),
        node.children@[count as int],
    );
}

/// How the nodes of a new map are drawn: white and ringed in frost, a line of two pixels
/// between them; the root in the accent, two pixels wide, larger and bold.
pub proof fn a_new_map_is_ringed_in_frost()
    ensures
        branch_style().fill == (Color { r: 255, g: 255, b: 255, a: 255 }),
        branch_style().border == (Color { r: 229, g: 234, b: 237, a: 255 }),
        branch_style().border_width == 1,
        branch_style().connector == (Color { r: 92, g: 101, b: 107, a: 255 }),
        branch_style().connector_width == 2,
        branch_style().font_size is None,
        !branch_style().bold,
        root_style().fill == (Color { r: 255, g: 255, b: 255, a: 255 }),
        root_style().border == (Color { r: 0, g: 163, b: 140, a: 255 }),
        root_style().border_width == 2,
        root_style().connector == (Color { r: 92, g: 101, b: 107, a: 255 }),
        root_style().connector_width == 2,
        root_style().font_size == Some(18u32),
        root_style().bold,
{
}

/// The parts of a new map are as they are named: a leaf has its text, is open and has nothing
/// under it; a branch has its leaves under it in order.
pub proof fn the_parts_of_a_new_map_are_open(node: Node, text: Seq<char>, leaves: Seq<Seq<char>>, k: int)
    ensures
        is_leaf(node, text) ==> node.text@ == text && node.style == branch_style() && !node.folded
            && node.children@.len() == 0,
        is_branch(node, text, leaves) ==> node.text@ == text && node.style == branch_style()
            && !node.folded && node.children@.len() == leaves.len(),
        is_branch(node, text, leaves) && 0 <= k < leaves.len() ==> is_leaf(
            node.children@[k],
            leaves[k],
        ),
{
}

} // verus!
