use vstd::prelude::*;

use crate::block::{Block, BlockView};
use crate::crdt::{with_item, CrdtId, CrdtSequenceItem};
use crate::parse_error::{ParseError, ParseErrorKind};
use crate::scene_item::{empty_group, Group, GroupView, SceneItem, SceneItemView, Text, TextView};

verus! {

/// The groups of a page, each with its children, keyed by node id; and the
/// page's own text, if any.
#[derive(Debug)]
pub struct SceneTree {
    pub nodes: Vec<Group>,
    pub root_id: CrdtId,
    pub root_text: Option<Text>,
}

pub struct SceneTreeView {
    pub nodes: Seq<GroupView>,
    pub root_id: CrdtId,
    pub root_text: Option<TextView>,
}

impl View for SceneTree {
    type V = SceneTreeView;

    open spec fn view(&self) -> SceneTreeView {
        SceneTreeView {
            nodes: self.nodes@.map_values(|g: Group| g@),
            root_id: self.root_id,
            root_text: match self.root_text {
                Some(t) => Some(t@),
                None => None,
            },
        }
    }
}

/// The id of the root group.
pub open spec fn root_node_id() -> CrdtId {
    CrdtId { part1: 0, part2: 1 }
}

/// The first place from `i` on whose group has the node id `id`, or -1.
pub open spec fn find_node(s: Seq<GroupView>, id: CrdtId, i: int) -> int
    decreases s.len() - i,
{
    if i < 0 || i >= s.len() {
        -1
    } else if s[i].node_id == id {
        i
    } else {
        find_node(s, id, i + 1)
    }
}

/// A tree with only the root group.
pub open spec fn new_tree() -> SceneTreeView {
    SceneTreeView { nodes: seq![empty_group(root_node_id())], root_id: root_node_id(), root_text: None }
}

/// Adds an item to the children of the group `parent`; there is no such group, the result is none.
pub open spec fn tree_add_item(t: SceneTreeView, parent: CrdtId, item: CrdtSequenceItem<SceneItemView>) -> Option<SceneTreeView> {
    let i = find_node(t.nodes, parent, 0);
    if i < 0 {
        None
    } else {
        let g = t.nodes[i];
        Some(SceneTreeView { nodes: t.nodes.update(i, GroupView { children: with_item(g.children, item), ..g }), ..t })
    }
}

/// Adds a group for `id` unless one is there.
pub open spec fn tree_add_node(t: SceneTreeView, id: CrdtId) -> SceneTreeView {
    if find_node(t.nodes, id, 0) >= 0 {
        t
    } else {
        SceneTreeView { nodes: t.nodes.push(empty_group(id)), ..t }
    }
}

/// The item a scene item block contributes, with the given value.
pub open spec fn placed<T>(item: CrdtSequenceItem<Option<T>>, value: SceneItemView) -> CrdtSequenceItem<SceneItemView> {
    CrdtSequenceItem {
        item_id: item.item_id,
        left_id: item.left_id,
        right_id: item.right_id,
        deleted_length: item.deleted_length,
        value,
    }
}

/// What one block does to the tree; none where it refers to a group that is not there.
pub open spec fn apply_block(t: SceneTreeView, b: BlockView) -> Option<SceneTreeView> {
    match b {
        BlockView::SceneTree(s) => Some(tree_add_node(t, s.tree_id)),
        BlockView::TreeNode(g) => {
            let i = find_node(t.nodes, g.node_id, 0);
            if i >= 0 {
                Some(SceneTreeView { nodes: t.nodes.update(i, GroupView { children: t.nodes[i].children, ..g }), ..t })
            } else {
                Some(SceneTreeView { nodes: t.nodes.push(g), ..t })
            }
        },
        BlockView::SceneGroupItem(s) => match s.item.value {
            Some(child) => if find_node(t.nodes, child, 0) < 0 {
                None
            } else {
                tree_add_item(t, s.parent_id, placed(s.item, SceneItemView::Group(child)))
            },
            None => Some(t),
        },
        BlockView::SceneLineItem(s) => match s.item.value {
            Some(v) => tree_add_item(t, s.parent_id, placed(s.item, SceneItemView::Line(v))),
            None => Some(t),
        },
        BlockView::SceneGlyphItem(s) => match s.item.value {
            Some(v) => tree_add_item(t, s.parent_id, placed(s.item, SceneItemView::GlyphRange(v))),
            None => Some(t),
        },
        BlockView::SceneTextItem(s) => match s.item.value {
            Some(v) => tree_add_item(t, s.parent_id, placed(s.item, SceneItemView::Text(v))),
            None => Some(t),
        },
        BlockView::RootText(r) => Some(SceneTreeView { root_text: Some(r.text), ..t }),
        _ => Some(t),
    }
}

/// The tree the blocks from `i` on make, starting from `t`.
pub open spec fn assemble_from(t: Option<SceneTreeView>, bs: Seq<BlockView>, i: int) -> Option<SceneTreeView>
    decreases bs.len() - i,
{
    if i < 0 || i >= bs.len() {
        t
    } else {
        match t {
            Some(t) => assemble_from(apply_block(t, bs[i]), bs, i + 1),
            None => None,
        }
    }
}

/// The tree a sequence of blocks makes, in order, starting from the root alone.
pub open spec fn assemble(bs: Seq<BlockView>) -> Option<SceneTreeView> {
    assemble_from(Some(new_tree()), bs, 0)
}

pub open spec fn blocks_view(bs: Seq<Block>) -> Seq<BlockView> {
    bs.map_values(|b: Block| b@)
}

impl SceneTree {
    pub fn new() -> (r: SceneTree)
        ensures
            r@ == new_tree(),
    {
        let root_id = CrdtId { part1: 0, part2: 1 };
        let mut nodes: Vec<Group> = Vec::new();
        nodes.push(Group::default().node_id(root_id));
        let r = SceneTree { nodes, root_id, root_text: None };
        assert(r@.nodes =~= new_tree().nodes);
        r
    }

    fn find(&self, id: CrdtId) -> (r: Option<usize>)
        ensures
            match r {
                Some(i) => i as int == find_node(self@.nodes, id, 0) && i < self.nodes@.len(),
                None => find_node(self@.nodes, id, 0) < 0,
            },
    {
        let mut i: usize = 0;
        while i < self.nodes.len()
            invariant
                0 <= i <= self.nodes@.len(),
                find_node(self@.nodes, id, 0) == find_node(self@.nodes, id, i as int),
            decreases self.nodes@.len() - i,
        {
            if self.nodes[i].node_id == id {
                return Some(i);
            }
            i = i + 1;
        }
        None
    }

    /// Adds a group for `id` unless one is there.
    pub fn add_node(&mut self, id: CrdtId)
        ensures
            final(self)@ == tree_add_node(old(self)@, id),
    {
        if self.find(id).is_none() {
            let ghost before = self@;
            self.nodes.push(Group::default().node_id(id));
            assert(self@.nodes =~= before.nodes.push(empty_group(id)));
        }
    }

    /// The group with node id `id`.
    pub fn get_node(&self, id: &CrdtId) -> (r: Option<&Group>)
        ensures
            match r {
                Some(g) => find_node(self@.nodes, *id, 0) >= 0 && g@ == self@.nodes[find_node(self@.nodes, *id, 0)],
                None => find_node(self@.nodes, *id, 0) < 0,
            },
    {
        match self.find(*id) {
            Some(i) => Some(&self.nodes[i]),
            None => None,
        }
    }

    /// Adds `item` to the children of the group `parent_id`, which must be there.
    pub fn add_item(&mut self, item: CrdtSequenceItem<SceneItem>, parent_id: CrdtId) -> (r: Result<(), ParseError>)
        ensures
            match tree_add_item(old(self)@, parent_id, item@) {
                Some(t) => r is Ok && final(self)@ == t,
                None => r matches Err(e) && e.kind == ParseErrorKind::InvalidInput && final(self)@ == old(self)@,
            },
    {
        match self.find(parent_id) {
            None => Err(ParseError::invalid("Could not find parent")),
            Some(i) => {
                let ghost before = self@;
                let mut g = self.nodes.remove(i);
                g.children.push(item);
                self.nodes.insert(i, g);
                assert(self@.nodes =~= before.nodes.update(i as int, GroupView { children: with_item(before.nodes[i as int].children, item@), ..before.nodes[i as int] }));
                Ok(())
            },
        }
    }

    /// Applies one block.
    fn apply(&mut self, block: &Block) -> (r: Result<(), ParseError>)
        ensures
            match apply_block(old(self)@, block@) {
                Some(t) => r is Ok && final(self)@ == t,
                None => r matches Err(e) && e.kind == ParseErrorKind::InvalidInput,
            },
    {
        match block {
            Block::SceneTree(b) => {
                self.add_node(b.tree_id);
                Ok(())
            },
            Block::TreeNode(b) => {
                let ghost before = self@;
                let fresh = b.group.duplicate();
                match self.find(b.group.node_id) {
                    Some(i) => {
                        let old_node = self.nodes.remove(i);
                        let merged = Group { children: old_node.children, ..fresh };
                        self.nodes.insert(i, merged);
                        assert(self@.nodes =~= before.nodes.update(i as int, GroupView { children: before.nodes[i as int].children, ..b.group@ }));
                    },
                    None => {
                        self.nodes.push(fresh);
                        assert(self@.nodes =~= before.nodes.push(b.group@));
                    },
                }
                Ok(())
            },
            Block::SceneGroupItem(b) => match b.item.value {
                Some(child) => {
                    if self.find(child).is_none() {
                        return Err(ParseError::invalid("Node does not exist for group item"));
                    }
                    self.add_item(b.item.with_value(SceneItem::Group(child)), b.parent_id)
                },
                None => Ok(()),
            },
            Block::SceneLineItem(b) => match &b.item.value {
                Some(v) => self.add_item(b.item.with_value(SceneItem::Line(v.duplicate())), b.parent_id),
                None => Ok(()),
            },
            Block::SceneGlyphItem(b) => match &b.item.value {
                Some(v) => self.add_item(b.item.with_value(SceneItem::GlyphRange(v.duplicate())), b.parent_id),
                None => Ok(()),
            },
            Block::SceneTextItem(b) => match &b.item.value {
                Some(v) => self.add_item(b.item.with_value(SceneItem::Text(v.duplicate())), b.parent_id),
                None => Ok(()),
            },
            Block::RootText(b) => {
                self.root_text = Some(b.text.duplicate());
                Ok(())
            },
            _ => Ok(()),
        }
    }

    /// Builds the tree from blocks in the order given.
    pub fn from_blocks(blocks: &Vec<Block>) -> (r: Result<SceneTree, ParseError>)
        ensures
            match assemble(blocks_view(blocks@)) {
                Some(t) => r matches Ok(tree) && tree@ == t,
                None => r matches Err(e) && e.kind == ParseErrorKind::InvalidInput,
            },
    {
        let ghost bs = blocks_view(blocks@);
        let mut tree = SceneTree::new();
        let mut i: usize = 0;
        while i < blocks.len()
            invariant
                bs == blocks_view(blocks@),
                i <= blocks@.len(),
                assemble(bs) == assemble_from(Some(tree@), bs, i as int),
            decreases blocks@.len() - i,
        {
            assert(bs[i as int] == blocks[i as int]@);
            let ghost before = tree@;
            match tree.apply(&blocks[i]) {
                Ok(()) => {},
                Err(e) => {
                    assert(assemble_from(apply_block(before, bs[i as int]), bs, i + 1) == None::<SceneTreeView>) by {
                        lemma_assemble_none(bs, i + 1);
                    }
                    return Err(e);
                },
            }
            i = i + 1;
        }
        Ok(tree)
    }
}

proof fn lemma_assemble_none(bs: Seq<BlockView>, i: int)
    ensures
        assemble_from(None, bs, i) == None::<SceneTreeView>,
    decreases bs.len() - i,
{
    if 0 <= i < bs.len() {
        lemma_assemble_none(bs, i + 1);
    }
}

/// Whether some group in `s` has the node id `id`.
pub open spec fn has_node(s: Seq<GroupView>, id: CrdtId) -> bool {
    exists|j: int| 0 <= j < s.len() && (#[trigger] s[j]).node_id == id
}

proof fn lemma_find_node(s: Seq<GroupView>, id: CrdtId, i: int)
    requires
        0 <= i <= s.len(),
    ensures
        find_node(s, id, i) >= 0 <==> exists|j: int| i <= j < s.len() && (#[trigger] s[j]).node_id == id,
    decreases s.len() - i,
{
    if i < s.len() {
        lemma_find_node(s, id, i + 1);
        if s[i].node_id != id {
            assert forall|j: int| i <= j < s.len() && (#[trigger] s[j]).node_id == id implies i + 1 <= j by {}
        }
    }
}

/// A tree is closed when its root is there and every child group it refers
/// to is one of its groups.
pub open spec fn tree_closed(t: SceneTreeView) -> bool {
    &&& has_node(t.nodes, root_node_id())
    &&& forall|i: int, j: int|
        0 <= i < t.nodes.len() && 0 <= j < t.nodes[i].children.len()
            && (#[trigger] t.nodes[i].children[j]).value is Group
            ==> has_node(t.nodes, t.nodes[i].children[j].value->Group_0)
}

/// Whether no tree node block brings children of its own, as none that is
/// decoded does.
pub open spec fn tree_nodes_childless(bs: Seq<BlockView>) -> bool {
    forall|k: int| 0 <= k < bs.len() ==> (#[trigger] bs[k] matches BlockView::TreeNode(g) ==> g.children.len() == 0)
}

proof fn lemma_with_item<T>(s: Seq<CrdtSequenceItem<T>>, it: CrdtSequenceItem<T>)
    ensures
        forall|j: int| 0 <= j < with_item(s, it).len() ==>
            (#[trigger] with_item(s, it)[j] == it || (j < s.len() && with_item(s, it)[j] == s[j])),
{
    crate::crdt::lemma_find_item(s, it.item_id, 0);
}

/// Replacing groups by groups of the same ids keeps every id present.
proof fn lemma_same_ids(s: Seq<GroupView>, s2: Seq<GroupView>)
    requires
        s.len() <= s2.len(),
        forall|j: int| 0 <= j < s.len() ==> (#[trigger] s2[j]).node_id == s[j].node_id,
    ensures
        forall|id: CrdtId| has_node(s, id) ==> has_node(s2, id),
{
    assert forall|id: CrdtId| has_node(s, id) implies has_node(s2, id) by {
        let j = choose|j: int| 0 <= j < s.len() && (#[trigger] s[j]).node_id == id;
        assert(s2[j].node_id == id);
    }
}

proof fn lemma_add_item_closed(t: SceneTreeView, parent: CrdtId, item: CrdtSequenceItem<SceneItemView>)
    requires
        tree_closed(t),
        item.value is Group ==> has_node(t.nodes, item.value->Group_0),
        tree_add_item(t, parent, item) is Some,
    ensures
        tree_closed(tree_add_item(t, parent, item)->0),
{
    let i = find_node(t.nodes, parent, 0);
    lemma_find_node(t.nodes, parent, 0);
    lemma_find_index(t.nodes, parent, 0);
    let g = t.nodes[i];
    let t2 = tree_add_item(t, parent, item)->0;
    lemma_with_item(g.children, item);
    lemma_same_ids(t.nodes, t2.nodes);
    assert forall|a: int, b: int|
        0 <= a < t2.nodes.len() && 0 <= b < t2.nodes[a].children.len()
            && (#[trigger] t2.nodes[a].children[b]).value is Group
        implies has_node(t2.nodes, t2.nodes[a].children[b].value->Group_0) by {
        if a == i {
            let c = t2.nodes[a].children[b];
            assert(c == with_item(g.children, item)[b]);
            if c != item {
                assert(c == g.children[b]);
                assert(t.nodes[i].children[b] == c);
            }
        } else {
            assert(t2.nodes[a] == t.nodes[a]);
            assert(t.nodes[a].children[b] == t2.nodes[a].children[b]);
        }
    }
}

proof fn lemma_find_index(s: Seq<GroupView>, id: CrdtId, i: int)
    requires
        0 <= i <= s.len(),
    ensures
        find_node(s, id, i) == -1 || (i <= find_node(s, id, i) < s.len() && s[find_node(s, id, i)].node_id == id),
    decreases s.len() - i,
{
    if i < s.len() && s[i].node_id != id {
        lemma_find_index(s, id, i + 1);
    }
}

proof fn lemma_apply_closed(t: SceneTreeView, b: BlockView)
    requires
        tree_closed(t),
        b matches BlockView::TreeNode(g) ==> g.children.len() == 0,
        apply_block(t, b) is Some,
    ensures
        tree_closed(apply_block(t, b)->0),
{
    let t2 = apply_block(t, b)->0;
    match b {
        BlockView::SceneTree(s) => {
            lemma_same_ids(t.nodes, t2.nodes);
            assert forall|a: int, c: int|
                0 <= a < t2.nodes.len() && 0 <= c < t2.nodes[a].children.len()
                    && (#[trigger] t2.nodes[a].children[c]).value is Group
                implies has_node(t2.nodes, t2.nodes[a].children[c].value->Group_0) by {
                assert(a < t.nodes.len());
                assert(t2.nodes[a] == t.nodes[a]);
                assert(t.nodes[a].children[c] == t2.nodes[a].children[c]);
            }
        },
        BlockView::TreeNode(g) => {
            let i = find_node(t.nodes, g.node_id, 0);
            lemma_find_index(t.nodes, g.node_id, 0);
            lemma_same_ids(t.nodes, t2.nodes);
            assert forall|a: int, c: int|
                0 <= a < t2.nodes.len() && 0 <= c < t2.nodes[a].children.len()
                    && (#[trigger] t2.nodes[a].children[c]).value is Group
                implies has_node(t2.nodes, t2.nodes[a].children[c].value->Group_0) by {
                assert(a < t.nodes.len());
                assert(t2.nodes[a].children == t.nodes[a].children);
                assert(t.nodes[a].children[c] == t2.nodes[a].children[c]);
            }
        },
        BlockView::SceneGroupItem(s) => {
            if let Some(child) = s.item.value {
                lemma_find_node(t.nodes, child, 0);
                lemma_add_item_closed(t, s.parent_id, placed(s.item, SceneItemView::Group(child)));
            }
        },
        BlockView::SceneLineItem(s) => {
            if let Some(v) = s.item.value {
                lemma_add_item_closed(t, s.parent_id, placed(s.item, SceneItemView::Line(v)));
            }
        },
        BlockView::SceneGlyphItem(s) => {
            if let Some(v) = s.item.value {
                lemma_add_item_closed(t, s.parent_id, placed(s.item, SceneItemView::GlyphRange(v)));
            }
        },
        BlockView::SceneTextItem(s) => {
            if let Some(v) = s.item.value {
                lemma_add_item_closed(t, s.parent_id, placed(s.item, SceneItemView::Text(v)));
            }
        },
        _ => {},
    }
}

proof fn lemma_assemble_closed(t: Option<SceneTreeView>, bs: Seq<BlockView>, i: int)
    requires
        0 <= i,
        tree_nodes_childless(bs),
        t matches Some(t0) && tree_closed(t0),
        assemble_from(t, bs, i) is Some,
    ensures
        tree_closed(assemble_from(t, bs, i)->0),
    decreases bs.len() - i,
{
    if i < bs.len() {
        let t0 = t->0;
        let next = apply_block(t0, bs[i]);
        if next is None {
            lemma_assemble_none(bs, i + 1);
        } else {
            lemma_apply_closed(t0, bs[i]);
            lemma_assemble_closed(next, bs, i + 1);
        }
    }
}

/// In every tree the blocks assemble, the root group is there and every child
/// group refers to a group of the tree.
pub proof fn lemma_tree_closed(bs: Seq<BlockView>)
    requires
        tree_nodes_childless(bs),
        assemble(bs) is Some,
    ensures
        tree_closed(assemble(bs)->0),
{
    let t = new_tree();
    assert(t.nodes[0].node_id == root_node_id());
    assert(tree_closed(t));
    lemma_assemble_closed(Some(t), bs, 0);
}

} // verus!
