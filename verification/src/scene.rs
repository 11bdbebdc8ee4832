//! A scene: the components of one screen, and the layers in which they are drawn.

use crate::component::{
    filled_in, fresh_memory, joined, kind_default, kind_max_children, kind_named, public_from, ComponentType,
    InternalData, InternalView, PublicData, PublicView,
};
use crate::hooks::{hooks_for, Hooks, HooksView};
use crate::json::{items_in, items_view, member, position, text_in, Json, JsonView};
use crate::layout::{arrange, arrangeable, can_arrange, planned, recalled, settle, settled, Plan, PlanView};
use crate::manager::Manager;
use crate::scalar::Scalar;
use crate::zone::{merged, scaled, unscaled, within, DrawZone};
use vstd::prelude::*;

verus! {

/// One component of a scene.
#[derive(Debug, PartialEq, Eq)]
pub struct ComponentInstance {
    /// What the component is told.
    pub public_data: PublicData,
    /// What the component remembers.
    pub internal_data: InternalData,
    /// The places of the children in the scene, in the order in which they are laid out.
    pub children: Vec<usize>,
    pub component_type: ComponentType,
    /// The name by which hooks find the component.
    pub name: Option<String>,
    /// The zone that the component itself took when it was last drawn; empty for one that
    /// only lays out its children.
    pub own_location: DrawZone,
    /// The zone that the component and its descendants took when they were last drawn.
    pub drawn_location: DrawZone,
}

/// The model of a component.
pub struct NodeView {
    pub public_data: PublicView,
    pub internal_data: InternalView,
    pub children: Seq<usize>,
    pub component_type: ComponentType,
    pub name: Option<Seq<char>>,
    pub own_location: DrawZone,
    pub drawn_location: DrawZone,
}

impl View for ComponentInstance {
    type V = NodeView;

    open spec fn view(&self) -> NodeView {
        NodeView {
            public_data: self.public_data@,
            internal_data: self.internal_data@,
            children: self.children@,
            component_type: self.component_type,
            name: match self.name {
                Some(n) => Some(n@),
                None => None,
            },
            own_location: self.own_location,
            drawn_location: self.drawn_location,
        }
    }
}

/// The models of the components of an arena.
pub open spec fn nodes_view(nodes: Seq<ComponentInstance>) -> Seq<NodeView> {
    Seq::new(nodes.len(), |i: int| nodes[i]@)
}

/// A tree of components, as a screen description lays it out.
pub struct Tree {
    pub component_type: ComponentType,
    pub public_data: PublicView,
    pub name: Option<Seq<char>>,
    pub children: Seq<Tree>,
}

/// The sum of the first `upto` numbers.
pub open spec fn sum_upto(numbers: Seq<nat>, upto: int) -> nat
    decreases upto,
{
    if upto <= 0 {
        0
    } else {
        sum_upto(numbers, upto - 1) + numbers[upto - 1]
    }
}

/// The numbers of components in the trees below the root of a tree.
pub open spec fn child_sizes(tree: Tree) -> Seq<nat>
    decreases tree, 0int,
{
    Seq::new(
        tree.children.len(),
        |k: int|
            if 0 <= k < tree.children.len() {
                tree_size(tree.children[k])
            } else {
                0
            },
    )
}

/// The number of components in a tree.
pub open spec fn tree_size(tree: Tree) -> nat
    decreases tree, 1int,
{
    1 + sum_upto(child_sizes(tree), tree.children.len() as int)
}

/// Whether every child of a component stands before the component in the arena.
pub open spec fn ordered(nodes: Seq<NodeView>) -> bool {
    forall|i: int, k: int|
        0 <= i < nodes.len() && 0 <= k < nodes[i].children.len() ==> (#[trigger] nodes[i].children[k]) < i
}

/// The tree below the component at place `i` of an ordered arena.
pub open spec fn tree_at(nodes: Seq<NodeView>, i: int) -> Tree
    decreases i,
{
    Tree {
        component_type: nodes[i].component_type,
        public_data: nodes[i].public_data,
        name: nodes[i].name,
        children: Seq::new(
            nodes[i].children.len(),
            |k: int|
                if 0 <= k < nodes[i].children.len() && 0 <= nodes[i].children[k] < i {
                    tree_at(nodes, nodes[i].children[k] as int)
                } else {
                    Tree {
                        component_type: nodes[i].component_type,
                        public_data: nodes[i].public_data,
                        name: None,
                        children: Seq::empty(),
                    }
                },
        ),
    }
}

/// The place at which the components of the tree below place `i` start, where they stand in
/// one block that ends at `i`.
pub open spec fn block_start(nodes: Seq<NodeView>, i: int) -> int {
    i + 1 - tree_size(tree_at(nodes, i))
}

/// Whether the trees below the children of the component at place `i` stand block after
/// block, in the order of the children, from the start of the component's own block up to
/// the component.
pub open spec fn packed_at(nodes: Seq<NodeView>, i: int) -> bool {
    forall|k: int|
        0 <= k < nodes[i].children.len() ==> (#[trigger] nodes[i].children[k]) + 1 == block_start(nodes, i)
            + sum_upto(child_sizes(tree_at(nodes, i)), k + 1)
}

/// Whether every tree of the arena stands in one block, children before parents and each
/// child's block after that of the child before it.
pub open spec fn packed(nodes: Seq<NodeView>) -> bool {
    forall|i: int| 0 <= i < nodes.len() ==> #[trigger] packed_at(nodes, i)
}

/// Whether a component is as it is when it has just been made: it remembers what a new
/// component of its kind remembers, and has drawn nothing.
pub open spec fn fresh(node: NodeView) -> bool {
    &&& node.internal_data == fresh_memory(node.component_type)
    &&& node.own_location == DrawZone::spec_new_empty()
    &&& node.drawn_location == DrawZone::spec_new_empty()
}

/// The tree at a place does not depend on the components after that place.
pub proof fn lemma_tree_at_prefix(a: Seq<NodeView>, b: Seq<NodeView>, i: int)
    requires
        0 <= i < a.len(),
        i < b.len(),
        forall|j: int| 0 <= j <= i ==> a[j] == b[j],
    ensures
        tree_at(a, i) == tree_at(b, i),
    decreases i,
{
    assert forall|k: int| 0 <= k < a[i].children.len() && 0 <= a[i].children[k] < i implies tree_at(
        a,
        a[i].children[k] as int,
    ) == tree_at(b, a[i].children[k] as int) by {
        lemma_tree_at_prefix(a, b, a[i].children[k] as int);
    }
    assert(tree_at(a, i).children =~= tree_at(b, i).children);
}

/// The kind of component that a description names in its member `type`, where that kind
/// was registered.
#[verifier::opaque]
pub open spec fn node_kind(registry: Set<ComponentType>, json: JsonView) -> Option<ComponentType> {
    match text_in(member(json, "type"@)) {
        Some(tag) => match kind_named(tag) {
            Some(kind) => if registry.contains(kind) {
                Some(kind)
            } else {
                None
            },
            None => None,
        },
        None => None,
    }
}

/// What a description tells a component of the given kind in its member `data`: what the
/// member holds where that can be read as data of the kind; else what a component of the
/// kind is told by default, with those members of `data` filled in that can be; a member
/// `data` that is no object, or is missing, leaves the default as it is.
#[verifier::opaque]
pub open spec fn node_data(kind: ComponentType, json: JsonView) -> PublicView {
    let data = match member(json, "data"@) {
        Some(d) => d,
        None => JsonView::Null,
    };
    match public_from(kind, data) {
        Some(read) => read,
        None => match data {
            JsonView::Object(partial) => filled_in(kind_default(kind), partial, partial.len() as int),
            _ => kind_default(kind),
        },
    }
}

/// The descriptions of the children of a described component: the items of its member
/// `children`, in order.
pub open spec fn node_children(json: JsonView) -> Seq<JsonView> {
    match json {
        JsonView::Object(members) => match position(members, "children"@, 0) {
            Some(p) => if 0 <= p < members.len() {
                match members[p].1 {
                    JsonView::Array(items) => items,
                    _ => Seq::empty(),
                }
            } else {
                Seq::empty()
            },
            None => Seq::empty(),
        },
        _ => Seq::empty(),
    }
}

/// Whether a component of the given kind may have `count` children.
pub open spec fn fits(kind: ComponentType, count: nat) -> bool {
    match kind_max_children(kind) {
        Some(max) => count <= max,
        None => true,
    }
}

/// Whether each of the descriptions lays out a tree.
pub open spec fn all_laid_out(registry: Set<ComponentType>, kids: Seq<JsonView>) -> bool
    decreases kids,
{
    forall|k: int| 0 <= k < kids.len() ==> tree_of(registry, #[trigger] kids[k]) is Some
}

/// The trees that the descriptions lay out.
pub open spec fn trees_of(registry: Set<ComponentType>, kids: Seq<JsonView>) -> Seq<Tree>
    decreases kids,
{
    Seq::new(
        kids.len(),
        |k: int|
            if 0 <= k < kids.len() {
                tree_of(registry, kids[k]).unwrap()
            } else {
                arbitrary()
            },
    )
}

/// The tree that a description lays out: nothing where it or any description below it names
/// no registered kind, or gives a component more children than its kind may have.
pub open spec fn tree_of(registry: Set<ComponentType>, json: JsonView) -> Option<Tree>
    decreases json,
{
    match json {
        JsonView::Object(members) => {
            let kids = match position(members, "children"@, 0) {
                Some(p) => if 0 <= p < members.len() {
                    match members[p].1 {
                        JsonView::Array(items) => items,
                        _ => Seq::empty(),
                    }
                } else {
                    Seq::empty()
                },
                None => Seq::empty(),
            };
            match node_kind(registry, json) {
                Some(kind) => if fits(kind, kids.len()) && (kids.len() == 0 || all_laid_out(registry, kids)) {
                    Some(
                        Tree {
                            component_type: kind,
                            public_data: node_data(kind, json),
                            name: text_in(member(json, "name"@)),
                            children: if kids.len() == 0 {
                                Seq::empty()
                            } else {
                                trees_of(registry, kids)
                            },
                        },
                    )
                } else {
                    None
                },
                None => None,
            }
        },
        _ => None,
    }
}

/// A description that gives a component more children than its kind may have lays out no
/// tree.
pub proof fn law_max_children(registry: Set<ComponentType>, json: JsonView)
    requires
        node_kind(registry, json) matches Some(kind) && !fits(kind, node_children(json).len()),
    ensures
        tree_of(registry, json) is None,
{
    reveal(node_kind);
}

/// One layer of a scene: components that are drawn together, the first of them as their
/// root.
#[derive(Debug, PartialEq, Eq)]
pub struct Layer {
    pub components: Vec<usize>,
}

/// A scene: the components of a screen in an arena, children before parents, and the layers
/// in which they are drawn.
#[derive(Debug)]
pub struct Scene {
    pub(crate) components: Vec<ComponentInstance>,
    pub(crate) layers: Vec<Layer>,
}

/// The model of a scene.
pub struct SceneView {
    pub components: Seq<NodeView>,
    pub layers: Seq<Seq<usize>>,
}

impl View for Scene {
    type V = SceneView;

    closed spec fn view(&self) -> SceneView {
        SceneView {
            components: nodes_view(self.components@),
            layers: Seq::new(self.layers@.len(), |i: int| self.layers@[i].components@),
        }
    }
}

/// Whether a component has no more children than its kind allows.
pub open spec fn roomy(node: NodeView) -> bool {
    fits(node.component_type, node.children.len())
}

/// Whether a scene hangs together: children stand before their parents, no component has
/// more children than its kind allows, and the layers name components of the scene.
pub open spec fn coherent(scene: SceneView) -> bool {
    &&& ordered(scene.components)
    &&& forall|i: int| 0 <= i < scene.components.len() ==> roomy(#[trigger] scene.components[i])
    &&& forall|l: int, k: int|
        0 <= l < scene.layers.len() && 0 <= k < scene.layers[l].len() ==> (#[trigger] scene.layers[l][k])
            < scene.components.len()
}

impl Scene {
    /// Whether the scene hangs together.
    pub open spec fn well_formed(&self) -> bool {
        coherent(self@)
    }

    /// The number of components.
    pub fn len(&self) -> (r: usize)
        ensures
            r == self@.components.len(),
    {
        self.components.len()
    }

    /// The component at place `id`.
    pub fn component(&self, id: usize) -> (r: Option<&ComponentInstance>)
        ensures
            match r {
                Some(node) => id < self@.components.len() && node@ == self@.components[id as int],
                None => id >= self@.components.len(),
            },
    {
        if id < self.components.len() {
            Some(&self.components[id])
        } else {
            None
        }
    }

    /// The number of layers.
    pub fn layer_count(&self) -> (r: usize)
        ensures
            r == self@.layers.len(),
    {
        self.layers.len()
    }

    /// The layer at place `layer`.
    pub fn get_layer(&self, layer: usize) -> (r: Option<&Layer>)
        ensures
            match r {
                Some(found) => layer < self@.layers.len() && found.components@ == self@.layers[layer as int],
                None => layer >= self@.layers.len(),
            },
    {
        if layer < self.layers.len() {
            Some(&self.layers[layer])
        } else {
            None
        }
    }
}

/// The sizes of the trees that the descriptions `kids` lay out.
pub open spec fn sizes_of(registry: Set<ComponentType>, kids: Seq<JsonView>) -> Seq<nat> {
    Seq::new(kids.len(), |k: int| tree_size(tree_of(registry, kids[k]).unwrap()))
}

/// The layer of a scene that was built from a description: the root, which is the last
/// component of the arena, and after it all the others in their order.
pub open spec fn first_layer(count: nat) -> Seq<usize> {
    Seq::new(
        count,
        |i: int|
            if i == 0 {
                (count - 1) as usize
            } else {
                (i - 1) as usize
            },
    )
}

/// The members of a described component named `children` are the children that `tree_of`
/// descends into.
proof fn lemma_node_children(json: JsonView)
    ensures
        node_children(json) == match items_in(member(json, "children"@)) {
            Some(items) => items,
            None => Seq::empty(),
        },
{
    match json {
        JsonView::Object(members) => {
            crate::json::lemma_position(members, "children"@, 0);
        },
        _ => {},
    }
}

/// A description lays out no tree where one of its children lays out none.
proof fn lemma_child_missing(registry: Set<ComponentType>, json: JsonView, k: int)
    requires
        0 <= k < node_children(json).len(),
        tree_of(registry, node_children(json)[k]) is None,
    ensures
        tree_of(registry, json) is None,
{
    let kids = node_children(json);
    assert(tree_of(registry, kids[k]) is None);
    assert(!all_laid_out(registry, kids));
}

/// Whether the arena `now` is the arena `start` with new components after it, all of them
/// just made and with no more children than their kinds allow, and every child before its
/// parent.
#[verifier::opaque]
spec fn grown(start: Seq<NodeView>, now: Seq<NodeView>) -> bool {
    &&& start.len() <= now.len()
    &&& forall|i: int| 0 <= i < start.len() ==> now[i] == start[i]
    &&& ordered(now)
    &&& forall|j: int| start.len() <= j < now.len() ==> fresh(#[trigger] now[j])
    &&& forall|j: int| start.len() <= j < now.len() ==> roomy(#[trigger] now[j])
    &&& forall|j: int| start.len() <= j < now.len() ==> #[trigger] packed_at(now, j)
}

/// Whether the first `upto` of the descriptions `kids` lay out the trees that stand at the
/// places `roots` of the arena `now`.
#[verifier::opaque]
spec fn planted(
    registry: Set<ComponentType>,
    kids: Seq<JsonView>,
    now: Seq<NodeView>,
    roots: Seq<usize>,
    upto: int,
    base: int,
) -> bool {
    &&& upto <= roots.len()
    &&& upto <= kids.len()
    &&& forall|j: int|
        0 <= j < upto ==> roots[j] < now.len() && tree_of(registry, #[trigger] kids[j]) == Some(
            tree_at(now, roots[j] as int),
        ) && roots[j] + 1 == base + sum_upto(sizes_of(registry, kids), j + 1)
}

/// An arena in which children stand before their parents has grown from itself.
proof fn lemma_grown_same(start: Seq<NodeView>)
    requires
        ordered(start),
    ensures
        grown(start, start),
{
    reveal(grown);
}

/// Growth goes on: what has grown from an arena that has grown has grown from the first.
proof fn lemma_grown_on(start: Seq<NodeView>, middle: Seq<NodeView>, now: Seq<NodeView>)
    requires
        grown(start, middle),
        grown(middle, now),
    ensures
        grown(start, now),
{
    reveal(grown);
    assert forall|j: int| start.len() <= j < now.len() implies #[trigger] packed_at(now, j) by {
        if j < middle.len() {
            lemma_packed_stays(middle, now, j);
        }
    }
}

/// A tree that stands in blocks still does when components are added after it.
proof fn lemma_packed_stays(before: Seq<NodeView>, after: Seq<NodeView>, j: int)
    requires
        0 <= j < before.len(),
        before.len() <= after.len(),
        forall|i: int| 0 <= i < before.len() ==> after[i] == before[i],
        packed_at(before, j),
    ensures
        packed_at(after, j),
{
    lemma_tree_at_prefix(before, after, j);
    assert forall|k: int| 0 <= k < after[j].children.len() implies (#[trigger] after[j].children[k]) + 1
        == block_start(after, j) + sum_upto(child_sizes(tree_at(after, j)), k + 1) by {
        assert(before[j].children[k] + 1 == block_start(before, j) + sum_upto(
            child_sizes(tree_at(before, j)),
            k + 1,
        ));
    }
}

/// The trees that stand in an arena still stand there when it has grown.
proof fn lemma_planted_stays(
    registry: Set<ComponentType>,
    kids: Seq<JsonView>,
    before: Seq<NodeView>,
    after: Seq<NodeView>,
    roots: Seq<usize>,
    upto: int,
    base: int,
)
    requires
        planted(registry, kids, before, roots, upto, base),
        grown(before, after),
    ensures
        planted(registry, kids, after, roots, upto, base),
{
    reveal(grown);
    reveal(planted);
    assert forall|j: int| 0 <= j < upto implies roots[j] < after.len() && tree_of(registry, #[trigger] kids[j])
        == Some(tree_at(after, roots[j] as int)) && roots[j] + 1 == base + sum_upto(
        sizes_of(registry, kids),
        j + 1,
    ) by {
        lemma_tree_at_prefix(before, after, roots[j] as int);
    }
}

/// One more tree stands in the arena.
proof fn lemma_planted_more(
    registry: Set<ComponentType>,
    kids: Seq<JsonView>,
    now: Seq<NodeView>,
    roots: Seq<usize>,
    upto: int,
    base: int,
    root: usize,
)
    requires
        planted(registry, kids, now, roots, upto, base),
        upto == roots.len(),
        0 <= upto < kids.len(),
        root < now.len(),
        tree_of(registry, kids[upto]) == Some(tree_at(now, root as int)),
        root + 1 == base + sum_upto(sizes_of(registry, kids), upto + 1),
    ensures
        planted(registry, kids, now, roots.push(root), upto + 1, base),
{
    reveal(planted);
    let more = roots.push(root);
    assert forall|j: int| 0 <= j < upto + 1 implies more[j] < now.len() && tree_of(registry, #[trigger] kids[j])
        == Some(tree_at(now, more[j] as int)) && more[j] + 1 == base + sum_upto(
        sizes_of(registry, kids),
        j + 1,
    ) by {
        if j < upto {
            assert(more[j] == roots[j]);
        }
    }
}

/// A component pushed after the trees of its children is the root of the tree that its
/// description lays out.
proof fn lemma_planted_root(
    registry: Set<ComponentType>,
    json: JsonView,
    start: Seq<NodeView>,
    filled: Seq<NodeView>,
    node: NodeView,
)
    requires
        grown(start, filled),
        planted(
            registry,
            node_children(json),
            filled,
            node.children,
            node_children(json).len() as int,
            start.len() as int,
        ),
        node.children.len() == node_children(json).len(),
        filled.len() == start.len() + sum_upto(
            sizes_of(registry, node_children(json)),
            node_children(json).len() as int,
        ),
        node_kind(registry, json) == Some(node.component_type),
        fits(node.component_type, node.children.len()),
        node.public_data == node_data(node.component_type, json),
        node.name == text_in(member(json, "name"@)),
        fresh(node),
    ensures
        grown(start, filled.push(node)),
        tree_of(registry, json) == Some(tree_at(filled.push(node), filled.len() as int)),
        filled.len() + 1 == start.len() + tree_size(tree_of(registry, json).unwrap()),
{
    reveal(grown);
    reveal(planted);
    let kids = node_children(json);
    let after = filled.push(node);
    let root = filled.len() as int;
    assert(ordered(after)) by {
        assert forall|i: int, c: int| 0 <= i < after.len() && 0 <= c < after[i].children.len() implies (
        #[trigger] after[i].children[c]) < i by {
            if i < filled.len() {
                assert(filled[i].children[c] < i);
            } else {
                assert(tree_of(registry, kids[c]) is Some);
            }
        }
    }
    let tree = tree_at(after, root);
    let wanted = tree_of(registry, json);
    assert(json is Object) by {
        reveal(node_kind);
    }
    assert(all_laid_out(registry, kids)) by {
        assert forall|j: int| 0 <= j < kids.len() implies tree_of(registry, #[trigger] kids[j]) is Some by {}
    }
    assert(wanted is Some);
    assert(tree.children =~= wanted.unwrap().children) by {
        assert forall|j: int| 0 <= j < kids.len() implies tree.children[j] == wanted.unwrap().children[j] by {
            assert(tree_of(registry, kids[j]) == Some(tree_at(filled, node.children[j] as int)));
            lemma_tree_at_prefix(filled, after, node.children[j] as int);
        }
    }
    assert(tree == wanted.unwrap());
    assert(sizes_of(registry, kids) =~= child_sizes(tree));
    assert(packed_at(after, root));
    assert forall|j: int| start.len() <= j < after.len() implies #[trigger] packed_at(after, j) by {
        if j < filled.len() {
            lemma_packed_stays(filled, after, j);
        }
    }
}

impl ComponentType {
    /// Whether a component of the kind may have `count` children.
    pub fn admits(&self, count: usize) -> (r: bool)
        ensures
            r == fits(*self, count as nat),
    {
        match self.max_children() {
            Some(most) => count <= most as usize,
            None => true,
        }
    }
}

impl Manager {
    /// The kind of component that a description names in its member `type`; nothing where
    /// it names none, or one that was not registered.
    pub fn kind_in(&self, json: &Json) -> (r: Option<ComponentType>)
        ensures
            r == node_kind(self@, json@),
    {
        proof {
            reveal(node_kind);
        }
        match json.field_text("type") {
            Some(tag) => match ComponentType::named(tag) {
                Some(kind) => if self.knows(kind) {
                    Some(kind)
                } else {
                    None
                },
                None => None,
            },
            None => None,
        }
    }

    /// Makes one component from its description, with the given children.
    ///
    /// The component is of the kind that the description names. It is told what the member
    /// `data` holds; where that cannot be read, it is told the defaults of its kind with
    /// those members of `data` filled in that can be. It is named as the member `name` says.
    /// Nothing is made where the description names no registered kind.
    ///
    /// The children must be no more than the kind allows: to give a component more is a
    /// mistake of the caller, who can ask `kind_in` and `admits` before.
    pub fn make_component(&self, json: &Json, children: Vec<usize>) -> (r: Option<ComponentInstance>)
        requires
            node_kind(self@, json@) matches Some(kind) ==> fits(kind, children@.len()),
        ensures
            match r {
                Some(node) => {
                    &&& node_kind(self@, json@) == Some(node.component_type)
                    &&& fits(node.component_type, children@.len())
                    &&& node@.public_data == node_data(node.component_type, json@)
                    &&& node@.name == text_in(member(json@, "name"@))
                    &&& node@.children == children@
                    &&& fresh(node@)
                },
                None => node_kind(self@, json@) is None,
            },
    {
        proof {
            reveal(node_data);
        }
        let kind = match self.kind_in(json) {
            Some(kind) => kind,
            None => {
                return None;
            },
        };
        let name = match json.field_text("name") {
            Some(s) => Some(s.to_owned()),
            None => None,
        };
        let null = Json::Null;
        let data: &Json = match json.get("data") {
            Some(d) => d,
            None => &null,
        };
        let public_data = match kind.from_json(data) {
            Some(read) => read,
            None => {
                let default_data = match kind.get_default_data() {
                    Some(d) => d,
                    None => {
                        return None;
                    },
                };
                match data.as_object() {
                    Some(partial) => Manager::fill_in(default_data, partial),
                    None => default_data,
                }
            },
        };
        let private_data = kind.init_instance(&public_data);
        Some(
            ComponentInstance {
                public_data,
                internal_data: private_data,
                children,
                component_type: kind,
                name,
                own_location: DrawZone::new_empty(),
                drawn_location: DrawZone::new_empty(),
            },
        )
    }

    /// Builds the components that a description lays out at the end of an arena, children
    /// before parents, and gives the place of their root: the last place.
    fn build_into(&self, nodes: &mut Vec<ComponentInstance>, v: &Json) -> (r: Option<usize>)
        requires
            ordered(nodes_view(old(nodes)@)),
        ensures
            match r {
                Some(root) => {
                    &&& tree_of(self@, v@) == Some(tree_at(nodes_view(final(nodes)@), root as int))
                    &&& root + 1 == final(nodes)@.len()
                    &&& final(nodes)@.len() == old(nodes)@.len() + tree_size(tree_of(self@, v@).unwrap())
                    &&& grown(nodes_view(old(nodes)@), nodes_view(final(nodes)@))
                },
                None => tree_of(self@, v@) is None,
            },
        decreases v,
    {
        let ghost start = nodes_view(nodes@);
        let ghost kids = node_children(v@);
        proof {
            lemma_node_children(v@);
            lemma_grown_same(start);
            reveal(planted);
        }
        let mut children: Vec<usize> = Vec::new();
        match json_children(v) {
            Some(items) => {
                let mut k: usize = 0;
                while k < items.len()
                    invariant
                        k <= items.len(),
                        decreases_to!(v => items),
                        kids == items_view(items@),
                        kids == node_children(v@),
                        grown(start, nodes_view(nodes@)),
                        nodes@.len() == start.len() + sum_upto(sizes_of(self@, kids), k as int),
                        children@.len() == k,
                        planted(self@, kids, nodes_view(nodes@), children@, k as int, start.len() as int),
                    decreases items.len() - k,
                {
                    let ghost before = nodes_view(nodes@);
                    assert(kids[k as int] == items@[k as int]@);
                    assert(ordered(before)) by {
                        reveal(grown);
                    }
                    match self.build_into(nodes, &items[k]) {
                        Some(root) => {
                            proof {
                                let after = nodes_view(nodes@);
                                lemma_grown_on(start, before, after);
                                assert(sizes_of(self@, kids)[k as int] == tree_size(
                                    tree_of(self@, kids[k as int]).unwrap(),
                                ));
                                lemma_planted_stays(self@, kids, before, after, children@, k as int, start.len() as int);
                                lemma_planted_more(
                                    self@,
                                    kids,
                                    after,
                                    children@,
                                    k as int,
                                    start.len() as int,
                                    root,
                                );
                            }
                            children.push(root);
                        },
                        None => {
                            proof {
                                lemma_child_missing(self@, v@, k as int);
                            }
                            return None;
                        },
                    }
                    k = k + 1;
                }
            },
            None => {
                assert(kids.len() == 0);
            },
        }
        let ghost filled = nodes_view(nodes@);
        // a component with more children than its kind allows is never made
        match self.kind_in(v) {
            Some(kind) => {
                if !kind.admits(children.len()) {
                    proof {
                        reveal(planted);
                    }
                    return None;
                }
            },
            None => {},
        }
        match self.make_component(v, children) {
            Some(node) => {
                proof {
                    lemma_planted_root(self@, v@, start, filled, node@);
                }
                nodes.push(node);
                assert(nodes_view(nodes@) =~= filled.push(node@));
                Some(nodes.len() - 1)
            },
            None => {
                proof {
                    reveal(planted);
                }
                None
            },
        }
    }

    /// Builds the scene that a description lays out: one layer, with the described tree in
    /// it. In the arena each tree stands in one block that ends with its root: the trees of
    /// the children in their order, then the parent.
    ///
    /// Each described component names its kind in the member `type`; it may hold what the
    /// component is told in `data`, the component's name in `name` and the descriptions of
    /// its children in `children`. There is no scene where a description names a kind that
    /// is not registered, or gives a component more children than its kind may have.
    pub fn build_tree(&self, v: &Json) -> (r: Option<Scene>)
        ensures
            match r {
                Some(scene) => {
                    &&& scene.well_formed()
                    &&& scene@.components.len() > 0
                    &&& tree_of(self@, v@) == Some(tree_at(scene@.components, scene@.components.len() - 1))
                    &&& scene@.components.len() == tree_size(tree_of(self@, v@).unwrap())
                    &&& packed(scene@.components)
                    &&& scene@.layers == seq![first_layer(scene@.components.len())]
                    &&& forall|j: int| 0 <= j < scene@.components.len() ==> fresh(#[trigger] scene@.components[j])
                },
                None => tree_of(self@, v@) is None,
            },
    {
        let mut nodes: Vec<ComponentInstance> = Vec::new();
        match self.build_into(&mut nodes, v) {
            Some(root) => {
                proof {
                    reveal(grown);
                }
                let count = nodes.len();
                let mut order: Vec<usize> = Vec::new();
                order.push(root);
                let mut i: usize = 0;
                while i < root
                    invariant
                        i <= root,
                        root + 1 == count,
                        order@.len() == i + 1,
                        forall|k: int| 0 <= k < order@.len() ==> order@[k] == first_layer(count as nat)[k],
                    decreases root - i,
                {
                    order.push(i);
                    i = i + 1;
                }
                assert(order@ =~= first_layer(count as nat));
                let mut layers: Vec<Layer> = Vec::new();
                layers.push(Layer { components: order });
                let scene = Scene { components: nodes, layers };
                assert(scene@.layers =~= seq![first_layer(count as nat)]);
                Some(scene)
            },
            None => None,
        }
    }

    /// Builds the scene that a screen description in JSON lays out. There is no scene where
    /// the text is no JSON document, or the document lays out no tree.
    pub fn make_screen(&self, document: &str) -> (r: Option<Scene>)
        ensures
            match r {
                Some(scene) => {
                    &&& crate::json::document_of(document@) matches Some(v)
                    &&& scene.well_formed()
                    &&& scene@.components.len() > 0
                    &&& tree_of(self@, v) == Some(tree_at(scene@.components, scene@.components.len() - 1))
                    &&& scene@.components.len() == tree_size(tree_of(self@, v).unwrap())
                    &&& packed(scene@.components)
                    &&& scene@.layers == seq![first_layer(scene@.components.len())]
                    &&& forall|j: int| 0 <= j < scene@.components.len() ==> fresh(#[trigger] scene@.components[j])
                },
                None => match crate::json::document_of(document@) {
                    Some(v) => tree_of(self@, v) is None,
                    None => true,
                },
            },
    {
        match Json::parse(document) {
            Some(data) => self.build_tree(&data),
            None => None,
        }
    }
}

/// The descriptions of the children of a described component.
fn json_children(v: &Json) -> (r: Option<&Vec<Json>>)
    ensures
        match r {
            Some(items) => items_in(member(v@, "children"@)) == Some(items_view(items@)) && decreases_to!(v => items),
            None => items_in(member(v@, "children"@)) is None,
        },
{
    match v.get("children") {
        Some(list) => list.as_array(),
        None => None,
    }
}

// =========================== DRAWING ===========================

/// The zone that a plan offers to child `k`: its cell, scaled by the spacing where the plan
/// has one.
#[verifier::opaque]
pub open spec fn offered(plan: PlanView, k: int) -> DrawZone {
    match plan.spacing {
        Some(spacing) => scaled(plan.cells[k], spacing),
        None => plan.cells[k],
    }
}

/// The zone that a child took, as its parent sees it: scaled back by the spacing where the
/// plan has one.
#[verifier::opaque]
pub open spec fn taken(plan: PlanView, drawn: DrawZone) -> DrawZone {
    match plan.spacing {
        Some(spacing) => unscaled(drawn, spacing),
        None => drawn,
    }
}

/// The zone that a component and its descendants took so far, after one more child took
/// `drawn`: it grows to hold what the child took, and what the parent sees of that.
#[verifier::opaque]
pub open spec fn shell_after(plan: PlanView, shell: DrawZone, drawn: DrawZone) -> DrawZone {
    match plan.spacing {
        Some(spacing) => merged(merged(shell, drawn), unscaled(drawn, spacing)),
        None => merged(shell, drawn),
    }
}

/// What a component is told for one frame: what it is told for good, with the hooks for its
/// name merged in.
#[verifier::opaque]
pub open spec fn told(node: NodeView, hooks: HooksView) -> PublicView {
    joined(node.public_data, hooks_for(hooks, node.name)).0
}

/// The state of drawing the children of a component.
pub struct Drawing {
    /// The arena.
    pub nodes: Seq<NodeView>,
    /// The zones that the children took so far, as their parent sees them.
    pub results: Seq<DrawZone>,
    /// The zone that the component and its descendants took so far.
    pub shell: DrawZone,
}

/// The component with what it remembers and the zones it took replaced: `own` the zone
/// that the component itself took, `drawn` the zone that it and its descendants took.
pub open spec fn with_state(node: NodeView, memory: InternalView, own: DrawZone, drawn: DrawZone) -> NodeView {
    NodeView {
        public_data: node.public_data,
        internal_data: memory,
        children: node.children,
        component_type: node.component_type,
        name: node.name,
        own_location: own,
        drawn_location: drawn,
    }
}

/// Drawing the component at place `id` in `zone`: the arena afterwards, and the zone that
/// the component and its descendants took.
///
/// The component plans the frame from what it is told, with its hooks merged in, and from
/// what it remembers. Its children draw in order, each in the zone offered to it. Then the
/// component learns from the zones they took, and notes the zone that it took itself and
/// the zone that all of it took.
///
/// A component that cannot plan a frame (a spacer without its child, a grouping box
/// without one, a split that is to share by area) is left out of the frame with all below
/// it: it takes no zone, and remembers what it did.
pub open spec fn node_draw(nodes: Seq<NodeView>, hooks: HooksView, id: int, zone: DrawZone) -> (
    Seq<NodeView>,
    DrawZone,
)
    decreases id, 1int,
{
    let node = nodes[id];
    let data = told(node, hooks);
    let count = node.children.len() as usize;
    if !arrangeable(data, count) {
        (
            nodes.update(id, with_state(node, node.internal_data, DrawZone::new_empty(), DrawZone::new_empty())),
            DrawZone::new_empty(),
        )
    } else {
        let plan = planned(data, node.internal_data, zone, count);
        let memory = recalled(data, node.internal_data, zone, count);
        let ready = nodes.update(id, with_state(node, memory, node.own_location, node.drawn_location));
        let done = children_draw(ready, hooks, id, plan, plan.cells.len() as int);
        (
            done.nodes.update(
                id,
                with_state(node, settled(data, memory, plan, done.results), plan.own, done.shell),
            ),
            done.shell,
        )
    }
}

/// Drawing the first `upto` children of the component at place `id` according to its plan.
pub open spec fn children_draw(nodes: Seq<NodeView>, hooks: HooksView, id: int, plan: PlanView, upto: int) -> Drawing
    decreases id, 0int, upto,
{
    if upto <= 0 {
        Drawing { nodes, results: Seq::empty(), shell: plan.own }
    } else {
        let before = children_draw(nodes, hooks, id, plan, upto - 1);
        let child = nodes[id].children[upto - 1] as int;
        if 0 <= child < id {
            let step = node_draw(before.nodes, hooks, child, offered(plan, upto - 1));
            Drawing {
                nodes: step.0,
                results: before.results.push(taken(plan, step.1)),
                shell: shell_after(plan, before.shell, step.1),
            }
        } else {
            Drawing { nodes: before.nodes, results: before.results.push(DrawZone::new_empty()), shell: before.shell }
        }
    }
}

/// Drawing the first `upto` layers of a scene: the root of each layer that has components
/// draws in `zone`.
pub open spec fn layers_draw(
    nodes: Seq<NodeView>,
    layers: Seq<Seq<usize>>,
    hooks: HooksView,
    zone: DrawZone,
    upto: int,
) -> Seq<NodeView>
    decreases upto,
{
    if upto <= 0 {
        nodes
    } else {
        let before = layers_draw(nodes, layers, hooks, zone, upto - 1);
        if layers[upto - 1].len() > 0 {
            node_draw(before, hooks, layers[upto - 1][0] as int, zone).0
        } else {
            before
        }
    }
}

/// Whether two arenas hold the same components but for what they remember and the zones
/// they took.
#[verifier::opaque]
pub open spec fn same_shape(a: Seq<NodeView>, b: Seq<NodeView>) -> bool {
    &&& a.len() == b.len()
    &&& forall|j: int|
        0 <= j < a.len() ==> (#[trigger] b[j]).children == a[j].children && b[j].component_type
            == a[j].component_type && b[j].name == a[j].name && b[j].public_data == a[j].public_data
}

/// Whether two arenas are the same from the place after `id` on.
#[verifier::opaque]
spec fn same_above(a: Seq<NodeView>, b: Seq<NodeView>, id: int) -> bool {
    &&& a.len() == b.len()
    &&& forall|j: int| id < j < a.len() ==> #[trigger] b[j] == a[j]
}

/// Arenas of the same shape as a third are of the same shape.
proof fn lemma_same_shape_on(a: Seq<NodeView>, b: Seq<NodeView>, c: Seq<NodeView>)
    requires
        same_shape(a, b),
        same_shape(b, c),
    ensures
        same_shape(a, c),
{
    reveal(same_shape);
}

/// Arenas that are the same above a place as a third are the same above it.
proof fn lemma_same_above_on(a: Seq<NodeView>, b: Seq<NodeView>, c: Seq<NodeView>, low: int, high: int)
    requires
        same_above(a, b, low),
        same_above(b, c, low),
        low <= high,
    ensures
        same_above(a, c, high),
{
    reveal(same_above);
}

/// Arenas that are the same above a place are the same above any higher place.
proof fn lemma_same_above_higher(a: Seq<NodeView>, b: Seq<NodeView>, low: int, high: int)
    requires
        same_above(a, b, low),
        low <= high,
    ensures
        same_above(a, b, high),
{
    reveal(same_above);
}

/// In an arena of the shape of one whose children stand before their parents, they do too.
proof fn lemma_shape_keeps_order(a: Seq<NodeView>, b: Seq<NodeView>)
    requires
        same_shape(a, b),
        ordered(a),
    ensures
        ordered(b),
{
    reveal(same_shape);
    assert forall|i: int, k: int| 0 <= i < b.len() && 0 <= k < b[i].children.len() implies (
    #[trigger] b[i].children[k]) < i by {
        assert(b[i].children == a[i].children);
        assert(a[i].children[k] < i);
    }
}

/// The zone that a plan offers to child `k`.
fn offer_of(plan: &Plan, k: usize) -> (r: DrawZone)
    requires
        k < plan@.cells.len(),
    ensures
        r == offered(plan@, k as int),
{
    reveal(offered);
    match plan.spacing {
        Some(spacing) => plan.cells[k].scale(spacing),
        None => plan.cells[k],
    }
}

/// Lets the shell grow by what a child took, and gives what the parent sees of that.
fn absorb(plan: &Plan, shell: &mut DrawZone, drawn: DrawZone) -> (seen: DrawZone)
    ensures
        seen == taken(plan@, drawn),
        *final(shell) == shell_after(plan@, *old(shell), drawn),
{
    reveal(taken);
    reveal(shell_after);
    match plan.spacing {
        Some(spacing) => {
            shell.merge_grow(&drawn);
            let seen = drawn.unscale(spacing);
            shell.merge_grow(&seen);
            seen
        },
        None => {
            shell.merge_grow(&drawn);
            drawn
        },
    }
}

/// Drawing one more child.
proof fn lemma_children_step(
    ready: Seq<NodeView>,
    hooks: HooksView,
    id: int,
    plan: PlanView,
    k: int,
    before: Drawing,
    step: (Seq<NodeView>, DrawZone),
)
    requires
        0 <= k,
        before == children_draw(ready, hooks, id, plan, k),
        0 <= ready[id].children[k] < id,
        step == node_draw(before.nodes, hooks, ready[id].children[k] as int, offered(plan, k)),
    ensures
        children_draw(ready, hooks, id, plan, k + 1) == (Drawing {
            nodes: step.0,
            results: before.results.push(taken(plan, step.1)),
            shell: shell_after(plan, before.shell, step.1),
        }),
{
}

impl Scene {
    /// What the component at place `id` is told for one frame: what it is told for good,
    /// with the hooks for its name merged in.
    pub fn told(&self, id: usize, hooks: &Hooks) -> (r: PublicData)
        requires
            id < self@.components.len(),
        ensures
            r@ == told(self@.components[id as int], hooks@),
    {
        reveal(told);
        let node = &self.components[id];
        match &node.name {
            Some(name) => match hooks.get(name.as_str()) {
                Some(overrides) => Manager::join_hooks(&node.public_data, overrides).0,
                None => node.public_data.clone(),
            },
            None => node.public_data.clone(),
        }
    }

    /// Draws the component at place `id`, and all below it, in `zone`.
    fn draw_node(&mut self, id: usize, zone: DrawZone, hooks: &Hooks) -> (r: DrawZone)
        requires
            id < old(self).components@.len(),
            ordered(nodes_view(old(self).components@)),
        ensures
            (nodes_view(final(self).components@), r) == node_draw(
                nodes_view(old(self).components@),
                hooks@,
                id as int,
                zone,
            ),
            same_shape(nodes_view(old(self).components@), nodes_view(final(self).components@)),
            same_above(nodes_view(old(self).components@), nodes_view(final(self).components@), id as int),
            final(self).layers == old(self).layers,
        decreases id,
    {
        let ghost start = nodes_view(self.components@);
        let data = self.told(id, hooks);
        let count = self.components[id].children.len();
        if !can_arrange(&data, count) {
            self.components[id].own_location = DrawZone::new_empty();
            self.components[id].drawn_location = DrawZone::new_empty();
            proof {
                assert(nodes_view(self.components@) =~= start.update(
                    id as int,
                    with_state(
                        start[id as int],
                        start[id as int].internal_data,
                        DrawZone::new_empty(),
                        DrawZone::new_empty(),
                    ),
                ));
                assert(same_shape(start, nodes_view(self.components@))) by {
                    reveal(same_shape);
                }
                assert(same_above(start, nodes_view(self.components@), id as int)) by {
                    reveal(same_above);
                }
            }
            return DrawZone::new_empty();
        }
        let plan = arrange(&data, &mut self.components[id].internal_data, zone, count);
        let ghost memory = recalled(data@, start[id as int].internal_data, zone, count);
        let ghost ready = start.update(id as int, with_state(
            start[id as int],
            memory,
            start[id as int].own_location,
            start[id as int].drawn_location,
        ));
        assert(nodes_view(self.components@) =~= ready);
        proof {
            assert(same_shape(start, ready)) by {
                reveal(same_shape);
            }
            assert(same_above(start, ready, id as int)) by {
                reveal(same_above);
            }
        }
        let mut results: Vec<DrawZone> = Vec::new();
        let mut shell = plan.own;
        let mut k: usize = 0;
        while k < plan.cells.len()
            invariant
                k <= plan.cells.len(),
                id < self.components@.len(),
                id < start.len(),
                start.len() == self.components@.len(),
                plan@.cells.len() <= count,
                count == start[id as int].children.len(),
                start == nodes_view(old(self).components@),
                ordered(start),
                ready == start.update(id as int, with_state(
            start[id as int],
            memory,
            start[id as int].own_location,
            start[id as int].drawn_location,
        )),
                same_shape(start, nodes_view(self.components@)),
                same_above(start, nodes_view(self.components@), id as int),
                self.layers == old(self).layers,
                results@.len() == k,
                nodes_view(self.components@)[id as int].internal_data == memory,
                (Drawing { nodes: nodes_view(self.components@), results: results@, shell }) == children_draw(
                    ready,
                    hooks@,
                    id as int,
                    plan@,
                    k as int,
                ),
            decreases plan.cells.len() - k,
        {
            let ghost before = nodes_view(self.components@);
            let ghost state = Drawing { nodes: before, results: results@, shell };
            proof {
                lemma_shape_keeps_order(start, before);
                assert(before[id as int].children == start[id as int].children) by {
                    reveal(same_shape);
                }
            }
            let child = self.components[id].children[k];
            assert(child == ready[id as int].children[k as int]);
            assert(child < id);
            let offer = offer_of(&plan, k);
            let drawn = self.draw_node(child, offer, hooks);
            let seen = absorb(&plan, &mut shell, drawn);
            results.push(seen);
            proof {
                let after = nodes_view(self.components@);
                lemma_children_step(ready, hooks@, id as int, plan@, k as int, state, (after, drawn));
                lemma_same_shape_on(start, before, after);
                lemma_same_above_higher(before, after, child as int, id as int);
                lemma_same_above_on(start, before, after, id as int, id as int);
                assert(after[id as int] == before[id as int] && after.len() == before.len()) by {
                    reveal(same_above);
                }
            }
            k = k + 1;
        }
        proof {
            reveal(same_shape);
        }
        settle(&data, &mut self.components[id].internal_data, &plan, &results);
        self.components[id].own_location = plan.own;
        self.components[id].drawn_location = shell;
        proof {
            let after = nodes_view(self.components@);
            let done = children_draw(ready, hooks@, id as int, plan@, plan@.cells.len() as int);
            assert(after =~= done.nodes.update(
                id as int,
                with_state(start[id as int], settled(data@, memory, plan@, done.results), plan@.own, done.shell),
            ));
            assert(same_shape(start, after)) by {
                reveal(same_shape);
            }
            assert(same_above(start, after, id as int)) by {
                reveal(same_above);
            }
        }
        shell
    }

    /// Draws the scene in `zone`: the root of each layer, and through it all that hangs below
    /// it, with the hooks merged into what the named components are told.
    ///
    /// Afterwards each component that was drawn remembers what it learnt from this frame and
    /// holds the zone that it took itself and the zone that it and its descendants took. A
    /// component that cannot plan a frame, as `can_arrange` tells, is left out with all
    /// below it, and holds empty zones.
    pub fn draw(&mut self, zone: DrawZone, hooks: &Hooks)
        requires
            old(self).well_formed(),
        ensures
            final(self).well_formed(),
            final(self)@.layers == old(self)@.layers,
            final(self)@.components == layers_draw(
                old(self)@.components,
                old(self)@.layers,
                hooks@,
                zone,
                old(self)@.layers.len() as int,
            ),
            same_shape(old(self)@.components, final(self)@.components),
    {
        let ghost start = self@.components;
        proof {
            assert(same_shape(start, start)) by {
                reveal(same_shape);
            }
        }
        let mut l: usize = 0;
        while l < self.layers.len()
            invariant
                l <= self.layers.len(),
                start == old(self)@.components,
                ordered(start),
                self.layers == old(self).layers,
                old(self).well_formed(),
                same_shape(start, self@.components),
                self@.components == layers_draw(start, old(self)@.layers, hooks@, zone, l as int),
            decreases self.layers.len() - l,
        {
            let ghost before = self@.components;
            proof {
                lemma_shape_keeps_order(start, before);
                reveal(same_shape);
            }
            if self.layers[l].components.len() > 0 {
                let root = self.layers[l].components[0];
                assert(root == old(self)@.layers[l as int][0]);
                let taken = self.draw_node(root, zone, hooks);
                proof {
                    lemma_same_shape_on(start, before, self@.components);
                }
            }
            l = l + 1;
        }
        proof {
            lemma_shape_keeps_order(start, self@.components);
            reveal(same_shape);
            assert(self@.layers =~= old(self)@.layers);
        }
    }
}

// =========================== EVENTS ===========================

/// A button of a pointing device.
#[derive(Clone, Copy, Debug, PartialEq, Eq, Structural)]
pub enum MouseButton {
    Left,
    Right,
    Middle,
    Other(u8),
}

/// Something that happened on the drawing surface.
#[derive(Clone, Copy, Debug, PartialEq, Eq, Structural)]
pub enum Event {
    /// A button was pressed at a point.
    MouseClick(Scalar, Scalar, MouseButton),
}

/// The components among the first `upto` of a layer whose last drawn zone holds the point,
/// in order.
pub open spec fn hits_in_layer(nodes: Seq<NodeView>, layer: Seq<usize>, x: Scalar, y: Scalar, upto: int) -> Seq<usize>
    decreases upto,
{
    if upto <= 0 {
        Seq::empty()
    } else {
        let before = hits_in_layer(nodes, layer, x, y, upto - 1);
        if within(nodes[layer[upto - 1] as int].drawn_location, x, y) {
            before.push(layer[upto - 1])
        } else {
            before
        }
    }
}

/// The components of the first `upto` layers whose last drawn zone holds the point, layer
/// by layer. A component is hit whatever lies over it.
pub open spec fn hits(scene: SceneView, x: Scalar, y: Scalar, upto: int) -> Seq<usize>
    decreases upto,
{
    if upto <= 0 {
        Seq::empty()
    } else {
        hits(scene, x, y, upto - 1) + hits_in_layer(
            scene.components,
            scene.layers[upto - 1],
            x,
            y,
            scene.layers[upto - 1].len() as int,
        )
    }
}

impl Scene {
    /// Hands an event to the component at place `id`, which takes it with the handler of
    /// its kind.
    fn hand_over(&mut self, id: usize, event: &Event)
        requires
            id < old(self).components@.len(),
        ensures
            final(self)@ == old(self)@,
            final(self).layers == old(self).layers,
    {
        let drawn_location = self.components[id].drawn_location;
        let kind = self.components[id].component_type;
        let node = &mut self.components[id];
        kind.handle_event(&drawn_location, event, &mut node.internal_data, &mut node.public_data);
        assert(self@.components =~= old(self)@.components);
        assert(self@.layers =~= old(self)@.layers);
    }

    /// Hands an event to the components that it reaches, and gives their places: for a
    /// click, every component of every layer whose last drawn zone holds the point, layer by
    /// layer. Each takes the event with the handler of its kind. No kind of this library
    /// takes notice of an event, so the scene stays as it was.
    pub fn handle_event(&mut self, event: &Event) -> (r: Vec<usize>)
        requires
            old(self).well_formed(),
        ensures
            final(self)@ == old(self)@,
            match *event {
                Event::MouseClick(x, y, _) => r@ == hits(old(self)@, x, y, old(self)@.layers.len() as int),
            },
    {
        match *event {
            Event::MouseClick(x, y, _) => {
                let mut found: Vec<usize> = Vec::new();
                let mut l: usize = 0;
                while l < self.layers.len()
                    invariant
                        l <= self.layers.len(),
                        self@ == old(self)@,
                        self.layers == old(self).layers,
                        self.well_formed(),
                        found@ == hits(self@, x, y, l as int),
                    decreases self.layers.len() - l,
                {
                    let ghost before = found@;
                    let mut k: usize = 0;
                    while k < self.layers[l].components.len()
                        invariant
                            k <= self.layers@[l as int].components@.len(),
                            l < self.layers.len(),
                            self@ == old(self)@,
                            self.layers == old(self).layers,
                            self.well_formed(),
                            found@ == before + hits_in_layer(self@.components, self@.layers[l as int], x, y, k as int),
                        decreases self.layers@[l as int].components@.len() - k,
                    {
                        let id = self.layers[l].components[k];
                        assert(id == self@.layers[l as int][k as int]);
                        assert(id < self.components@.len());
                        let ghost so_far = hits_in_layer(self@.components, self@.layers[l as int], x, y, k as int);
                        if self.components[id].drawn_location.contains(x, y) {
                            found.push(id);
                            assert(found@ =~= before + so_far.push(id));
                            self.hand_over(id, event);
                        }
                        k = k + 1;
                    }
                    l = l + 1;
                }
                found
            },
        }
    }
}

// =========================== CHANGING A SCENE ===========================

/// The layers with the component `id` added at the end of layer `layer`; empty layers are
/// added until there is such a layer.
pub open spec fn with_in_layer(layers: Seq<Seq<usize>>, layer: int, id: usize) -> Seq<Seq<usize>> {
    Seq::new(
        if layer < layers.len() {
            layers.len()
        } else {
            (layer + 1) as nat
        },
        |l: int|
            if l == layer {
                if l < layers.len() {
                    layers[l].push(id)
                } else {
                    seq![id]
                }
            } else if l < layers.len() {
                layers[l]
            } else {
                Seq::empty()
            },
    )
}

impl Scene {
    /// A scene without components or layers.
    pub fn new() -> (r: Scene)
        ensures
            r.well_formed(),
            r@.components.len() == 0,
            r@.layers.len() == 0,
    {
        Scene { components: Vec::new(), layers: Vec::new() }
    }

    /// Makes a component of the given kind with no children and no name, and adds it to a
    /// layer. The component is told `supplied_public_data`, or else the defaults of its
    /// kind. Gives its place; nothing is made where the data is of another kind.
    pub fn instantiate_component(
        &mut self,
        layer: usize,
        supplied_public_data: Option<PublicData>,
        component: ComponentType,
    ) -> (r: Option<usize>)
        requires
            old(self).well_formed(),
            layer < usize::MAX,
        ensures
            final(self).well_formed(),
            match r {
                Some(id) => {
                    &&& id == old(self)@.components.len()
                    &&& final(self)@.components.len() == id + 1
                    &&& final(self)@.components.take(id as int) == old(self)@.components
                    &&& final(self)@.components[id as int].component_type == component
                    &&& supplied_public_data matches Some(data) ==> crate::component::kind_of(data@) == component
                    &&& final(self)@.components[id as int].public_data == match supplied_public_data {
                        Some(data) => data@,
                        None => kind_default(component),
                    }
                    &&& final(self)@.components[id as int].children.len() == 0
                    &&& final(self)@.components[id as int].name is None
                    &&& fresh(final(self)@.components[id as int])
                    &&& final(self)@.layers == with_in_layer(old(self)@.layers, layer as int, id)
                },
                None => {
                    &&& final(self)@ == old(self)@
                    &&& supplied_public_data matches Some(data) && crate::component::kind_of(data@) != component
                },
            },
    {
        let public_data = match supplied_public_data {
            Some(data) => {
                if data.kind() != component {
                    return None;
                }
                data
            },
            None => match component.get_default_data() {
                Some(data) => data,
                None => {
                    return None;
                },
            },
        };
        let private_data = component.init_instance(&public_data);
        let id = self.components.len();
        self.components.push(
            ComponentInstance {
                public_data,
                internal_data: private_data,
                children: Vec::new(),
                component_type: component,
                name: None,
                own_location: DrawZone::new_empty(),
                drawn_location: DrawZone::new_empty(),
            },
        );
        assert(self@.components.take(id as int) =~= old(self)@.components);
        let ghost former = old(self).layers@;
        let ghost made = self.components@;
        while layer + 1 > self.layers.len()
            invariant
                layer < usize::MAX,
                self.components@ == made,
                former == old(self).layers@,
                former.len() <= self.layers@.len(),
                forall|l: int| 0 <= l < former.len() ==> #[trigger] self.layers@[l] == former[l],
                forall|l: int| former.len() <= l < self.layers@.len() ==> (#[trigger] self.layers@[l]).components@.len() == 0,
                self.layers@.len() > former.len() ==> self.layers@.len() <= layer + 1,
            decreases layer + 1 - self.layers.len(),
        {
            self.layers.push(Layer { components: Vec::new() });
        }
        let ghost grown_layers = self.layers@;
        self.layers[layer].components.push(id);
        proof {
            let wanted = with_in_layer(old(self)@.layers, layer as int, id);
            assert(self@.layers.len() == wanted.len());
            assert forall|l: int| 0 <= l < self@.layers.len() implies #[trigger] self@.layers[l] == wanted[l] by {
                if l == layer {
                    assert(self.layers@[l].components@ == grown_layers[l].components@.push(id));
                    if l < former.len() {
                        assert(grown_layers[l] == former[l]);
                        assert(self@.layers[l] =~= old(self)@.layers[l].push(id));
                    } else {
                        assert(grown_layers[l].components@.len() == 0);
                        assert(self@.layers[l] =~= seq![id]);
                    }
                } else {
                    assert(self.layers@[l] == grown_layers[l]);
                    if l < former.len() {
                        assert(grown_layers[l] == former[l]);
                    } else {
                        assert(grown_layers[l].components@.len() == 0);
                        assert(self@.layers[l] =~= Seq::<usize>::empty());
                    }
                }
            }
            assert(self@.layers =~= wanted);
            assert forall|l: int, k: int| 0 <= l < self@.layers.len() && 0 <= k < self@.layers[l].len() implies (
            #[trigger] self@.layers[l][k]) < self@.components.len() by {
                if l < former.len() && k < old(self)@.layers[l].len() {
                    assert(old(self)@.layers[l][k] < old(self)@.components.len());
                }
            }
            assert(ordered(self@.components)) by {
                assert forall|i: int, k: int|
                    0 <= i < self@.components.len() && 0 <= k < self@.components[i].children.len() implies (
                #[trigger] self@.components[i].children[k]) < i by {
                    if i < id {
                        assert(self@.components.take(id as int)[i] == old(self)@.components[i]);
                    }
                }
            }
            assert forall|i: int| 0 <= i < self@.components.len() implies roomy(#[trigger] self@.components[i]) by {
                if i < id {
                    assert(self@.components.take(id as int)[i] == old(self)@.components[i]);
                    assert(roomy(old(self)@.components[i]));
                }
            }
        }
        Some(id)
    }

    /// Whether the kind of the component at `parent` allows it one child more.
    fn has_room(&self, parent: usize) -> (r: bool)
        requires
            parent < self@.components.len(),
        ensures
            r == fits(
                self@.components[parent as int].component_type,
                self@.components[parent as int].children.len() + 1,
            ),
    {
        let node = &self.components[parent];
        if node.children.len() < usize::MAX {
            node.component_type.admits(node.children.len() + 1)
        } else {
            node.component_type.max_children().is_none()
        }
    }

    /// Makes the component at `child` the last child of the component at `parent`. There is
    /// no change, and the answer is `false`, unless both are components of the scene, the
    /// child stands before the parent, and the kind of the parent allows it one child more.
    pub fn add_child(&mut self, parent: usize, child: usize) -> (r: bool)
        requires
            old(self).well_formed(),
        ensures
            final(self).well_formed(),
            r == (child < parent && parent < old(self)@.components.len() && fits(
                old(self)@.components[parent as int].component_type,
                old(self)@.components[parent as int].children.len() + 1,
            )),
            r ==> final(self)@ == (SceneView {
                components: old(self)@.components.update(
                    parent as int,
                    NodeView {
                        public_data: old(self)@.components[parent as int].public_data,
                        internal_data: old(self)@.components[parent as int].internal_data,
                        children: old(self)@.components[parent as int].children.push(child),
                        component_type: old(self)@.components[parent as int].component_type,
                        name: old(self)@.components[parent as int].name,
                        own_location: old(self)@.components[parent as int].own_location,
                        drawn_location: old(self)@.components[parent as int].drawn_location,
                    },
                ),
                layers: old(self)@.layers,
            }),
            !r ==> final(self)@ == old(self)@,
    {
        if child < parent && parent < self.components.len() && self.has_room(parent) {
            self.components[parent].children.push(child);
            proof {
                let wanted = old(self)@.components.update(
                    parent as int,
                    NodeView {
                        public_data: old(self)@.components[parent as int].public_data,
                        internal_data: old(self)@.components[parent as int].internal_data,
                        children: old(self)@.components[parent as int].children.push(child),
                        component_type: old(self)@.components[parent as int].component_type,
                        name: old(self)@.components[parent as int].name,
                        own_location: old(self)@.components[parent as int].own_location,
                        drawn_location: old(self)@.components[parent as int].drawn_location,
                    },
                );
                assert(self@.components =~= wanted);
                assert(self@.layers =~= old(self)@.layers);
                assert forall|i: int, k: int|
                    0 <= i < self@.components.len() && 0 <= k < self@.components[i].children.len() implies (
                #[trigger] self@.components[i].children[k]) < i by {
                    if i != parent {
                        assert(self@.components[i] == old(self)@.components[i]);
                    } else if k < old(self)@.components[i].children.len() {
                        assert(old(self)@.components[i].children[k] < i);
                    }
                }
            }
            true
        } else {
            false
        }
    }

    /// Notes the aspect of the text of the text field at place `id`, as it was measured.
    /// There is no change, and the answer is `false`, unless there is a text field at that
    /// place.
    pub fn set_text_aspect(&mut self, id: usize, aspect: Scalar) -> (r: bool)
        requires
            old(self).well_formed(),
        ensures
            final(self).well_formed(),
            r == (id < old(self)@.components.len() && old(self)@.components[id as int].internal_data
                is TextField),
            r ==> final(self)@ == (SceneView {
                components: old(self)@.components.update(
                    id as int,
                    with_state(
                        old(self)@.components[id as int],
                        InternalView::TextField(Some(aspect)),
                        old(self)@.components[id as int].own_location,
                        old(self)@.components[id as int].drawn_location,
                    ),
                ),
                layers: old(self)@.layers,
            }),
            !r ==> final(self)@ == old(self)@,
    {
        if id >= self.components.len() {
            return false;
        }
        match &self.components[id].internal_data {
            InternalData::TextField(_) => {},
            _ => {
                return false;
            },
        }
        self.components[id].internal_data = InternalData::TextField(Some(aspect));
        proof {
            let wanted = old(self)@.components.update(
                id as int,
                with_state(
                    old(self)@.components[id as int],
                    InternalView::TextField(Some(aspect)),
                    old(self)@.components[id as int].own_location,
                    old(self)@.components[id as int].drawn_location,
                ),
            );
            assert(self@.components =~= wanted);
            assert(self@.layers =~= old(self)@.layers);
            assert forall|i: int, k: int|
                0 <= i < self@.components.len() && 0 <= k < self@.components[i].children.len() implies (
            #[trigger] self@.components[i].children[k]) < i by {
                assert(self@.components[i].children == old(self)@.components[i].children);
                assert(old(self)@.components[i].children[k] < i);
            }
        }
        true
    }
}

} // verus!
