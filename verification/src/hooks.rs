//! Overrides of what named components are told, supplied anew for each frame.

use crate::json::{members_view, one_member, set_member, with_member, Json, JsonView};
use crate::text::same_text;
use vstd::prelude::*;

verus! {

/// For each of some component names, values for some of the properties that components of
/// that name are told.
#[derive(Debug, PartialEq, Eq)]
pub struct Hooks {
    /// The names, each with its properties. Where a name stands more than once, its first
    /// entry counts.
    pub components: Vec<(String, Vec<(String, Json)>)>,
}

/// The model of a set of hooks: the names in order, each with its properties in order.
pub type HooksView = Seq<(Seq<char>, Seq<(Seq<char>, JsonView)>)>;

impl View for Hooks {
    type V = HooksView;

    open spec fn view(&self) -> HooksView {
        Seq::new(self.components@.len(), |i: int| (self.components@[i].0@, members_view(self.components@[i].1@)))
    }
}

/// Where the first entry for the component `name` stands among the entries from `from` on.
pub open spec fn hook_position(hooks: HooksView, name: Seq<char>, from: int) -> Option<int>
    decreases hooks.len() - from,
{
    if from < 0 || from >= hooks.len() {
        None
    } else if hooks[from].0 == name {
        Some(from)
    } else {
        hook_position(hooks, name, from + 1)
    }
}

/// The overrides for the component `name`: none for a component without a name or without
/// an entry.
pub open spec fn hooks_for(hooks: HooksView, name: Option<Seq<char>>) -> Seq<(Seq<char>, JsonView)> {
    match name {
        Some(n) => match hook_position(hooks, n, 0) {
            Some(i) => hooks[i].1,
            None => Seq::empty(),
        },
        None => Seq::empty(),
    }
}

/// The hooks with the property `property` of the component `component` set to `value`: in
/// the entry of that component, or in a new last entry where it has none.
pub open spec fn with_hook(hooks: HooksView, component: Seq<char>, property: Seq<char>, value: JsonView) -> HooksView {
    match hook_position(hooks, component, 0) {
        Some(i) => hooks.update(i, (component, with_member(hooks[i].1, property, value))),
        None => hooks.push((component, seq![(property, value)])),
    }
}

impl Hooks {
    /// No hooks.
    pub fn new() -> (r: Hooks)
        ensures
            r@ == Seq::<(Seq<char>, Seq<(Seq<char>, JsonView)>)>::empty(),
    {
        let r = Hooks { components: Vec::new() };
        assert(r@ =~= Seq::<(Seq<char>, Seq<(Seq<char>, JsonView)>)>::empty());
        r
    }

    /// The overrides for the component `name`, where there is an entry for it.
    pub fn get(&self, name: &str) -> (r: Option<&Vec<(String, Json)>>)
        ensures
            match r {
                Some(overrides) => hook_position(self@, name@, 0) is Some && members_view(overrides@) == hooks_for(
                    self@,
                    Some(name@),
                ),
                None => hook_position(self@, name@, 0) is None,
            },
    {
        let mut i: usize = 0;
        while i < self.components.len()
            invariant
                i <= self.components.len(),
                hook_position(self@, name@, 0) == hook_position(self@, name@, i as int),
            decreases self.components.len() - i,
        {
            if same_text(self.components[i].0.as_str(), name) {
                return Some(&self.components[i].1);
            }
            i = i + 1;
        }
        None
    }
}

/// Sets the property `property` of the component `component` to `value`.
pub fn add_hook(hooks: &mut Hooks, component: &str, property: &str, value: Json)
    ensures
        final(hooks)@ == with_hook(old(hooks)@, component@, property@, value@),
{
    let ghost before = hooks@;
    let mut i: usize = 0;
    while i < hooks.components.len()
        invariant
            i <= hooks.components.len(),
            hooks@ == before,
            before == old(hooks)@,
            hook_position(before, component@, 0) == hook_position(before, component@, i as int),
        decreases hooks.components.len() - i,
    {
        if same_text(hooks.components[i].0.as_str(), component) {
            set_member(&mut hooks.components[i].1, property, value);
            assert(hooks@ =~= before.update(i as int, (component@, with_member(before[i as int].1, property@, value@))));
            return ;
        }
        i = i + 1;
    }
    let properties = one_member(property, value);
    hooks.components.push((component.to_owned(), properties));
    assert(hooks@ =~= before.push((component@, seq![(property@, value@)])));
}

} // verus!
