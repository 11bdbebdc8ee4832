//! The manager: the register of the kinds of component that a screen may use.

use crate::component::{filled_in, joined, patch, ComponentType, PublicData};
use crate::json::{members_view, one_member, Json};
use vstd::prelude::*;

verus! {

/// The register of component kinds. A screen description may only name kinds that were
/// registered.
#[derive(Debug)]
pub struct Manager {
    pub(crate) controls_types: Vec<ComponentType>,
}

impl View for Manager {
    type V = Set<ComponentType>;

    closed spec fn view(&self) -> Set<ComponentType> {
        self.controls_types@.to_set()
    }
}

impl Manager {
    /// A manager that knows no kind of component.
    pub fn new() -> (r: Manager)
        ensures
            r@ == Set::<ComponentType>::empty(),
    {
        let r = Manager { controls_types: Vec::new() };
        assert(r@ =~= Set::<ComponentType>::empty());
        r
    }

    /// Whether the kind was registered.
    pub fn knows(&self, component: ComponentType) -> (r: bool)
        ensures
            r == self@.contains(component),
    {
        let mut i: usize = 0;
        while i < self.controls_types.len()
            invariant
                i <= self.controls_types.len(),
                forall|k: int| 0 <= k < i ==> self.controls_types@[k] != component,
            decreases self.controls_types.len() - i,
        {
            if self.controls_types[i] == component {
                assert(self.controls_types@.contains(component));
                return true;
            }
            i = i + 1;
        }
        false
    }

    /// Registers a kind of component under its name.
    pub fn register_component_type(&mut self, component: ComponentType)
        ensures
            final(self)@ == old(self)@.insert(component),
    {
        if !self.knows(component) {
            self.controls_types.push(component);
            assert(self@ =~= old(self)@.insert(component)) by {
                assert forall|c: ComponentType| self@.contains(c) <==> old(self)@.insert(component).contains(c) by {
                    if self@.contains(c) {
                        let k = choose|k: int| 0 <= k < self.controls_types@.len() && self.controls_types@[k] == c;
                        if k < old(self).controls_types@.len() {
                            assert(old(self).controls_types@[k] == c);
                        }
                    }
                    if old(self)@.contains(c) {
                        let k = choose|k: int|
                            0 <= k < old(self).controls_types@.len() && old(self).controls_types@[k] == c;
                        assert(self.controls_types@[k] == c);
                    }
                    if c == component {
                        assert(self.controls_types@[self.controls_types@.len() - 1] == c);
                    }
                }
            }
        } else {
            assert(self@ =~= old(self)@.insert(component));
        }
    }

    /// Merges overrides into what a component is told.
    ///
    /// The data is written as a structured value, each override sets the member of its name,
    /// and the value is read again as data of the same kind. Where it cannot be read (an
    /// override of the wrong type, say), or where the written value is no object and so has
    /// no member to set, the data comes back as it was, and the flag is `false`. No
    /// overrides leave the data as it is.
    pub fn join_hooks(value: &PublicData, hooks: &Vec<(String, Json)>) -> (r: (PublicData, bool))
        ensures
            (r.0@, r.1) == joined(value@, members_view(hooks@)),
    {
        if hooks.len() == 0 {
            return (value.clone(), true);
        }
        let serialized = value.to_json();
        if serialized.as_object().is_none() {
            return (value.clone(), false);
        }
        let merged = patch(serialized, hooks);
        match value.kind().from_json(&merged) {
            Some(object) => (object, true),
            None => (value.clone(), false),
        }
    }

    /// Fills the members of a partial description into data, one after the other. A member
    /// that cannot be merged (one of the wrong type, say) is passed over, and the others are
    /// merged all the same.
    pub fn fill_in(data: PublicData, partial: &Vec<(String, Json)>) -> (r: PublicData)
        ensures
            r@ == filled_in(data@, members_view(partial@), partial@.len() as int),
    {
        let mut current = data;
        let mut i: usize = 0;
        while i < partial.len()
            invariant
                i <= partial.len(),
                current@ == filled_in(data@, members_view(partial@), i as int),
            decreases partial.len() - i,
        {
            let single = one_member(partial[i].0.as_str(), partial[i].1.clone());
            assert(members_view(single@) =~= seq![members_view(partial@)[i as int]]);
            current = Manager::join_hooks(&current, &single).0;
            i = i + 1;
        }
        current
    }
}

} // verus!
