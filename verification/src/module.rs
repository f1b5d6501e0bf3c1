//! The parsed module: an ordered sequence of sections.

use vstd::prelude::*;
use crate::section::{Section, SectionID};

verus! {

/// A parsed module.
#[derive(Debug, PartialEq, Eq)]
pub struct Module {
    pub sections: Vec<Section>,
}

/// A parsed module, under the name the validator's callers use.
pub type ModuleParsed = Module;

impl Default for Module {
    /// The empty module.
    fn default() -> (r: Self)
        ensures
            r.sections@.len() == 0,
    {
        Module { sections: Vec::new() }
    }
}

impl Module {
    /// Finds the first section of the given kind.
    pub fn sec_by_id(&self, id: SectionID) -> (r: Option<&Section>)
        ensures
            match r {
                Some(sec) => exists|i: int|
                    {
                        &&& 0 <= i < self.sections@.len()
                        &&& self.sections@[i] == *sec
                        &&& (#[trigger] self.sections@[i]).spec_id() == id
                        &&& forall|j: int| 0 <= j < i ==> self.sections@[j].spec_id() != id
                    },
                None => forall|i: int|
                    0 <= i < self.sections@.len() ==> (#[trigger] self.sections@[i]).spec_id()
                        != id,
            },
    {
        let mut i: usize = 0;
        while i < self.sections.len()
            invariant
                i <= self.sections@.len(),
                forall|j: int| 0 <= j < i ==> (#[trigger] self.sections@[j]).spec_id() != id,
            decreases self.sections@.len() - i,
        {
            if self.sections[i].id() == id {
                return Some(&self.sections[i]);
            }
            i = i + 1;
        }
        None
    }

    /// Finds the first section of the given kind, for mutation.
    pub fn sec_by_id_mut(&mut self, id: SectionID) -> (r: Option<&mut Section>)
        ensures
            (r is Some <==> exists|i: int|
                0 <= i < old(self).sections@.len() && (#[trigger] old(
                    self,
                ).sections@[i]).spec_id() == id),
            (r matches Some(sec) ==> exists|i: int|
                {
                    &&& 0 <= i < old(self).sections@.len()
                    &&& *sec == old(self).sections@[i]
                    &&& (#[trigger] old(self).sections@[i]).spec_id() == id
                    &&& final(self).sections@ == old(self).sections@.update(i, *final(sec))
                }),
            (r is None ==> *final(self) == *old(self)),
    {
        let mut i: usize = 0;
        while i < self.sections.len()
            invariant
                i <= self.sections@.len(),
                *self == *old(self),
                forall|j: int| 0 <= j < i ==> (#[trigger] self.sections@[j]).spec_id() != id,
            decreases self.sections@.len() - i,
        {
            if self.sections[i].id() == id {
                let ghost w = i as int;
                let sections = &mut self.sections;
                let r = &mut sections[i];
                proof {
                    assert(old(self).sections@[w].spec_id() == id);
                }
                return Some(r);
            }
            i = i + 1;
        }
        None
    }
}

} // verus!
