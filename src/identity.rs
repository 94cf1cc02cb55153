use vstd::prelude::*;
use crate::module::{id_key, str_eq, ModuleId};
use crate::plugin::CompilationError;

verus! {

/// The identities met so far, each with the resolved path it came from.
pub struct IdentityRegistry {
    entries: Vec<(ModuleId, String)>,
}

impl IdentityRegistry {
    /// The registered identities, by key, with their resolved paths.
    pub closed spec fn entries_view(&self) -> Seq<((Seq<char>, Seq<char>), Seq<char>)> {
        self.entries@.map_values(|e: (ModuleId, String)| (id_key(e.0), e.1@))
    }

    /// Each identity is registered once.
    pub open spec fn wf(&self) -> bool {
        forall|i: int, j: int|
            0 <= i < j < self.entries_view().len() ==> self.entries_view()[i].0 != self.entries_view()[j].0
    }

    /// The resolved path registered for an identity.
    pub open spec fn path_of(&self, key: (Seq<char>, Seq<char>)) -> Option<Seq<char>> {
        if exists|i: int| 0 <= i < self.entries_view().len() && self.entries_view()[i].0 == key {
            let i = choose|i: int| 0 <= i < self.entries_view().len() && self.entries_view()[i].0 == key;
            Some(self.entries_view()[i].1)
        } else {
            None
        }
    }

    pub fn new() -> (r: Self)
        ensures
            r.wf(),
            forall|k: (Seq<char>, Seq<char>)| r.path_of(k) is None,
    {
        let r = IdentityRegistry { entries: Vec::new() };
        assert(r.entries_view().len() == 0);
        r
    }

    /// Registers the identity made from a resolved path. An identity already
    /// registered for another path is a conflict and is reported, never merged;
    /// one registered for the same path is accepted as it is.
    pub fn register(&mut self, id: ModuleId, resolved_path: &str) -> (r: Result<(), CompilationError>)
        requires
            (*old(self)).wf(),
        ensures
            (*final(self)).wf(),
            ((*old(self)).path_of(id_key(id)) is Some && (*old(self)).path_of(id_key(id))->0 != resolved_path@) ==> {
                &&& r matches Err(CompilationError::IdentityConflictError { module_id, first_path, second_path })
                &&& module_id@ == id.dev_view()
                &&& first_path@ == (*old(self)).path_of(id_key(id))->0
                &&& second_path@ == resolved_path@
                &&& (*final(self)).entries_view() == (*old(self)).entries_view()
            },
            (*old(self)).path_of(id_key(id)) == Some(resolved_path@) ==> r is Ok && (*final(self)).entries_view()
                == (*old(self)).entries_view(),
            (*old(self)).path_of(id_key(id)) is None ==> r is Ok && (*final(self)).entries_view()
                == (*old(self)).entries_view().push((id_key(id), resolved_path@)),
    {
        let ghost es = self.entries_view();
        let mut i: usize = 0;
        while i < self.entries.len()
            invariant
                i <= self.entries@.len(),
                es == self.entries_view(),
                *self == *old(self),
                self.wf(),
                forall|j: int| 0 <= j < i ==> es[j].0 != id_key(id),
            decreases self.entries.len() - i,
        {
            if self.entries[i].0 == id {
                assert(es[i as int].0 == id_key(id));
                assert(self.path_of(id_key(id)) == Some(es[i as int].1)) by {
                    let key = id_key(id);
                    assert(0 <= i < es.len() && es[i as int].0 == key);
                    let k = choose|k: int| 0 <= k < es.len() && es[k].0 == key;
                    if k < i {
                        assert(es[k].0 != es[i as int].0);
                    } else if k > i {
                        assert(es[i as int].0 != es[k].0);
                    }
                }
                if str_eq(self.entries[i].1.as_str(), resolved_path) {
                    return Ok(());
                }
                let first_path = self.entries[i].1.clone();
                return Err(CompilationError::IdentityConflictError {
                    module_id: id.to_string(),
                    first_path,
                    second_path: String::from_str(resolved_path),
                });
            }
            i = i + 1;
        }
        assert(self.path_of(id_key(id)) is None);
        let ghost key = id_key(id);
        self.entries.push((id, String::from_str(resolved_path)));
        assert(self.entries_view() =~= es.push((key, resolved_path@)));
        Ok(())
    }
}

} // verus!
