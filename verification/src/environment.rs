//! Lexically scoped environments.
//!
//! An environment is one frame of bindings with an optional parent.
//! Frames live in an arena owned by the evaluator and refer to their
//! parent by index, so a function value can capture its defining frame by
//! handle, later bindings in that frame stay visible to the closure, and
//! cycles (a function bound into its own defining frame) are harmless.
//! A parent's index is always below its child's, which grounds the walk
//! up the chain.

use crate::builtins::{spec_builtins, BuiltinFunctions};
use crate::lexer::eq_str;
use crate::object::{clone_object, Object, SpecObject};
use vstd::prelude::*;

verus! {

broadcast use vstd::std_specs::vec::group_vec_axioms;

/// One frame of bindings: names bound to values, and the handle of the
/// enclosing frame, if any.
#[derive(Debug, PartialEq)]
pub struct Environment {
    pub store: Vec<(String, Object)>,
    pub parent: Option<usize>,
}

/// The model of a frame.
pub struct SpecFrame {
    pub store: Seq<(Seq<char>, SpecObject)>,
    pub parent: Option<int>,
}

impl View for Environment {
    type V = SpecFrame;

    open spec fn view(&self) -> SpecFrame {
        SpecFrame {
            store: Seq::new(
                self.store.len() as nat,
                |i: int|
                    if 0 <= i < self.store.len() {
                        (self.store[i].0@, self.store[i].1@)
                    } else {
                        vstd::pervasive::arbitrary()
                    },
            ),
            parent: match self.parent {
                Option::Some(p) => Option::Some(p as int),
                Option::None => Option::None,
            },
        }
    }
}

/// Looks a name up in one frame's bindings; the latest binding wins.
pub open spec fn spec_store_lookup(store: Seq<(Seq<char>, SpecObject)>, name: Seq<char>) -> Option<
    SpecObject,
>
    decreases store.len(),
{
    if store.len() == 0 {
        None
    } else if store.last().0 == name {
        Some(store.last().1)
    } else {
        spec_store_lookup(store.drop_last(), name)
    }
}

impl Environment {
    /// A root frame, pre-populated with the builtins and without a parent.
    pub fn new() -> (r: Environment)
        ensures
            r@.store == spec_builtins(),
            r@.parent is None,
    {
        let mut store: Vec<(String, Object)> = Vec::new();
        Self::fill_env_with_builtins(&mut store);
        let r = Environment { store, parent: None };
        proof {
            assert(r@.store =~= spec_builtins());
        }
        r
    }

    /// Installs the builtin table into a fresh frame's bindings.
    fn fill_env_with_builtins(store: &mut Vec<(String, Object)>)
        requires
            old(store)@.len() == 0,
        ensures
            final(store)@.len() == spec_builtins().len(),
            forall|j: int|
                0 <= j < final(store)@.len() ==> (#[trigger] final(store)@[j]).0@ == spec_builtins(
                )[j].0 && final(store)@[j].1@ == spec_builtins()[j].1,
    {
        let builtins = BuiltinFunctions::new().get_builtins();
        let mut i: usize = 0;
        while i < builtins.len()
            invariant
                i <= builtins.len(),
                store@.len() == i,
                builtins@.len() == spec_builtins().len(),
                forall|j: int|
                    0 <= j < builtins@.len() ==> (#[trigger] builtins@[j]).0@ == spec_builtins(
                    )[j].0 && builtins@[j].1@ == spec_builtins()[j].1,
                forall|j: int|
                    0 <= j < i ==> (#[trigger] store@[j]).0@ == spec_builtins()[j].0
                        && store@[j].1@ == spec_builtins()[j].1,
            decreases builtins.len() - i,
        {
            let entry_name = builtins[i].0.0.clone();
            let entry_obj = clone_object(&builtins[i].1);
            store.push((entry_name, entry_obj));
            i = i + 1;
        }
    }

    /// A fresh child frame of the frame with handle `outer`; bindings are
    /// found there first, then along the parent chain.
    pub fn new_with_outer(outer: usize) -> (r: Environment)
        ensures
            r@.store == Seq::<(Seq<char>, SpecObject)>::empty(),
            r@.parent == Some(outer as int),
    {
        let r = Environment { store: Vec::new(), parent: Some(outer) };
        proof {
            assert(r@.store =~= Seq::<(Seq<char>, SpecObject)>::empty());
        }
        r
    }

    /// Binds a name in this frame; a later binding shadows an earlier one.
    pub fn set(&mut self, name: &str, val: Object)
        ensures
            final(self)@.store == old(self)@.store.push((name@, val@)),
            final(self)@.parent == old(self)@.parent,
    {
        let ghost old_view = self@.store;
        self.store.push((name.to_owned(), val));
        proof {
            assert(self@.store =~= old_view.push((name@, val@)));
        }
    }

    /// Looks a name up in this frame alone; the evaluator walks the
    /// parent chain through the arena.
    pub fn get(&self, name: &str) -> (r: Option<Object>)
        ensures
            match r {
                Some(o) => spec_store_lookup(self@.store, name@) == Some(o@),
                None => spec_store_lookup(self@.store, name@) is None,
            },
    {
        let mut i = self.store.len();
        proof {
            assert(self@.store.take(i as int) =~= self@.store);
        }
        while i > 0
            invariant
                i <= self.store.len(),
                spec_store_lookup(self@.store, name@) == spec_store_lookup(
                    self@.store.take(i as int),
                    name@,
                ),
            decreases i,
        {
            i = i - 1;
            if eq_str(self.store[i].0.as_str(), name) {
                let r = clone_object(&self.store[i].1);
                proof {
                    assert(self@.store.take(i + 1).last() == self@.store[i as int]);
                }
                return Some(r);
            }
            proof {
                assert(self@.store.take(i + 1).last() == self@.store[i as int]);
                assert(self@.store.take(i + 1).drop_last() =~= self@.store.take(i as int));
            }
        }
        proof {
            assert(self@.store.take(0).len() == 0);
        }
        None
    }

    /// The handle of this frame's parent, if it has one.
    pub fn parent_handle(&self) -> (r: Option<usize>)
        ensures
            match r {
                Some(p) => self@.parent == Some(p as int),
                None => self@.parent is None,
            },
    {
        self.parent
    }
}

/// The model of the arena of frames.
pub open spec fn view_envs(envs: Seq<Environment>) -> Seq<SpecFrame> {
    Seq::new(envs.len(), |i: int| envs[i]@)
}

/// Well-formed arena: every parent handle points below its frame, so a
/// walk up the chain ends.
pub open spec fn spec_wf_envs(envs: Seq<SpecFrame>) -> bool {
    forall|i: int|
        0 <= i < envs.len() ==> match (#[trigger] envs[i]).parent {
            Some(p) => 0 <= p < i,
            None => true,
        }
}

/// Looks a name up from the frame with handle `e`, walking the parent
/// chain until a binding or the root.
pub open spec fn spec_env_get(envs: Seq<SpecFrame>, e: int, name: Seq<char>) -> Option<SpecObject>
    decreases e,
{
    if 0 <= e < envs.len() {
        match spec_store_lookup(envs[e].store, name) {
            Some(v) => Some(v),
            None => match envs[e].parent {
                Some(p) => if 0 <= p < e {
                    spec_env_get(envs, p, name)
                } else {
                    None
                },
                None => None,
            },
        }
    } else {
        None
    }
}

/// Looks a name up from the frame with handle `e` in the arena.
pub fn env_get(envs: &Vec<Environment>, e: usize, name: &str) -> (r: Option<Object>)
    requires
        e < envs@.len(),
        spec_wf_envs(view_envs(envs@)),
    ensures
        match r {
            Some(o) => spec_env_get(view_envs(envs@), e as int, name@) == Some(o@),
            None => spec_env_get(view_envs(envs@), e as int, name@) is None,
        },
    decreases e,
{
    proof {
        assert(view_envs(envs@)[e as int] == envs@[e as int]@);
    }
    match envs[e].get(name) {
        Some(o) => Some(o),
        None => {
            match envs[e].parent_handle() {
                Some(p) => {
                    proof {
                        assert(match view_envs(envs@)[e as int].parent {
                            Some(q) => 0 <= q < e,
                            None => true,
                        });
                    }
                    env_get(envs, p, name)
                },
                None => None,
            }
        },
    }
}

} // verus!
