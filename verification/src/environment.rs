//! Lexically nested environments: a frame of name-to-value bindings
//! plus an optional enclosing environment.
//!
//! Lookup walks outward until the first hit; insertion always writes to
//! the innermost frame.  Enclosing an environment captures a full copy,
//! so later bindings in the original do not show through (closure
//! capture by value).

use vstd::prelude::*;
use crate::object::{obj_view, ObjectType, ValueV};
use crate::strutil::str_eq;

verus! {

/// A frame of bindings with an optional enclosing environment.
#[derive(Debug)]
pub struct Environment {
    pub store: Vec<(String, ObjectType)>,
    pub outer: Option<Box<Environment>>,
}

/// Mathematical model of an environment.
pub struct EnvV {
    pub store: Seq<(Seq<char>, ValueV)>,
    pub outer: Option<Box<EnvV>>,
}

/// The model of one binding.
pub open spec fn pair_view(p: (String, ObjectType)) -> (Seq<char>, ValueV)
    decreases p,
{
    (p.0@, obj_view(p.1))
}

/// The models of a frame's bindings.
pub open spec fn store_view(v: Seq<(String, ObjectType)>) -> Seq<(Seq<char>, ValueV)>
    decreases v,
{
    if v.len() == 0 {
        Seq::<(Seq<char>, ValueV)>::empty()
    } else {
        seq![pair_view(v[0])] + store_view(v.drop_first())
    }
}

/// A sequence of binding models is as long as its source.
pub broadcast proof fn lemma_store_view_len(v: Seq<(String, ObjectType)>)
    ensures
        (#[trigger] store_view(v)).len() == v.len(),
    decreases v,
{
    if v.len() != 0 {
        lemma_store_view_len(v.drop_first());
    }
}

/// Each binding model is the view of the binding at its index.
pub broadcast proof fn lemma_store_view_index(v: Seq<(String, ObjectType)>, i: int)
    requires
        0 <= i < v.len(),
    ensures
        #[trigger] store_view(v)[i] == pair_view(v[i]),
    decreases v,
{
    lemma_store_view_len(v);
    if i > 0 {
        lemma_store_view_index(v.drop_first(), i - 1);
    }
}

/// The model of an environment.
pub open spec fn env_view(e: Environment) -> EnvV
    decreases e,
{
    EnvV {
        store: store_view(e.store@),
        outer: match e.outer {
            Option::Some(o) => Option::Some(Box::new(env_view(*o))),
            Option::None => Option::None,
        },
    }
}

impl View for Environment {
    type V = EnvV;

    open spec fn view(&self) -> EnvV {
        env_view(*self)
    }
}

/// The first binding of `name` in a frame, front to back.
pub open spec fn lookup_store(store: Seq<(Seq<char>, ValueV)>, name: Seq<char>) -> Option<ValueV>
    decreases store.len(),
{
    if store.len() == 0 {
        Option::None
    } else if store[0].0 == name {
        Option::Some(store[0].1)
    } else {
        lookup_store(store.drop_first(), name)
    }
}

/// Lookup: the innermost frame that binds `name` wins; a miss in every
/// frame is `None`.
pub open spec fn env_lookup(e: EnvV, name: Seq<char>) -> Option<ValueV>
    decreases e,
{
    match lookup_store(e.store, name) {
        Option::Some(v) => Option::Some(v),
        Option::None => match e.outer {
            Option::Some(o) => env_lookup(*o, name),
            Option::None => Option::None,
        },
    }
}

/// A frame with `name` bound to `v`: the first existing binding of
/// `name` is replaced, or a new binding is appended.
pub open spec fn store_set(
    store: Seq<(Seq<char>, ValueV)>,
    name: Seq<char>,
    v: ValueV,
) -> Seq<(Seq<char>, ValueV)>
    decreases store.len(),
{
    if store.len() == 0 {
        seq![(name, v)]
    } else if store[0].0 == name {
        seq![(name, v)] + store.drop_first()
    } else {
        seq![store[0]] + store_set(store.drop_first(), name, v)
    }
}

/// A frame extended with every binding of `other`, in order.
pub open spec fn store_merge(
    store: Seq<(Seq<char>, ValueV)>,
    other: Seq<(Seq<char>, ValueV)>,
) -> Seq<(Seq<char>, ValueV)>
    decreases other.len(),
{
    if other.len() == 0 {
        store
    } else {
        store_merge(store_set(store, other[0].0, other[0].1), other.drop_first())
    }
}

impl Clone for Environment {
    /// Clones preserve the modelled environment exactly.
    fn clone(&self) -> (r: Self)
        ensures
            r@ == self@,
        decreases self,
    {
        broadcast use lemma_store_view_len, lemma_store_view_index;

        let mut store: Vec<(String, ObjectType)> = Vec::new();
        let mut j: usize = 0;
        while j < self.store.len()
            invariant
                j <= self.store@.len(),
                store@.len() == j,
                forall|k: int|
                    0 <= k < j ==> pair_view(#[trigger] store@[k]) == pair_view(self.store@[k]),
            decreases self.store@.len() - j,
        {
            let entry = &self.store[j];
            store.push((entry.0.clone(), entry.1.clone()));
            j = j + 1;
        }
        assert(store_view(store@) =~= store_view(self.store@));
        let outer: Option<Box<Environment>> = match &self.outer {
            Option::Some(o) => Option::Some(Box::new((**o).clone())),
            Option::None => Option::None,
        };
        Environment { store, outer }
    }
}

impl Environment {
    /// The empty environment, with no enclosing one.
    pub fn new() -> (r: Self)
        ensures
            r@ == (EnvV { store: Seq::<(Seq<char>, ValueV)>::empty(), outer: Option::None }),
    {
        let r = Environment { store: Vec::new(), outer: Option::None };
        assert(store_view(r.store@) =~= Seq::<(Seq<char>, ValueV)>::empty());
        r
    }

    /// An empty frame enclosed by a copy of `outer`.
    pub fn new_enclosed(outer: &Environment) -> (r: Environment)
        ensures
            r@ == (EnvV {
                store: Seq::<(Seq<char>, ValueV)>::empty(),
                outer: Option::Some(Box::new(outer@)),
            }),
    {
        let r = Environment {
            store: Vec::new(),
            outer: Option::Some(Box::new(outer.clone())),
        };
        assert(store_view(r.store@) =~= Seq::<(Seq<char>, ValueV)>::empty());
        r
    }

    /// The value bound to `name`, searching this frame first and then
    /// outward; `None` if no frame binds it.
    pub fn get(&self, name: &str) -> (r: Option<&ObjectType>)
        ensures
            match r {
                Option::Some(v) => env_lookup(self@, name@) == Option::Some(v@),
                Option::None => env_lookup(self@, name@) is None,
            },
        decreases self,
    {
        broadcast use lemma_store_view_len, lemma_store_view_index;

        let ghost whole = store_view(self.store@);
        proof {
            assert(whole.len() == self.store@.len());
            assert(whole.skip(0) =~= whole);
        }
        let mut j: usize = 0;
        while j < self.store.len()
            invariant
                j <= self.store@.len(),
                whole == store_view(self.store@),
                whole.len() == self.store@.len(),
                lookup_store(whole.skip(j as int), name@) == lookup_store(whole, name@),
            decreases self.store@.len() - j,
        {
            let entry = &self.store[j];
            proof {
                lemma_store_view_index(self.store@, j as int);
                assert(whole.skip(j as int)[0] == whole[j as int]);
            }
            if str_eq(entry.0.as_str(), name) {
                assert(lookup_store(whole.skip(j as int), name@) == Option::Some(
                    pair_view(self.store@[j as int]).1,
                ));
                return Option::Some(&entry.1);
            }
            proof {
                assert(whole.skip(j as int).drop_first() =~= whole.skip(j as int + 1));
            }
            j = j + 1;
        }
        assert(whole.skip(self.store@.len() as int) =~= Seq::<(Seq<char>, ValueV)>::empty());
        assert(lookup_store(whole, name@) is None);
        match &self.outer {
            Option::Some(o) => o.get(name),
            Option::None => Option::None,
        }
    }

    /// Binds `name` to `value` in this frame, unconditionally: an
    /// existing binding is replaced, otherwise a new one is appended.
    pub fn set(&mut self, name: &str, value: ObjectType)
        ensures
            final(self)@ == (EnvV {
                store: store_set(old(self)@.store, name@, value@),
                outer: old(self)@.outer,
            }),
    {
        broadcast use lemma_store_view_len, lemma_store_view_index;

        let ghost whole = store_view(self.store@);
        proof {
            assert(whole.len() == self.store@.len());
        }
        let ghost vval = obj_view(value);
        let mut j: usize = 0;
        let mut found = false;
        while j < self.store.len() && !found
            invariant
                j <= self.store@.len(),
                self == old(self),
                whole == store_view(self.store@),
                whole.len() == self.store@.len(),
                forall|k: int| 0 <= k < j ==> (#[trigger] whole[k]).0 != name@,
                found ==> j < self.store@.len() && whole[j as int].0 == name@,
            decreases self.store@.len() - j + (if found {
                0int
            } else {
                1int
            }),
        {
            let entry = &self.store[j];
            proof {
                lemma_store_view_index(self.store@, j as int);
            }
            if str_eq(entry.0.as_str(), name) {
                found = true;
            } else {
                j = j + 1;
            }
        }
        if found {
            proof {
                lemma_store_set_found(whole, name@, vval, j as int);
            }
            let pair = (name.to_owned(), value);
            proof {
                assert(pair.0@ == name@);
                assert(obj_view(pair.1) == vval);
            }
            let ghost pv = pair_view(pair);
            self.store.set(j, pair);
            proof {
                assert(pair_view(self.store@[j as int]) == pv);
                assert forall|k: int|
                    0 <= k < self.store@.len() implies store_view(self.store@)[k] == whole.update(
                    j as int,
                    (name@, vval),
                )[k] by {
                    lemma_store_view_index(self.store@, k);
                    lemma_store_view_index(old(self).store@, k);
                }
                lemma_store_view_len(self.store@);
                assert(store_view(self.store@) =~= whole.update(j as int, (name@, vval)));
            }
        } else {
            proof {
                lemma_store_set_missing(whole, name@, vval);
            }
            let pair = (name.to_owned(), value);
            proof {
                assert(pair.0@ == name@);
                assert(obj_view(pair.1) == vval);
            }
            let ghost pv = pair_view(pair);
            self.store.push(pair);
            proof {
                assert(pair_view(self.store@[self.store@.len() - 1]) == pv);
                assert forall|k: int|
                    0 <= k < self.store@.len() implies store_view(self.store@)[k] == whole.push(
                    (name@, vval),
                )[k] by {
                    lemma_store_view_index(self.store@, k);
                    if k < old(self).store@.len() {
                        lemma_store_view_index(old(self).store@, k);
                    }
                }
                lemma_store_view_len(self.store@);
                assert(store_view(self.store@) =~= whole.push((name@, vval)));
            }
        }
    }

    /// Copies every binding of `other`'s innermost frame into this
    /// frame, in order; `other`'s enclosing frames are not consulted.
    pub fn merge(&mut self, other: &Environment)
        ensures
            final(self)@ == (EnvV {
                store: store_merge(old(self)@.store, other@.store),
                outer: old(self)@.outer,
            }),
    {
        broadcast use lemma_store_view_len, lemma_store_view_index;

        let ghost others = store_view(other.store@);
        proof {
            assert(others.len() == other.store@.len());
            assert(others.skip(0) =~= others);
        }
        let mut j: usize = 0;
        while j < other.store.len()
            invariant
                j <= other.store@.len(),
                others == store_view(other.store@),
                others.len() == other.store@.len(),
                self@.outer == old(self)@.outer,
                store_merge(self@.store, others.skip(j as int)) == store_merge(
                    old(self)@.store,
                    others,
                ),
            decreases other.store@.len() - j,
        {
            let entry = &other.store[j];
            proof {
                lemma_store_view_index(other.store@, j as int);
                assert(others.skip(j as int)[0] == others[j as int]);
            }
            let ghost before = self@.store;
            self.set(entry.0.as_str(), entry.1.clone());
            proof {
                assert(others.skip(j as int).drop_first() =~= others.skip(j as int + 1));
                assert(self@.store == store_set(before, others[j as int].0, others[j as int].1));
            }
            j = j + 1;
        }
        assert(others.skip(other.store@.len() as int) =~= Seq::<(Seq<char>, ValueV)>::empty());
    }

    /// Removes every binding of this frame; enclosing frames are kept.
    pub fn clear(&mut self)
        ensures
            final(self)@ == (EnvV {
                store: Seq::<(Seq<char>, ValueV)>::empty(),
                outer: old(self)@.outer,
            }),
    {
        self.store = Vec::new();
        assert(store_view(self.store@) =~= Seq::<(Seq<char>, ValueV)>::empty());
    }
}

/// No name is bound twice within one frame.  Frames start empty and
/// are only changed through [`store_set`], which replaces an existing
/// binding rather than duplicating it, so every reachable frame keeps
/// its keys unique.
pub open spec fn store_keys_unique(store: Seq<(Seq<char>, ValueV)>) -> bool {
    forall|i: int, j: int|
        0 <= i < j < store.len() ==> (#[trigger] store[i]).0 != (#[trigger] store[j]).0
}

/// Every key of a frame after a set is either `name` or a key the
/// frame already had.
pub proof fn lemma_store_set_keys(store: Seq<(Seq<char>, ValueV)>, name: Seq<char>, v: ValueV)
    ensures
        forall|k: int|
            0 <= k < store_set(store, name, v).len() ==> ((#[trigger] store_set(
                store,
                name,
                v,
            )[k]).0 == name || (k < store.len() && store_set(store, name, v)[k].0 == store[k].0)),
        store_set(store, name, v).len() == store.len() || store_set(store, name, v).len()
            == store.len() + 1,
    decreases store.len(),
{
    reveal_with_fuel(store_set, 3);
    if store.len() == 0 {
    } else if store[0].0 == name {
    } else {
        lemma_store_set_keys(store.drop_first(), name, v);
        let tail = store_set(store.drop_first(), name, v);
        let r = seq![store[0]] + tail;
        assert forall|k: int| 0 <= k < r.len() implies ((#[trigger] r[k]).0 == name || (k
            < store.len() && r[k].0 == store[k].0)) by {
            if k > 0 {
                assert(r[k] == tail[k - 1]);
                if tail[k - 1].0 != name {
                    assert(k - 1 < store.drop_first().len());
                    assert(store.drop_first()[k - 1] == store[k]);
                }
            }
        }
    }
}

/// Setting a binding keeps a frame's keys unique.
pub proof fn lemma_store_set_keeps_unique(
    store: Seq<(Seq<char>, ValueV)>,
    name: Seq<char>,
    v: ValueV,
)
    requires
        store_keys_unique(store),
    ensures
        store_keys_unique(store_set(store, name, v)),
    decreases store.len(),
{
    reveal_with_fuel(store_set, 3);
    if store.len() == 0 {
        assert(store_keys_unique(seq![(name, v)]));
    } else if store[0].0 == name {
        let r = seq![(name, v)] + store.drop_first();
        assert forall|i: int, j: int| 0 <= i < j < r.len() implies (#[trigger] r[i]).0 != (
        #[trigger] r[j]).0 by {
            if i > 0 {
                assert(r[i] == store[i]);
            }
            assert(r[j] == store[j]);
        }
    } else {
        assert(store_keys_unique(store.drop_first())) by {
            assert forall|i: int, j: int|
                0 <= i < j < store.drop_first().len() implies (#[trigger] store.drop_first()[i]).0
                != (#[trigger] store.drop_first()[j]).0 by {
                assert(store.drop_first()[i] == store[i + 1]);
                assert(store.drop_first()[j] == store[j + 1]);
            }
        }
        lemma_store_set_keeps_unique(store.drop_first(), name, v);
        lemma_store_set_keys(store.drop_first(), name, v);
        let tail = store_set(store.drop_first(), name, v);
        let r = seq![store[0]] + tail;
        assert forall|i: int, j: int| 0 <= i < j < r.len() implies (#[trigger] r[i]).0 != (
        #[trigger] r[j]).0 by {
            if i == 0 {
                assert(r[j] == tail[j - 1]);
                if tail[j - 1].0 != name {
                    assert(tail[j - 1].0 == store.drop_first()[j - 1].0);
                    assert(store.drop_first()[j - 1] == store[j]);
                }
            } else {
                assert(r[i] == tail[i - 1] && r[j] == tail[j - 1]);
            }
        }
    }
}

/// Looking up a name just set finds the new value.
pub proof fn lemma_lookup_store_set_same(
    store: Seq<(Seq<char>, ValueV)>,
    name: Seq<char>,
    v: ValueV,
)
    ensures
        lookup_store(store_set(store, name, v), name) == Option::Some(v),
    decreases store.len(),
{
    if store.len() != 0 && store[0].0 != name {
        lemma_lookup_store_set_same(store.drop_first(), name, v);
        assert((seq![store[0]] + store_set(store.drop_first(), name, v)).drop_first()
            =~= store_set(store.drop_first(), name, v));
    }
}

/// Setting one name leaves every other name's binding as it was.
pub proof fn lemma_lookup_store_set_other(
    store: Seq<(Seq<char>, ValueV)>,
    name: Seq<char>,
    v: ValueV,
    other: Seq<char>,
)
    requires
        other != name,
    ensures
        lookup_store(store_set(store, name, v), other) == lookup_store(store, other),
    decreases store.len(),
{
    reveal_with_fuel(lookup_store, 3);
    reveal_with_fuel(store_set, 3);
    if store.len() == 0 {
        assert(seq![(name, v)][0] == (name, v));
        assert(seq![(name, v)].drop_first() =~= Seq::<(Seq<char>, ValueV)>::empty());
    } else if store[0].0 == name {
        assert((seq![(name, v)] + store.drop_first())[0] == (name, v));
        assert((seq![(name, v)] + store.drop_first()).drop_first() =~= store.drop_first());
    } else {
        lemma_lookup_store_set_other(store.drop_first(), name, v, other);
        assert((seq![store[0]] + store_set(store.drop_first(), name, v))[0] == store[0]);
        assert((seq![store[0]] + store_set(store.drop_first(), name, v)).drop_first()
            =~= store_set(store.drop_first(), name, v));
    }
}

/// Setting a name that first occurs at index `i` replaces that entry.
proof fn lemma_store_set_found(
    store: Seq<(Seq<char>, ValueV)>,
    name: Seq<char>,
    v: ValueV,
    i: int,
)
    requires
        0 <= i < store.len(),
        store[i].0 == name,
        forall|k: int| 0 <= k < i ==> (#[trigger] store[k]).0 != name,
    ensures
        store_set(store, name, v) == store.update(i, (name, v)),
    decreases i,
{
    if i == 0 {
        assert(store_set(store, name, v) =~= store.update(0, (name, v)));
    } else {
        lemma_store_set_found(store.drop_first(), name, v, i - 1);
        assert(store.drop_first().update(i - 1, (name, v)) =~= store.update(
            i,
            (name, v),
        ).drop_first());
        assert(store_set(store, name, v) =~= store.update(i, (name, v)));
    }
}

/// Setting a name that no entry binds appends a new entry.
proof fn lemma_store_set_missing(store: Seq<(Seq<char>, ValueV)>, name: Seq<char>, v: ValueV)
    requires
        forall|k: int| 0 <= k < store.len() ==> (#[trigger] store[k]).0 != name,
    ensures
        store_set(store, name, v) == store.push((name, v)),
    decreases store.len(),
{
    if store.len() == 0 {
        assert(store_set(store, name, v) =~= store.push((name, v)));
    } else {
        lemma_store_set_missing(store.drop_first(), name, v);
        assert(store.drop_first().push((name, v)) =~= store.push((name, v)).drop_first());
        assert(store_set(store, name, v) =~= store.push((name, v)));
    }
}

} // verus!
