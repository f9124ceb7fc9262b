//! Named module slots: a small map from mount name to module, with
//! replace-on-mount semantics and order-preserving iteration.

use vstd::prelude::*;

verus! {

/// A multi-slot mount point: modules keyed by unique names, in mount order.
pub struct NamedSlots<M> {
    items: Vec<(String, M)>,
}

/// The first value stored under `name`, if any.
pub open spec fn slot_lookup<M>(s: Seq<(Seq<char>, M)>, name: Seq<char>) -> Option<M>
    decreases s.len(),
{
    if s.len() == 0 {
        Option::None
    } else if s[0].0 == name {
        Option::Some(s[0].1)
    } else {
        slot_lookup(s.skip(1), name)
    }
}

/// The entries left after removing `name`.
pub open spec fn slot_remove<M>(s: Seq<(Seq<char>, M)>, name: Seq<char>) -> Seq<(Seq<char>, M)>
    decreases s.len(),
{
    if s.len() == 0 {
        Seq::empty()
    } else if s[0].0 == name {
        slot_remove(s.skip(1), name)
    } else {
        seq![s[0]] + slot_remove(s.skip(1), name)
    }
}

proof fn lemma_slot_lookup_at<M>(s: Seq<(Seq<char>, M)>, name: Seq<char>, i: int)
    requires
        0 <= i < s.len(),
        s[i].0 == name,
        forall|j: int| 0 <= j < i ==> (#[trigger] s[j]).0 != name,
    ensures
        slot_lookup(s, name) == Option::Some(s[i].1),
    decreases s.len(),
{
    if i > 0 {
        lemma_slot_lookup_at(s.skip(1), name, i - 1);
    }
}

proof fn lemma_slot_lookup_none<M>(s: Seq<(Seq<char>, M)>, name: Seq<char>)
    requires
        forall|j: int| 0 <= j < s.len() ==> (#[trigger] s[j]).0 != name,
    ensures
        slot_lookup(s, name) is None,
    decreases s.len(),
{
    if s.len() > 0 {
        lemma_slot_lookup_none(s.skip(1), name);
    }
}

impl<M> NamedSlots<M> {
    /// The entries as (name, module) in mount order.
    pub closed spec fn view_pairs(self) -> Seq<(Seq<char>, M)> {
        Seq::new(self.items@.len(), |i: int| (self.items@[i].0@, self.items@[i].1))
    }

    /// Names are unique.
    pub closed spec fn wf(self) -> bool {
        forall|i: int, j: int|
            0 <= i < j < self.items@.len() ==> (#[trigger] self.items@[i]).0@ != (
            #[trigger] self.items@[j]).0@
    }

    /// The module under `name`, if any.
    pub open spec fn spec_get(self, name: Seq<char>) -> Option<M> {
        slot_lookup(self.view_pairs(), name)
    }

    /// No slots.
    pub fn new() -> (r: Self)
        ensures
            r.wf(),
            r.view_pairs().len() == 0,
    {
        let r = NamedSlots { items: Vec::new() };
        proof {
            assert(r.view_pairs() =~= Seq::<(Seq<char>, M)>::empty());
        }
        r
    }

    /// How many modules are mounted.
    pub fn len(&self) -> (r: usize)
        ensures
            r == self.view_pairs().len(),
    {
        self.items.len()
    }

    /// Whether any module is mounted.
    pub fn is_empty(&self) -> (r: bool)
        ensures
            r == (self.view_pairs().len() == 0),
    {
        self.items.len() == 0
    }

    /// The module mounted under `name`, if any.
    pub fn get(&self, name: &str) -> (r: Option<&M>)
        requires
            self.wf(),
        ensures
            match r {
                Option::Some(m) => self.spec_get(name@) == Option::Some(*m),
                Option::None => self.spec_get(name@) is None,
            },
    {
        let key: String = name.to_owned();
        let n: usize = self.items.len();
        let mut i: usize = 0;
        while i < n
            invariant
                key@ == name@,
                n == self.items@.len(),
                0 <= i <= n,
                forall|j: int| 0 <= j < i ==> (#[trigger] self.items@[j]).0@ != name@,
            decreases n - i,
        {
            if self.items[i].0 == key {
                proof {
                    lemma_slot_lookup_at(self.view_pairs(), name@, i as int);
                }
                return Option::Some(&self.items[i].1);
            }
            i = i + 1;
        }
        proof {
            lemma_slot_lookup_none(self.view_pairs(), name@);
        }
        Option::None
    }

    /// Mount `module` under `name`, replacing any module already there.
    pub fn mount(&mut self, name: String, module: M)
        requires
            old(self).wf(),
        ensures
            final(self).wf(),
            final(self).view_pairs() == slot_remove(old(self).view_pairs(), name@).push(
                (name@, module),
            ),
            final(self).spec_get(name@) == Option::Some(module),
    {
        self.unmount(name.as_str());
        let ghost mid = self.view_pairs();
        self.items.push((name, module));
        proof {
            assert(self.view_pairs() =~= mid.push(
                (self.items@.last().0@, self.items@.last().1),
            ));
            let vp = self.view_pairs();
            assert forall|i: int, j: int|
                0 <= i < j < self.items@.len() implies (#[trigger] self.items@[i]).0@ != (
            #[trigger] self.items@[j]).0@ by {
                if j == self.items@.len() - 1 {
                    assert(vp[i] == mid[i]);
                } else {
                    assert(vp[i] == mid[i]);
                    assert(vp[j] == mid[j]);
                }
            }
            lemma_slot_lookup_at(vp, name@, vp.len() - 1);
        }
    }

    /// Unmount the module under `name`. Unmounting an absent name is a
    /// no-op; returns whether a module was there.
    pub fn unmount(&mut self, name: &str) -> (r: bool)
        requires
            old(self).wf(),
        ensures
            final(self).wf(),
            r == (old(self).spec_get(name@) is Some),
            final(self).view_pairs() == slot_remove(old(self).view_pairs(), name@),
            final(self).spec_get(name@) is None,
            forall|j: int|
                0 <= j < final(self).view_pairs().len()
                    ==> (#[trigger] final(self).view_pairs()[j]).0 != name@,
    {
        match self.take(name) {
            Option::Some(_) => true,
            Option::None => false,
        }
    }

    /// Remove and return the module under `name`, if any.
    pub fn take(&mut self, name: &str) -> (r: Option<M>)
        requires
            old(self).wf(),
        ensures
            final(self).wf(),
            r == old(self).spec_get(name@),
            final(self).view_pairs() == slot_remove(old(self).view_pairs(), name@),
            final(self).spec_get(name@) is None,
            forall|j: int|
                0 <= j < final(self).view_pairs().len()
                    ==> (#[trigger] final(self).view_pairs()[j]).0 != name@,
    {
        let key: String = name.to_owned();
        let mut rest: Vec<(String, M)> = Vec::new();
        core::mem::swap(&mut self.items, &mut rest);
        let ghost orig = Seq::new(rest@.len(), |i: int| (rest@[i].0@, rest@[i].1));
        proof {
            assert(orig =~= old(self).view_pairs());
        }
        let mut kept: Vec<(String, M)> = Vec::new();
        let mut removed_value: Option<M> = Option::None;
        while rest.len() > 0
            invariant
                key@ == name@,
                ({
                    let kv = Seq::new(kept@.len(), |i: int| (kept@[i].0@, kept@[i].1));
                    let rv = Seq::new(rest@.len(), |i: int| (rest@[i].0@, rest@[i].1));
                    slot_remove(orig, name@) == kv + slot_remove(rv, name@)
                }),
                removed_value is None ==> slot_lookup(orig, name@) == slot_lookup(
                    Seq::new(rest@.len(), |i: int| (rest@[i].0@, rest@[i].1)),
                    name@,
                ),
                removed_value is Some ==> slot_lookup(orig, name@) == removed_value,
                removed_value is Some ==> forall|j: int|
                    0 <= j < rest@.len() ==> (#[trigger] rest@[j]).0@ != name@,
                forall|j: int| 0 <= j < kept@.len() ==> (#[trigger] kept@[j]).0@ != name@,
                ({
                    let all = kept@ + rest@;
                    forall|i: int, j: int|
                        0 <= i < j < all.len() ==> (#[trigger] all[i]).0@ != (
                        #[trigger] all[j]).0@
                }),
            decreases rest.len(),
        {
            let ghost rv_pre = Seq::new(rest@.len(), |i: int| (rest@[i].0@, rest@[i].1));
            let ghost kv_pre = Seq::new(kept@.len(), |i: int| (kept@[i].0@, kept@[i].1));
            let ghost all_pre = kept@ + rest@;
            let ghost kept_pre = kept@;
            let ghost rest_pre = rest@;
            let e = rest.remove(0);
            proof {
                let rv_now = Seq::new(rest@.len(), |i: int| (rest@[i].0@, rest@[i].1));
                assert(rv_now =~= rv_pre.skip(1));
                assert(rest@ =~= rest_pre.skip(1));
                assert forall|j: int| 0 <= j < rest@.len() implies #[trigger] rest@[j]
                    == all_pre[kept_pre.len() + 1 + j] by {
                    assert(rest@[j] == rest_pre[j + 1]);
                }
                assert(e == all_pre[kept_pre.len() as int]);
            }
            if e.0 == key {
                removed_value = Option::Some(e.1);
                proof {
                    let rv_now = Seq::new(rest@.len(), |i: int| (rest@[i].0@, rest@[i].1));
                    let kv_now = Seq::new(kept@.len(), |i: int| (kept@[i].0@, kept@[i].1));
                    assert(kv_now =~= kv_pre);
                    assert(slot_lookup(rv_pre, name@) == Option::Some(rv_pre[0].1));
                    let all = kept@ + rest@;
                    assert forall|i: int, j: int|
                        0 <= i < j < all.len() implies (#[trigger] all[i]).0@ != (
                    #[trigger] all[j]).0@ by {
                        let ki = kept_pre.len() as int;
                        let i2: int = if i < ki {
                            i
                        } else {
                            i + 1
                        };
                        let j2: int = if j < ki {
                            j
                        } else {
                            j + 1
                        };
                        assert(all[i] == all_pre[i2]);
                        assert(all[j] == all_pre[j2]);
                    }
                }
            } else {
                kept.push(e);
                proof {
                    let rv_now = Seq::new(rest@.len(), |i: int| (rest@[i].0@, rest@[i].1));
                    let kv_now = Seq::new(kept@.len(), |i: int| (kept@[i].0@, kept@[i].1));
                    assert(kv_now =~= kv_pre.push((e.0@, e.1)));
                    assert(slot_remove(rv_pre, name@) == seq![(e.0@, e.1)] + slot_remove(
                        rv_now,
                        name@,
                    ));
                    assert(kv_now + slot_remove(rv_now, name@) =~= kv_pre + (seq![(e.0@, e.1)]
                        + slot_remove(rv_now, name@)));
                    assert(slot_lookup(rv_pre, name@) == slot_lookup(rv_now, name@));
                    assert(kept@ + rest@ =~= all_pre);
                }
            }
        }
        proof {
            let rv_now = Seq::new(rest@.len(), |i: int| (rest@[i].0@, rest@[i].1));
            assert(rv_now =~= Seq::<(Seq<char>, M)>::empty());
            let kv_now = Seq::new(kept@.len(), |i: int| (kept@[i].0@, kept@[i].1));
            assert(kv_now + slot_remove(rv_now, name@) =~= kv_now);
            let all = kept@ + rest@;
            assert(all =~= kept@);
            assert forall|i: int, j: int|
                0 <= i < j < kept@.len() implies (#[trigger] kept@[i]).0@ != (
            #[trigger] kept@[j]).0@ by {
                assert(kept@[i] == all[i]);
                assert(kept@[j] == all[j]);
            }
        }
        let ghost kept_final = kept@;
        self.items = kept;
        proof {
            assert(self.items@ == kept_final);
            let kv_now = Seq::new(kept_final.len(), |i: int| (kept_final[i].0@, kept_final[i].1));
            assert(self.view_pairs() =~= kv_now);
            lemma_slot_lookup_none(self.view_pairs(), name@);
        }
        removed_value
    }

    /// The mount names, in mount order.
    pub fn names(&self) -> (r: Vec<String>)
        ensures
            r.deep_view() == Seq::new(
                self.view_pairs().len(),
                |i: int| self.view_pairs()[i].0,
            ),
    {
        let n: usize = self.items.len();
        let mut r: Vec<String> = Vec::new();
        let mut i: usize = 0;
        while i < n
            invariant
                n == self.items@.len(),
                0 <= i <= n,
                r@.len() == i,
                forall|j: int| 0 <= j < i ==> (#[trigger] r@[j])@ == self.items@[j].0@,
            decreases n - i,
        {
            r.push(self.items[i].0.clone());
            i = i + 1;
        }
        proof {
            assert(r.deep_view() =~= Seq::new(
                self.view_pairs().len(),
                |i: int| self.view_pairs()[i].0,
            ));
        }
        r
    }
}

/// Removing an absent name changes nothing.
pub proof fn lemma_slot_remove_absent<M>(s: Seq<(Seq<char>, M)>, name: Seq<char>)
    requires
        slot_lookup(s, name) is None,
    ensures
        slot_remove(s, name) == s,
    decreases s.len(),
{
    if s.len() > 0 {
        assert(s[0].0 != name);
        lemma_slot_remove_absent(s.skip(1), name);
        assert(slot_remove(s, name) =~= s);
    } else {
        assert(slot_remove(s, name) =~= s);
    }
}

/// Removing or appending one name leaves every other name's lookup alone.
pub proof fn lemma_slot_other_names<M>(
    s: Seq<(Seq<char>, M)>,
    name: Seq<char>,
    entry: (Seq<char>, M),
    other: Seq<char>,
)
    requires
        other != name,
        entry.0 == name,
    ensures
        slot_lookup(slot_remove(s, name), other) == slot_lookup(s, other),
        slot_lookup(s.push(entry), other) == slot_lookup(s, other),
    decreases s.len(),
{
    if s.len() == 0 {
        assert(s.push(entry)[0] == entry);
        assert(s.push(entry).skip(1) =~= Seq::<(Seq<char>, M)>::empty());
    } else {
        lemma_slot_other_names(s.skip(1), name, entry, other);
        assert(s.push(entry)[0] == s[0]);
        if s[0].0 != other {
            assert(s.push(entry).skip(1) =~= s.skip(1).push(entry));
        }
        if s[0].0 == name {
        } else {
            assert(slot_remove(s, name) == seq![s[0]] + slot_remove(s.skip(1), name));
            let w = slot_remove(s, name);
            if s[0].0 == other {
                assert(w[0] == s[0]);
                assert(slot_lookup(w, other) == Option::Some(s[0].1));
            } else {
                assert(w[0] == s[0]);
                assert(w.skip(1) =~= slot_remove(s.skip(1), name));
            }
        }
    }
}

} // verus!
