//! Event payloads and other loosely-typed data.
//!
//! The kernel treats payload contents as opaque: it merges top-level keys,
//! stamps a timestamp, and hands maps through to handlers. [`DataValue`]
//! carries one field value; [`DataMap`] is a field map with unique keys.
//! Contracts speak of the mathematical views [`Dv`] and `Map<Seq<char>, Dv>`.
//!
//! A value the kernel never reads (a floating-point number, a deeply nested
//! document) rides along in [`DataValue::Raw`] as a `serde_json::Value`.

use vstd::prelude::*;

verus! {

#[verifier::external_type_specification]
#[verifier::external_body]
pub struct ExValue(serde_json::Value);

/// Relies on `serde_json::Value::clone`: the derived clone is a deep copy,
/// structurally equal to the original.
pub assume_specification[ <serde_json::Value as Clone>::clone ](
    v: &serde_json::Value,
) -> (r: serde_json::Value)
    ensures
        r == *v,
;

/// One field value of an event payload or configuration document.
#[derive(Debug)]
pub enum DataValue {
    Null,
    Bool(bool),
    Int(i64),
    Str(String),
    List(Vec<DataValue>),
    Obj(DataMap),
    /// Anything the kernel has no reason to read, carried through unchanged.
    Raw(serde_json::Value),
}

/// A field map with string keys; insertion replaces an existing key.
#[derive(Debug)]
pub struct DataMap {
    pairs: Vec<(String, DataValue)>,
}

/// The mathematical value of a [`DataValue`].
#[verifier::ext_equal]
pub enum Dv {
    Null,
    Bool(bool),
    Int(int),
    Str(Seq<char>),
    List(Seq<Dv>),
    Obj(Map<Seq<char>, Dv>),
    Raw(serde_json::Value),
}

impl DataValue {
    /// The mathematical value.
    pub open spec fn dv(self) -> Dv
        decreases self,
    {
        match self {
            DataValue::Null => Dv::Null,
            DataValue::Bool(b) => Dv::Bool(b),
            DataValue::Int(i) => Dv::Int(i as int),
            DataValue::Str(s) => Dv::Str(s@),
            DataValue::List(l) => Dv::List(
                Seq::new(l@.len(), |i: int| if 0 <= i < l@.len() { l@[i].dv() } else { Dv::Null }),
            ),
            DataValue::Obj(m) => Dv::Obj(m@),
            DataValue::Raw(v) => Dv::Raw(v),
        }
    }

    /// Structural well-formedness: every nested map has unique keys.
    pub open spec fn wf(self) -> bool
        decreases self,
    {
        match self {
            DataValue::List(l) => forall|i: int| 0 <= i < l@.len() ==> (#[trigger] l@[i]).wf(),
            DataValue::Obj(m) => m.wf(),
            _ => true,
        }
    }
}

/// The field map denoted by an association list: later entries win.
pub open spec fn map_of(pairs: Seq<(String, DataValue)>) -> Map<Seq<char>, Dv>
    decreases pairs,
{
    if pairs.len() == 0 {
        Map::empty()
    } else {
        map_of(pairs.drop_last()).insert(pairs.last().0@, pairs.last().1.dv())
    }
}

/// Pairwise-distinct keys.
pub(crate) open spec fn unique_keys(pairs: Seq<(String, DataValue)>) -> bool {
    forall|i: int, j: int|
        0 <= i < j < pairs.len() ==> (#[trigger] pairs[i]).0@ != (#[trigger] pairs[j]).0@
}

impl View for DataMap {
    type V = Map<Seq<char>, Dv>;

    closed spec fn view(&self) -> Map<Seq<char>, Dv>
        decreases self,
    {
        map_of(self.pairs@)
    }
}

impl DataMap {
    /// Unique keys, and every value well-formed.
    pub closed spec fn wf(self) -> bool
        decreases self,
    {
        unique_keys(self.pairs@) && forall|i: int|
            0 <= i < self.pairs@.len() ==> (#[trigger] self.pairs@[i]).1.wf()
    }

    /// The empty map.
    pub fn new() -> (r: DataMap)
        ensures
            r@ == Map::<Seq<char>, Dv>::empty(),
            r.wf(),
    {
        DataMap { pairs: Vec::new() }
    }

    /// Number of entries.
    pub fn len(&self) -> (r: usize)
        requires
            self.wf(),
        ensures
            self@.dom().finite(),
            r == self@.dom().len(),
    {
        proof {
            lemma_map_of_len(self.pairs@);
        }
        self.pairs.len()
    }

    /// Whether `key` is present.
    pub fn contains_key(&self, key: &str) -> (r: bool)
        requires
            self.wf(),
        ensures
            r == self@.contains_key(key@),
    {
        match self.get(key) {
            Option::Some(_) => true,
            Option::None => false,
        }
    }

    /// The value under `key`, if any.
    pub fn get(&self, key: &str) -> (r: Option<&DataValue>)
        requires
            self.wf(),
        ensures
            match r {
                Option::Some(v) => self@.contains_key(key@) && v.dv() == self@[key@] && v.wf(),
                Option::None => !self@.contains_key(key@),
            },
    {
        let k: String = key.to_owned();
        let n: usize = self.pairs.len();
        let mut i: usize = 0;
        while i < n
            invariant
                n == self.pairs@.len(),
                0 <= i <= n,
                self.wf(),
                k@ == key@,
                forall|j: int| 0 <= j < i ==> (#[trigger] self.pairs@[j]).0@ != key@,
            decreases n - i,
        {
            if self.pairs[i].0 == k {
                proof {
                    lemma_map_of_get(self.pairs@, i as int);
                }
                return Option::Some(&self.pairs[i].1);
            }
            i = i + 1;
        }
        proof {
            lemma_entries_to_map_absent(self.pairs@, key@);
        }
        Option::None
    }

    /// Insert `value` under `key`, replacing any existing entry.
    pub fn insert(&mut self, key: String, value: DataValue)
        requires
            old(self).wf(),
            value.wf(),
        ensures
            final(self)@ == old(self)@.insert(key@, value.dv()),
            final(self).wf(),
    {
        self.remove_entry(key.as_str());
        proof {
            lemma_entries_absent(self.pairs@, key@);
        }
        let ghost mid = self.pairs@;
        self.pairs.push((key, value));
        proof {
            assert(self.pairs@.drop_last() =~= mid);
            assert(self.pairs@.last() == (key, value));
            assert(self@ == map_of(mid).insert(key@, value.dv()));
            assert(old(self)@.remove(key@).insert(key@, value.dv()) =~= old(self)@.insert(
                key@,
                value.dv(),
            ));
            assert forall|i: int, j: int|
                0 <= i < j < self.pairs@.len() implies (#[trigger] self.pairs@[i]).0@ != (
            #[trigger] self.pairs@[j]).0@ by {
                if j == self.pairs@.len() - 1 {
                    assert(self.pairs@[i] == mid[i]);
                } else {
                    assert(self.pairs@[i] == mid[i]);
                    assert(self.pairs@[j] == mid[j]);
                }
            }
            assert forall|i: int|
                0 <= i < self.pairs@.len() implies (#[trigger] self.pairs@[i]).1.wf() by {
                if i < self.pairs@.len() - 1 {
                    assert(self.pairs@[i] == mid[i]);
                }
            }
        }
    }

    /// The entries as (key, value) pairs, for callers that need to walk the
    /// map; keys are unique when the map is well-formed.
    pub fn entries(&self) -> (r: &Vec<(String, DataValue)>)
        ensures
            map_of(r@) == self@,
            r@.len() == self.spec_len(),
    {
        &self.pairs
    }

    /// The number of stored entries.
    pub closed spec fn spec_len(self) -> nat {
        self.pairs@.len()
    }

    /// Remove the entry under `key`, if any.
    pub fn remove_entry(&mut self, key: &str)
        requires
            old(self).wf(),
        ensures
            final(self)@ == old(self)@.remove(key@),
            final(self).wf(),
            !final(self)@.contains_key(key@),
    {
        let k: String = key.to_owned();
        let n: usize = self.pairs.len();
        let mut i: usize = 0;
        while i < n
            invariant
                *self == *old(self),
                n == self.pairs@.len(),
                0 <= i <= n,
                self.wf(),
                k@ == key@,
                forall|j: int| 0 <= j < i ==> (#[trigger] self.pairs@[j]).0@ != key@,
            decreases n - i,
        {
            if self.pairs[i].0 == k {
                proof {
                    lemma_map_of_remove(self.pairs@, i as int);
                }
                self.pairs.remove(i);
                proof {
                    lemma_entries_to_map_absent(self.pairs@, key@);
                    assert forall|j: int|
                        0 <= j < self.pairs@.len() implies (#[trigger] self.pairs@[j]).1.wf() by {
                        if j < i {
                            assert(self.pairs@[j] == old(self).pairs@[j]);
                        } else {
                            assert(self.pairs@[j] == old(self).pairs@[j + 1]);
                        }
                    }
                }
                return ;
            }
            i = i + 1;
        }
        proof {
            lemma_entries_to_map_absent(self.pairs@, key@);
            assert(old(self)@ =~= old(self)@.remove(key@));
        }
    }
}

proof fn lemma_map_of_len(pairs: Seq<(String, DataValue)>)
    requires
        unique_keys(pairs),
    ensures
        map_of(pairs).dom().finite(),
        map_of(pairs).dom().len() == pairs.len(),
    decreases pairs,
{
    if pairs.len() == 0 {
        assert(map_of(pairs).dom() =~= Set::<Seq<char>>::empty());
    } else {
        let rest = pairs.drop_last();
        lemma_map_of_len(rest);
        lemma_entries_to_map_absent(rest, pairs.last().0@);
        assert(!map_of(rest).dom().contains(pairs.last().0@));
        assert(map_of(pairs).dom() =~= map_of(rest).dom().insert(pairs.last().0@));
    }
}

proof fn lemma_map_of_get(pairs: Seq<(String, DataValue)>, i: int)
    requires
        unique_keys(pairs),
        0 <= i < pairs.len(),
    ensures
        map_of(pairs).contains_key(pairs[i].0@),
        map_of(pairs)[pairs[i].0@] == pairs[i].1.dv(),
    decreases pairs,
{
    if i == pairs.len() - 1 {
    } else {
        assert(pairs[i].0@ != pairs.last().0@);
        lemma_map_of_get(pairs.drop_last(), i);
        assert(pairs.drop_last()[i] == pairs[i]);
    }
}

/// Entry-level absence gives map-level absence.
proof fn lemma_entries_to_map_absent(pairs: Seq<(String, DataValue)>, key: Seq<char>)
    requires
        forall|j: int| 0 <= j < pairs.len() ==> (#[trigger] pairs[j]).0@ != key,
    ensures
        !map_of(pairs).contains_key(key),
    decreases pairs,
{
    if pairs.len() > 0 {
        lemma_entries_to_map_absent(pairs.drop_last(), key);
    }
}

/// Map-level absence gives entry-level absence, when keys are unique.
proof fn lemma_entries_absent(pairs: Seq<(String, DataValue)>, key: Seq<char>)
    requires
        unique_keys(pairs),
        !map_of(pairs).contains_key(key),
    ensures
        forall|j: int| 0 <= j < pairs.len() ==> (#[trigger] pairs[j]).0@ != key,
{
    assert forall|j: int| 0 <= j < pairs.len() implies (#[trigger] pairs[j]).0@ != key by {
        if pairs[j].0@ == key {
            lemma_map_of_get(pairs, j);
        }
    }
}

proof fn lemma_map_of_remove(pairs: Seq<(String, DataValue)>, i: int)
    requires
        unique_keys(pairs),
        0 <= i < pairs.len(),
    ensures
        map_of(pairs.remove(i)) == map_of(pairs).remove(pairs[i].0@),
        unique_keys(pairs.remove(i)),
        forall|j: int|
            0 <= j < pairs.remove(i).len() ==> (#[trigger] pairs.remove(i)[j]).0@ != pairs[i].0@,
        forall|j: int|
            0 <= j < pairs.remove(i).len() ==> #[trigger] pairs.remove(i)[j] == (if j < i {
                pairs[j]
            } else {
                pairs[j + 1]
            }),
    decreases pairs,
{
    let key = pairs[i].0@;
    let removed = pairs.remove(i);
    assert forall|j: int| 0 <= j < removed.len() implies (#[trigger] removed[j]).0@ != key by {
        if j < i {
            assert(removed[j] == pairs[j]);
        } else {
            assert(removed[j] == pairs[j + 1]);
        }
    }
    if i == pairs.len() - 1 {
        assert(removed =~= pairs.drop_last());
        lemma_entries_to_map_absent(pairs.drop_last(), key);
        assert(map_of(pairs.drop_last()) =~= map_of(pairs).remove(key));
    } else {
        lemma_map_of_remove(pairs.drop_last(), i);
        assert(removed.drop_last() =~= pairs.drop_last().remove(i));
        assert(removed.last() == pairs.last());
        assert(map_of(removed) == map_of(pairs.drop_last().remove(i)).insert(
            pairs.last().0@,
            pairs.last().1.dv(),
        ));
        assert(map_of(pairs.drop_last().remove(i)) == map_of(pairs.drop_last()).remove(key));
        assert(pairs.last().0@ != key);
        assert(map_of(pairs.drop_last()).remove(key).insert(pairs.last().0@, pairs.last().1.dv())
            =~= map_of(pairs).remove(key));
    }
}

impl Clone for DataValue {
    /// Deep copy: the clone has the same mathematical value.
    fn clone(&self) -> (r: DataValue)
        ensures
            r.dv() == self.dv(),
            self.wf() ==> r.wf(),
        decreases self,
    {
        match *self {
            DataValue::Null => DataValue::Null,
            DataValue::Bool(b) => DataValue::Bool(b),
            DataValue::Int(i) => DataValue::Int(i),
            DataValue::Str(ref s) => DataValue::Str(s.clone()),
            DataValue::List(ref l) => {
                let n: usize = l.len();
                let mut out: Vec<DataValue> = Vec::new();
                let mut idx: usize = 0;
                while idx < n
                    invariant
                        *self == DataValue::List(*l),
                        n == l@.len(),
                        0 <= idx <= n,
                        out@.len() == idx,
                        forall|j: int| 0 <= j < idx ==> (#[trigger] out@[j]).dv() == l@[j].dv(),
                        forall|j: int| 0 <= j < idx ==> (l@[j].wf() ==> (#[trigger] out@[j]).wf()),
                    decreases n - idx,
                {
                    proof {
                        assert((*self)->List_0 == *l);
                        assert(decreases_to!(*self => (*self)->List_0));
                        assert(decreases_to!(*self => *l));
                        assert(decreases_to!(*l => l@));
                        assert(decreases_to!(l@ => l@[idx as int]));
                    }
                    out.push(l[idx].clone());
                    idx = idx + 1;
                }
                proof {
                    assert(*self == DataValue::List(*l));
                }
                proof {
                    let s1 = DataValue::List(out).dv()->List_0;
                    let s2 = self.dv()->List_0;
                    assert(DataValue::List(out).dv() == Dv::List(s1));
                    assert(self.dv() == Dv::List(s2));
                    assert(s1.len() == out@.len());
                    assert(s2.len() == l@.len());
                    assert forall|i: int| 0 <= i < s1.len() implies s1[i] == s2[i] by {
                        assert(s1[i] == out@[i].dv());
                        assert(s2[i] == l@[i].dv());
                    }
                    assert(s1 =~= s2);
                }
                DataValue::List(out)
            },
            DataValue::Obj(ref m) => DataValue::Obj(m.clone()),
            DataValue::Raw(ref v) => DataValue::Raw(v.clone()),
        }
    }
}

impl Clone for DataMap {
    /// Deep copy: the clone denotes the same map.
    fn clone(&self) -> (r: DataMap)
        ensures
            r@ == self@,
            self.wf() ==> r.wf(),
        decreases self,
    {
        let n: usize = self.pairs.len();
        let mut out: Vec<(String, DataValue)> = Vec::new();
        let mut idx: usize = 0;
        while idx < n
            invariant
                n == self.pairs@.len(),
                0 <= idx <= n,
                out@.len() == idx,
                forall|j: int| 0 <= j < idx ==> (#[trigger] out@[j]).0@ == self.pairs@[j].0@,
                forall|j: int| 0 <= j < idx ==> (#[trigger] out@[j]).1.dv() == self.pairs@[j].1.dv(),
                forall|j: int|
                    0 <= j < idx ==> (self.pairs@[j].1.wf() ==> (#[trigger] out@[j]).1.wf()),
            decreases n - idx,
        {
            let k: String = self.pairs[idx].0.clone();
            let v: DataValue = self.pairs[idx].1.clone();
            out.push((k, v));
            idx = idx + 1;
        }
        proof {
            lemma_map_of_congruent(out@, self.pairs@);
        }
        DataMap { pairs: out }
    }
}

impl DataMap {
    /// `self` overlaid by `overlay`: keys of `overlay` win on conflict.
    pub fn merged(&self, overlay: &DataMap) -> (r: DataMap)
        requires
            self.wf(),
            overlay.wf(),
        ensures
            r@ == self@.union_prefer_right(overlay@),
            r.wf(),
    {
        let mut out: DataMap = self.clone();
        let n: usize = overlay.pairs.len();
        let mut idx: usize = 0;
        proof {
            assert(out@ =~= self@.union_prefer_right(map_of(overlay.pairs@.take(0))));
        }
        while idx < n
            invariant
                n == overlay.pairs@.len(),
                0 <= idx <= n,
                overlay.wf(),
                out.wf(),
                out@ == self@.union_prefer_right(map_of(overlay.pairs@.take(idx as int))),
            decreases n - idx,
        {
            let k: String = overlay.pairs[idx].0.clone();
            let v: DataValue = overlay.pairs[idx].1.clone();
            let ghost prev = out@;
            out.insert(k, v);
            proof {
                let i = idx as int;
                let taken = overlay.pairs@.take(i + 1);
                assert(taken.drop_last() =~= overlay.pairs@.take(i));
                assert(taken.last() == overlay.pairs@[i]);
                assert(map_of(taken) == map_of(overlay.pairs@.take(i)).insert(
                    overlay.pairs@[i].0@,
                    overlay.pairs@[i].1.dv(),
                ));
                assert(out@ =~= self@.union_prefer_right(map_of(taken)));
            }
            idx = idx + 1;
        }
        proof {
            assert(overlay.pairs@.take(n as int) =~= overlay.pairs@);
        }
        out
    }
}

/// Entrywise-equal association lists denote the same map.
proof fn lemma_map_of_congruent(p1: Seq<(String, DataValue)>, p2: Seq<(String, DataValue)>)
    requires
        p1.len() == p2.len(),
        forall|j: int| 0 <= j < p1.len() ==> (#[trigger] p1[j]).0@ == p2[j].0@,
        forall|j: int| 0 <= j < p1.len() ==> (#[trigger] p1[j]).1.dv() == p2[j].1.dv(),
    ensures
        map_of(p1) == map_of(p2),
    decreases p1,
{
    if p1.len() > 0 {
        lemma_map_of_congruent(p1.drop_last(), p2.drop_last());
        assert(map_of(p1) =~= map_of(p2));
    } else {
        assert(map_of(p1) =~= map_of(p2));
    }
}




} // verus!
