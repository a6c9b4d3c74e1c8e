//! The prototypes of the runtime's built-in kinds of value, by name: each
//! starts as an empty object and may be replaced.
use vstd::prelude::*;

use crate::text::owned;

verus! {

/// The prototype of each named kind, each name once.
pub struct PrototypeStore<O> {
    prototype_mapping: Vec<(String, O)>,
}

/// The mapping as plain values, in the order the names were first given.
pub open spec fn mapping_view<O>(m: Seq<(String, O)>) -> Seq<(Seq<char>, O)> {
    m.map_values(|e: (String, O)| (e.0@, e.1))
}

impl<O> View for PrototypeStore<O> {
    type V = Seq<(Seq<char>, O)>;

    closed spec fn view(&self) -> Seq<(Seq<char>, O)> {
        mapping_view(self.prototype_mapping@)
    }
}

/// The names of the built-in kinds that have a prototype from the start.
pub open spec fn builtin_kinds() -> Seq<Seq<char>> {
    seq!["any"@, "event_emitter"@, "string"@, "array"@, "number"@, "enum"@, "object"@]
}

/// No name occurs twice.
pub open spec fn names_unique<O>(s: Seq<(Seq<char>, O)>) -> bool {
    forall|i: int, j: int| 0 <= i < j < s.len() ==> s[i].0 != s[j].0
}

/// Whether `name` has a prototype.
pub open spec fn has_prototype<O>(s: Seq<(Seq<char>, O)>, name: Seq<char>) -> bool {
    exists|i: int| 0 <= i < s.len() && s[i].0 == name
}

/// The prototype of `name`, where it has one.
pub open spec fn prototype_of<O>(s: Seq<(Seq<char>, O)>, name: Seq<char>) -> O {
    s[choose|i: int| 0 <= i < s.len() && s[i].0 == name].1
}

/// Giving `name` the prototype `value`: in place where the name has one, else
/// as a new name at the end.
pub open spec fn spec_set<O>(s: Seq<(Seq<char>, O)>, name: Seq<char>, value: O) -> Seq<(Seq<char>, O)> {
    if has_prototype(s, name) {
        let i = choose|i: int| 0 <= i < s.len() && s[i].0 == name;
        s.update(i, (name, value))
    } else {
        s.push((name, value))
    }
}

impl<O: Clone> PrototypeStore<O> {
    /// A store in which every built-in kind has a copy of `empty` as its prototype.
    pub fn new(empty: &O) -> (p: Self)
        ensures
            names_unique(p@),
            p@.len() == builtin_kinds().len(),
            forall|i: int| 0 <= i < p@.len() ==> #[trigger] p@[i].0 == builtin_kinds()[i] && cloned(*empty, p@[i].1),
    {
        proof {
            reveal_strlit("any");
            reveal_strlit("event_emitter");
            reveal_strlit("string");
            reveal_strlit("array");
            reveal_strlit("number");
            reveal_strlit("enum");
            reveal_strlit("object");
        }
        let mut m: Vec<(String, O)> = Vec::new();
        m.push((owned("any"), empty.clone()));
        m.push((owned("event_emitter"), empty.clone()));
        m.push((owned("string"), empty.clone()));
        m.push((owned("array"), empty.clone()));
        m.push((owned("number"), empty.clone()));
        m.push((owned("enum"), empty.clone()));
        m.push((owned("object"), empty.clone()));
        let p = PrototypeStore { prototype_mapping: m };
        proof {
            let v = p@;
            assert forall|i: int, j: int| 0 <= i < j < v.len() implies v[i].0 != v[j].0 by {
                let a = v[i].0;
                let b = v[j].0;
                assert(a == builtin_kinds()[i]);
                assert(b == builtin_kinds()[j]);
                if a.len() == b.len() {
                    if a.len() == 3 {
                        assert(a[0] != b[0]);
                    } else if a.len() == 6 {
                        assert(a[0] != b[0]);
                    } else if a.len() == 4 {
                        assert(a[1] != b[1]);
                    }
                }
            }
        }
        p
    }

    /// The prototype of `name`, which must have one.
    pub fn get(&self, name: &str) -> (r: O)
        requires
            names_unique(self@),
            has_prototype(self@, name@),
        ensures
            cloned(prototype_of(self@, name@), r),
    {
        let key = owned(name);
        let mut i: usize = 0;
        while i < self.prototype_mapping.len()
            invariant
                0 <= i <= self.prototype_mapping.len(),
                self@.len() == self.prototype_mapping.len(),
                names_unique(self@),
                has_prototype(self@, name@),
                key@ == name@,
                forall|j: int| 0 <= j < i ==> self@[j].0 != name@,
            decreases self.prototype_mapping.len() - i,
        {
            if self.prototype_mapping[i].0 == key {
                assert(self@[i as int].0 == name@);
                let ghost k = choose|j: int| 0 <= j < self@.len() && self@[j].0 == name@;
                assert(k == i);
                return self.prototype_mapping[i].1.clone();
            }
            i = i + 1;
        }
        proof {
            let k = choose|j: int| 0 <= j < self@.len() && self@[j].0 == name@;
            assert(self@[k].0 == name@);
        }
        vstd::pervasive::unreached()
    }

    /// Gives `name` the prototype `value`, and returns a copy of `value`.
    #[verifier::loop_isolation(false)]
    pub fn set(&mut self, name: String, value: O) -> (r: O)
        requires
            names_unique(old(self)@),
        ensures
            names_unique(final(self)@),
            final(self)@ == spec_set(old(self)@, name@, value),
            cloned(value, r),
    {
        let ghost s = self@;
        let r = value.clone();
        let mut i: usize = 0;
        while i < self.prototype_mapping.len()
            invariant
                0 <= i <= self.prototype_mapping.len(),
                self@ == s,
                names_unique(s),
                forall|j: int| 0 <= j < i ==> s[j].0 != name@,
            decreases self.prototype_mapping.len() - i,
        {
            if self.prototype_mapping[i].0 == name {
                assert(s[i as int].0 == name@);
                let ghost k = choose|j: int| 0 <= j < s.len() && s[j].0 == name@;
                assert(k == i);
                self.prototype_mapping.set(i, (name, value));
                proof {
                    assert(self@ =~= s.update(i as int, (name@, value)));
                    assert forall|a: int, b: int| 0 <= a < b < self@.len() implies self@[a].0 != self@[b].0 by {
                        assert(self@[a].0 == s[a].0);
                        assert(self@[b].0 == s[b].0);
                    }
                }
                return r;
            }
            i = i + 1;
        }
        self.prototype_mapping.push((name, value));
        proof {
            assert(self@ =~= s.push((name@, value)));
            assert forall|a: int, b: int| 0 <= a < b < self@.len() implies self@[a].0 != self@[b].0 by {
                if b < s.len() {
                    assert(self@[a].0 == s[a].0);
                    assert(self@[b].0 == s[b].0);
                } else {
                    assert(self@[a].0 == s[a].0);
                }
            }
        }
        r
    }
}

/// Giving a name a prototype makes it the name's prototype, and leaves every
/// other name's prototype as it was.
pub proof fn law_set_then_get<O>(s: Seq<(Seq<char>, O)>, name: Seq<char>, value: O, other: Seq<char>)
    requires
        names_unique(s),
    ensures
        has_prototype(spec_set(s, name, value), name),
        prototype_of(spec_set(s, name, value), name) == value,
        other != name ==> has_prototype(spec_set(s, name, value), other) == has_prototype(s, other),
        other != name && has_prototype(s, other) ==> prototype_of(spec_set(s, name, value), other) == prototype_of(
            s,
            other,
        ),
{
    let t = spec_set(s, name, value);
    let n = if has_prototype(s, name) {
        choose|i: int| 0 <= i < s.len() && s[i].0 == name
    } else {
        s.len() as int
    };
    assert(t[n].0 == name);
    let k = choose|i: int| 0 <= i < t.len() && t[i].0 == name;
    if k != n {
        assert(t[k] == s[k]);
    }
    if other != name {
        if has_prototype(s, other) {
            let j = choose|i: int| 0 <= i < s.len() && s[i].0 == other;
            assert(t[j] == s[j]);
            let j2 = choose|i: int| 0 <= i < t.len() && t[i].0 == other;
            assert(t[j2].0 == other);
            if j2 != j {
                assert(t[j2] == s[j2]);
            }
        }
        if has_prototype(t, other) {
            let j2 = choose|i: int| 0 <= i < t.len() && t[i].0 == other;
            assert(j2 != n);
            assert(t[j2] == s[j2]);
        }
    }
}

} // verus!
