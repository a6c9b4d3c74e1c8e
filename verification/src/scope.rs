//! Variable scopes of the runtime. Every scope has a frame of variables in a
//! shared store and may have an enclosing scope; a name is looked up in the
//! scope's own frame first, then in the frames of the enclosing scopes.
//!
//! Frames are kept in one store and named by their index, so that several
//! scopes (a function's body, the blocks of a loop) can share an enclosing
//! frame and see what is written to it. An enclosing frame is always older
//! than the frames it encloses.
use vstd::prelude::*;

use crate::errors::{ErrorCode, ZephyrError};
use crate::text::owned;
use crate::tokens::Location;

verus! {

/// A variable: its value, and whether it may be assigned again.
pub struct Variable<V> {
    pub is_const: bool,
    pub value: V,
}

impl<V> Variable<V> {
    /// A variable that may be assigned again.
    pub fn from(value: V) -> (r: Self)
        ensures
            r.value == value,
            !r.is_const,
    {
        Variable { is_const: false, value }
    }
}

/// What a scope belongs to.
#[derive(Clone, Copy, Debug, PartialEq, Eq, Structural)]
pub enum ScopeType {
    Normal,
    Global,
    Package,
}

struct Frame<V> {
    parent: Option<usize>,
    variables: Vec<(String, Variable<V>)>,
}

/// The frames of all scopes.
pub struct ScopeStore<V> {
    frames: Vec<Frame<V>>,
}

/// A frame as plain values: its enclosing frame and its variables, in the order
/// they were declared.
pub struct FrameView<V> {
    pub parent: Option<usize>,
    pub vars: Seq<(Seq<char>, Variable<V>)>,
}

spec fn frame_view<V>(f: Frame<V>) -> FrameView<V> {
    FrameView { parent: f.parent, vars: f.variables@.map_values(|e: (String, Variable<V>)| (e.0@, e.1)) }
}

impl<V> View for ScopeStore<V> {
    type V = Seq<FrameView<V>>;

    closed spec fn view(&self) -> Seq<FrameView<V>> {
        self.frames@.map_values(|f: Frame<V>| frame_view(f))
    }
}

/// Whether `name` is declared in the frame's variables.
pub open spec fn declares<V>(vars: Seq<(Seq<char>, Variable<V>)>, name: Seq<char>) -> bool {
    exists|i: int| 0 <= i < vars.len() && vars[i].0 == name
}

/// The position of `name` among the frame's variables.
pub open spec fn position_of<V>(vars: Seq<(Seq<char>, Variable<V>)>, name: Seq<char>) -> int {
    choose|i: int| 0 <= i < vars.len() && vars[i].0 == name
}

/// The store is well formed: an enclosing frame is older than the frames it
/// encloses, and no frame declares a name twice.
pub open spec fn store_wf<V>(s: Seq<FrameView<V>>) -> bool {
    &&& forall|i: int| 0 <= i < s.len() && (#[trigger] s[i]).parent is Some ==> s[i].parent->0 < i
    &&& forall|i: int, a: int, b: int|
        0 <= i < s.len() && 0 <= a < b < s[i].vars.len() ==> #[trigger] s[i].vars[a].0 != #[trigger] s[i].vars[b].0
}

/// The frame, among `id` and the frames enclosing it, that first declares `name`.
pub open spec fn defining_frame<V>(s: Seq<FrameView<V>>, id: int, name: Seq<char>) -> Option<int>
    decreases id,
{
    if 0 <= id < s.len() {
        if declares(s[id].vars, name) {
            Some(id)
        } else {
            match s[id].parent {
                Some(p) => if p < id {
                    defining_frame(s, p as int, name)
                } else {
                    None
                },
                None => None,
            }
        }
    } else {
        None
    }
}

/// The variable that `name` means from frame `id`.
pub open spec fn resolve<V>(s: Seq<FrameView<V>>, id: int, name: Seq<char>) -> Option<Variable<V>> {
    match defining_frame(s, id, name) {
        Some(f) => Some(s[f].vars[position_of(s[f].vars, name)].1),
        None => None,
    }
}

/// Declaring `name` in frame `id`: `_` declares nothing, and a name the frame
/// already declares is refused; else the variable is added at the end.
pub open spec fn spec_insert<V>(s: Seq<FrameView<V>>, id: int, name: Seq<char>, v: Variable<V>) -> Seq<FrameView<V>> {
    if name == "_"@ || declares(s[id].vars, name) {
        s
    } else {
        s.update(id, FrameView { parent: s[id].parent, vars: s[id].vars.push((name, v)) })
    }
}

/// Assigning `value` to `name` from frame `id`. The frame `id` itself is written
/// through a copy, so a variable that it declares keeps its value; the first
/// enclosing frame that declares `name` is written in place.
pub open spec fn spec_modify<V>(s: Seq<FrameView<V>>, id: int, name: Seq<char>, value: V) -> Seq<FrameView<V>> {
    match defining_frame(s, id, name) {
        Some(f) => if f == id {
            s
        } else {
            let k = position_of(s[f].vars, name);
            let old_var = s[f].vars[k].1;
            s.update(
                f,
                FrameView {
                    parent: s[f].parent,
                    vars: s[f].vars.update(k, (name, Variable { is_const: old_var.is_const, value })),
                },
            )
        },
        None => s,
    }
}

/// A scope: its frame in the store, its enclosing frame, the names it exports,
/// what it belongs to and the file it runs.
pub struct Scope {
    pub id: usize,
    pub parent: Option<usize>,
    pub exported: Vec<(String, Option<String>)>,
    pub scope_type: ScopeType,
    pub file_name: String,
}

/// A scope is a frame of the store, with the enclosing frame that the store records.
pub open spec fn scope_in<V>(sc: Scope, s: Seq<FrameView<V>>) -> bool {
    sc.id < s.len() && s[sc.id as int].parent == sc.parent
}

impl<V> ScopeStore<V> {
    /// A store with no scope yet. Its frame 0 is set aside, empty and enclosed
    /// by nothing, so the scopes made in it are numbered from 1.
    pub fn new() -> (s: Self)
        ensures
            s@.len() == 1,
            s@[0].parent is None,
            s@[0].vars.len() == 0,
            store_wf(s@),
    {
        let mut frames: Vec<Frame<V>> = Vec::new();
        frames.push(Frame { parent: None, variables: Vec::new() });
        let s = ScopeStore { frames };
        proof {
            assert(s@[0].vars =~= seq![]);
        }
        s
    }
}

/// Makes an empty frame of variables, enclosed by `parent`, and returns its
/// id: the one after the last id handed out, so ids count up by one from 1
/// in a new store and never repeat.
pub fn create_variable_store<V>(store: &mut ScopeStore<V>, parent: Option<usize>) -> (id: usize)
    requires
        store_wf(old(store)@),
        parent is Some ==> parent->0 < old(store)@.len(),
        old(store)@.len() < usize::MAX,
    ensures
        id == old(store)@.len(),
        final(store)@ == old(store)@.push(FrameView { parent, vars: seq![] }),
        store_wf(final(store)@),
{
    let variables: Vec<(String, Variable<V>)> = Vec::new();
    proof {
        assert(frame_view(Frame { parent, variables }).vars =~= seq![]);
    }
    store.add_frame(parent, variables)
}

impl<V> ScopeStore<V> {
    /// Adds a frame enclosed by `parent` and returns its index.
    fn add_frame(&mut self, parent: Option<usize>, variables: Vec<(String, Variable<V>)>) -> (id: usize)
        requires
            store_wf(old(self)@),
            parent is Some ==> parent->0 < old(self)@.len(),
            old(self)@.len() < usize::MAX,
            forall|a: int, b: int|
                0 <= a < b < variables@.len() ==> #[trigger] variables@[a].0@ != #[trigger] variables@[b].0@,
        ensures
            id == old(self)@.len(),
            final(self)@ == old(self)@.push(frame_view(Frame { parent, variables })),
            store_wf(final(self)@),
    {
        let ghost s0 = self@;
        let id = self.frames.len();
        self.frames.push(Frame { parent, variables });
        proof {
            assert(self@ =~= s0.push(frame_view(Frame { parent, variables })));
        }
        id
    }

    /// Whether frame `id` declares `name`, and where.
    fn find_in_frame(&self, id: usize, name: &String) -> (r: Option<usize>)
        requires
            id < self@.len(),
            store_wf(self@),
        ensures
            match r {
                Some(k) => declares(self@[id as int].vars, name@) && k == position_of(self@[id as int].vars, name@)
                    && k < self@[id as int].vars.len(),
                None => !declares(self@[id as int].vars, name@),
            },
    {
        let vars = &self.frames[id].variables;
        let ghost fv = self@[id as int].vars;
        assert(fv.len() == vars@.len());
        let mut k: usize = 0;
        while k < vars.len()
            invariant
                0 <= k <= vars@.len(),
                store_wf(self@),
                id < self@.len(),
                fv.len() == vars@.len(),
                fv == self@[id as int].vars,
                forall|j: int| 0 <= j < vars@.len() ==> #[trigger] fv[j].0 == vars@[j].0@,
                forall|j: int| 0 <= j < k ==> fv[j].0 != name@,
            decreases vars.len() - k,
        {
            if vars[k].0 == *name {
                assert(fv[k as int].0 == name@);
                proof {
                    lemma_unique_position(fv, name@, k as int);
                }
                return Some(k);
            }
            k = k + 1;
        }
        None
    }
}

/// Where the names of a frame differ from each other, a name found at `k` is
/// found nowhere else.
proof fn lemma_unique_position<V>(vars: Seq<(Seq<char>, Variable<V>)>, name: Seq<char>, k: int)
    requires
        0 <= k < vars.len(),
        vars[k].0 == name,
        forall|a: int, b: int| 0 <= a < b < vars.len() ==> vars[a].0 != vars[b].0,
    ensures
        declares(vars, name),
        position_of(vars, name) == k,
{
    assert(declares(vars, name));
    let p = position_of(vars, name);
    assert(0 <= p < vars.len() && vars[p].0 == name);
    if p < k {
        assert(vars[p].0 != vars[k].0);
    } else if p > k {
        assert(vars[k].0 != vars[p].0);
    }
}

/// The frame that declares a name is the frame looked from or one that encloses it.
proof fn lemma_defining_frame_le<V>(s: Seq<FrameView<V>>, id: int, name: Seq<char>)
    ensures
        defining_frame(s, id, name) matches Some(f) ==> 0 <= f <= id && f < s.len() && declares(s[f].vars, name),
    decreases id,
{
    if 0 <= id < s.len() && !declares(s[id].vars, name) {
        if let Some(p) = s[id].parent {
            if p < id {
                lemma_defining_frame_le(s, p as int, name);
            }
        }
    }
}

proof fn lemma_frame_vars<V>(s: ScopeStore<V>, id: int)
    requires
        0 <= id < s.frames@.len(),
    ensures
        s@[id] == frame_view(s.frames@[id]),
        s@.len() == s.frames@.len(),
{
}

impl Scope {
    /// The global scope of a file: a new frame that declares `true`, `false` and
    /// `null` with the values given for them.
    pub fn new<V>(store: &mut ScopeStore<V>, file_name: String, true_value: V, false_value: V, null_value: V) -> (sc:
        Scope)
        requires
            store_wf(old(store)@),
            old(store)@.len() < usize::MAX,
        ensures
            store_wf(final(store)@),
            final(store)@.len() == old(store)@.len() + 1,
            final(store)@.subrange(0, old(store)@.len() as int) == old(store)@,
            sc.id == old(store)@.len(),
            sc.parent is None,
            scope_in(sc, final(store)@),
            sc.scope_type == ScopeType::Normal,
            sc.file_name == file_name,
            sc.exported@.len() == 0,
            final(store)@[sc.id as int].vars == seq![
                ("true"@, Variable { is_const: false, value: true_value }),
                ("false"@, Variable { is_const: false, value: false_value }),
                ("null"@, Variable { is_const: false, value: null_value }),
            ],
    {
        proof {
            reveal_strlit("true");
            reveal_strlit("false");
            reveal_strlit("null");
        }
        let mut variables: Vec<(String, Variable<V>)> = Vec::new();
        variables.push((owned("true"), Variable::from(true_value)));
        variables.push((owned("false"), Variable::from(false_value)));
        variables.push((owned("null"), Variable::from(null_value)));
        assert(variables@[0].0@ == "true"@ && variables@[1].0@ == "false"@ && variables@[2].0@ == "null"@);
        assert("true"@ != "false"@ && "true"@ != "null"@ && "false"@ != "null"@) by {
            assert("true"@[0] != "false"@[0]);
            assert("true"@[0] != "null"@[0]);
            assert("false"@[0] != "null"@[0]);
        }
        let ghost s0 = store@;
        let id = store.add_frame(None, variables);
        proof {
            assert(store@.subrange(0, s0.len() as int) =~= s0);
            assert(store@[id as int].vars =~= seq![
                ("true"@, Variable { is_const: false, value: true_value }),
                ("false"@, Variable { is_const: false, value: false_value }),
                ("null"@, Variable { is_const: false, value: null_value }),
            ]);
        }
        Scope { id, parent: None, exported: Vec::new(), scope_type: ScopeType::Normal, file_name }
    }

    /// A scope enclosed by `parent`, running the same file.
    pub fn new_from_parent<V>(store: &mut ScopeStore<V>, parent: &Scope) -> (sc: Scope)
        requires
            store_wf(old(store)@),
            scope_in(*parent, old(store)@),
            old(store)@.len() < usize::MAX,
        ensures
            store_wf(final(store)@),
            final(store)@ == old(store)@.push(FrameView { parent: Some(parent.id), vars: seq![] }),
            sc.id == old(store)@.len(),
            sc.parent == Some(parent.id),
            scope_in(sc, final(store)@),
            sc.scope_type == ScopeType::Normal,
            sc.file_name@ == parent.file_name@,
            sc.exported@.len() == 0,
    {
        let file_name = parent.file_name.clone();
        Scope::new_from_parent_new_file_name(store, parent.id, file_name)
    }

    /// A scope enclosed by the frame `parent`, running the file `file_name`.
    pub fn new_from_parent_new_file_name<V>(store: &mut ScopeStore<V>, parent: usize, file_name: String) -> (sc:
        Scope)
        requires
            store_wf(old(store)@),
            parent < old(store)@.len(),
            old(store)@.len() < usize::MAX,
        ensures
            store_wf(final(store)@),
            final(store)@ == old(store)@.push(FrameView { parent: Some(parent), vars: seq![] }),
            sc.id == old(store)@.len(),
            sc.parent == Some(parent),
            scope_in(sc, final(store)@),
            sc.scope_type == ScopeType::Normal,
            sc.file_name == file_name,
            sc.exported@.len() == 0,
    {
        let id = create_variable_store(store, Some(parent));
        Scope { id, parent: Some(parent), exported: Vec::new(), scope_type: ScopeType::Normal, file_name }
    }

    /// The value of `name`: from this scope's frame, or else from the nearest
    /// enclosing frame that declares it. The name must be declared along the
    /// way: the search does not stop at the outermost frame otherwise.
    pub fn lookup<V: Clone>(&self, store: &ScopeStore<V>, name: String, location: Option<Location>) -> (r:
        Result<V, ZephyrError>)
        requires
            store_wf(store@),
            scope_in(*self, store@),
            resolve(store@, self.id as int, name@) is Some,
        ensures
            r is Ok,
            r matches Ok(v) && cloned(resolve(store@, self.id as int, name@)->0.value, v),
    {
        let mut id = self.id;
        loop
            invariant
                store_wf(store@),
                id < store@.len(),
                defining_frame(store@, id as int, name@) == defining_frame(store@, self.id as int, name@),
                defining_frame(store@, id as int, name@) is Some,
            decreases id,
        {
            match store.find_in_frame(id, &name) {
                Some(k) => {
                    proof {
                        lemma_frame_vars(*store, id as int);
                    }
                    return Ok(store.frames[id].variables[k].1.value.clone());
                },
                None => {
                    match store.frames[id].parent {
                        Some(p) => {
                            proof {
                                lemma_frame_vars(*store, id as int);
                            }
                            id = p;
                        },
                        None => {
                            proof {
                                lemma_frame_vars(*store, id as int);
                                assert(false);
                            }
                        },
                    }
                },
            }
        }
    }

    /// Declares `name` in this scope's frame. `_` declares nothing; a name the
    /// frame already declares is refused.
    pub fn insert<V>(&mut self, store: &mut ScopeStore<V>, name: String, variable: Variable<V>, location: Option<
        Location,
    >) -> (r: Result<(), ZephyrError>)
        requires
            store_wf(old(store)@),
            scope_in(*old(self), old(store)@),
        ensures
            *final(self) == *old(self),
            store_wf(final(store)@),
            final(store)@ == spec_insert(old(store)@, old(self).id as int, name@, variable),
            match r {
                Ok(_) => name@ == "_"@ || !declares(old(store)@[old(self).id as int].vars, name@),
                Err(e) => {
                    &&& name@ != "_"@
                    &&& declares(old(store)@[old(self).id as int].vars, name@)
                    &&& e.code == ErrorCode::AlreadyDefined
                    &&& e.message@ == "Variable "@ + name@ + " already exists in the current scope"@
                    &&& e.location == location
                },
            },
    {
        proof {
            reveal_strlit("_");
        }
        let underscore = owned("_");
        if name == underscore {
            return Ok(());
        }
        match store.find_in_frame(self.id, &name) {
            Some(_) => {
                let message = owned("Variable ").concat(name.as_str()).concat(
                    " already exists in the current scope",
                );
                Err(ZephyrError { code: ErrorCode::AlreadyDefined, message, location })
            },
            None => {
                let ghost s0 = store@;
                let id = self.id;
                let ghost name_v = name@;
                proof {
                    lemma_frame_vars(*store, id as int);
                }
                let mut frame = store.frames.remove(id);
                frame.variables.push((name, variable));
                store.frames.insert(id, frame);
                proof {
                    let f = store.frames@[id as int];
                    assert(frame_view(f).vars =~= s0[id as int].vars.push((name_v, variable)));
                    assert(store@ =~= s0.update(
                        id as int,
                        FrameView { parent: s0[id as int].parent, vars: s0[id as int].vars.push((name_v, variable)) },
                    ));
                    assert forall|i: int, a: int, b: int|
                        0 <= i < store@.len() && 0 <= a < b < store@[i].vars.len() implies #[trigger] store@[i].vars[a].0
                        != #[trigger] store@[i].vars[b].0 by {
                        if i == id && b == s0[id as int].vars.len() {
                            assert(store@[i].vars[a] == s0[i].vars[a]);
                            assert(store@[i].vars[a].0 != name_v);
                        } else if i == id {
                            assert(store@[i].vars[a] == s0[i].vars[a]);
                            assert(store@[i].vars[b] == s0[i].vars[b]);
                        } else {
                            assert(store@[i] == s0[i]);
                        }
                    }
                    assert forall|i: int| 0 <= i < store@.len() && (#[trigger] store@[i]).parent is Some implies store@[
                        i].parent->0 < i by {
                        if i != id {
                            assert(store@[i] == s0[i]);
                        }
                    }
                }
                Ok(())
            },
        }
    }

    /// Assigns `value` to `name`, which must be declared in this scope's frame
    /// or in an enclosing one: the search does not stop at the outermost frame
    /// otherwise. This scope's own frame is written through a copy of it, so a
    /// variable that it declares keeps its value; the nearest enclosing frame
    /// that declares `name` is written in place.
    #[verifier::loop_isolation(false)]
    pub fn modify<V>(&mut self, store: &mut ScopeStore<V>, name: String, value: V, location: Option<Location>) -> (r:
        Result<(), ZephyrError>)
        requires
            store_wf(old(store)@),
            scope_in(*old(self), old(store)@),
            resolve(old(store)@, old(self).id as int, name@) is Some,
        ensures
            r is Ok,
            *final(self) == *old(self),
            store_wf(final(store)@),
            final(store)@ == spec_modify(old(store)@, old(self).id as int, name@, value),
    {
        if let Some(_) = store.find_in_frame(self.id, &name) {
            return Ok(());
        }
        let ghost s0 = store@;
        let ghost start = self.id as int;
        proof {
            lemma_frame_vars(*store, self.id as int);
            lemma_defining_frame_le(s0, start, name@);
        }
        let mut id = match store.frames[self.id].parent {
            Some(p) => p,
            None => {
                proof {
                    assert(false);
                }
                return Ok(());
            },
        };
        loop
            invariant
                store_wf(store@),
                store@ == s0,
                id < store@.len(),
                defining_frame(store@, id as int, name@) == defining_frame(store@, start, name@),
                defining_frame(store@, start, name@) is Some,
                defining_frame(store@, start, name@)->0 != start,
            decreases id,
        {
            proof {
                lemma_frame_vars(*store, id as int);
            }
            match store.find_in_frame(id, &name) {
                Some(k) => {
                    let ghost f = id as int;
                    let ghost kk = k as int;
                    let ghost name_v = name@;
                    let mut frame = store.frames.remove(id);
                    let (n, var) = frame.variables.remove(k);
                    let is_const = var.is_const;
                    frame.variables.insert(k, (n, Variable { is_const, value }));
                    store.frames.insert(id, frame);
                    proof {
                        assert(defining_frame(s0, f, name_v) == Some(f));
                        assert(defining_frame(s0, start, name_v) == Some(f));
                        assert(position_of(s0[f].vars, name_v) == kk);
                        let newv = Variable { is_const: s0[f].vars[kk].1.is_const, value };
                        assert(frame_view(store.frames@[f]).vars =~= s0[f].vars.update(kk, (name_v, newv)));
                        assert(store@ =~= s0.update(
                            f,
                            FrameView { parent: s0[f].parent, vars: s0[f].vars.update(kk, (name_v, newv)) },
                        ));
                        assert forall|i: int, a: int, b: int|
                            0 <= i < store@.len() && 0 <= a < b < store@[i].vars.len() implies #[trigger] store@[
                            i].vars[a].0 != #[trigger] store@[i].vars[b].0 by {
                            if i == f {
                                assert(store@[i].vars[a].0 == s0[i].vars[a].0);
                                assert(store@[i].vars[b].0 == s0[i].vars[b].0);
                            } else {
                                assert(store@[i] == s0[i]);
                            }
                        }
                        assert forall|i: int| 0 <= i < store@.len() && (#[trigger] store@[i]).parent is Some implies store@[
                            i].parent->0 < i by {
                            if i != f {
                                assert(store@[i] == s0[i]);
                            }
                        }
                    }
                    return Ok(());
                },
                None => {
                    match store.frames[id].parent {
                        Some(p) => {
                            id = p;
                        },
                        None => {
                            proof {
                                assert(false);
                            }
                            return Ok(());
                        },
                    }
                },
            }
        }
    }
}


/// The frame that declares a name depends only on the frames at and below the
/// one looked from: on their enclosing frames and on whether they declare it.
proof fn lemma_defining_frame_same<V>(s: Seq<FrameView<V>>, t: Seq<FrameView<V>>, id: int, name: Seq<char>)
    requires
        0 <= id < s.len(),
        id < t.len(),
        forall|k: int|
            0 <= k <= id ==> (#[trigger] t[k]).parent == s[k].parent && declares(t[k].vars, name) == declares(
                s[k].vars,
                name,
            ),
    ensures
        defining_frame(t, id, name) == defining_frame(s, id, name),
    decreases id,
{
    if !declares(s[id].vars, name) {
        assert(t[id].parent == s[id].parent);
        if let Some(p) = s[id].parent {
            if p < id {
                lemma_defining_frame_same(s, t, p as int, name);
            }
        }
    }
}

/// Declaring a name adds it to the frame's names, which stay distinct.
proof fn lemma_insert_vars<V>(s: Seq<FrameView<V>>, id: int, name: Seq<char>, v: Variable<V>)
    requires
        store_wf(s),
        0 <= id < s.len(),
        !declares(s[id].vars, name),
    ensures
        forall|a: int, b: int|
            0 <= a < b < s[id].vars.push((name, v)).len() ==> s[id].vars.push((name, v))[a].0 != s[id].vars.push(
                (name, v),
            )[b].0,
{
    let w = s[id].vars.push((name, v));
    assert forall|a: int, b: int| 0 <= a < b < w.len() implies w[a].0 != w[b].0 by {
        if b == s[id].vars.len() {
            assert(w[a] == s[id].vars[a]);
        } else {
            assert(w[a] == s[id].vars[a]);
            assert(w[b] == s[id].vars[b]);
            assert(s[id].vars[a].0 != s[id].vars[b].0);
        }
    }
}

/// A declared variable is what its name means in that scope; what every other
/// name means, from any scope, is as it was.
pub proof fn law_insert_then_resolve<V>(
    s: Seq<FrameView<V>>,
    id: int,
    name: Seq<char>,
    v: Variable<V>,
    from: int,
    other: Seq<char>,
)
    requires
        store_wf(s),
        0 <= id < s.len(),
        0 <= from < s.len(),
        name != "_"@,
        !declares(s[id].vars, name),
        other != name,
    ensures
        resolve(spec_insert(s, id, name, v), id, name) == Some(v),
        resolve(spec_insert(s, id, name, v), from, other) == resolve(s, from, other),
{
    let t = spec_insert(s, id, name, v);
    let w = s[id].vars.push((name, v));
    assert(t[id].vars == w);
    lemma_insert_vars(s, id, name, v);
    lemma_unique_position(w, name, s[id].vars.len() as int);
    assert(declares(w, name));
    assert forall|k: int| 0 <= k <= from implies (#[trigger] t[k]).parent == s[k].parent && declares(
        t[k].vars,
        other,
    ) == declares(s[k].vars, other) by {
        if k == id {
            if declares(s[k].vars, other) {
                let j = position_of(s[k].vars, other);
                assert(w[j] == s[k].vars[j]);
            }
            if declares(w, other) {
                let j = position_of(w, other);
                assert(j != s[id].vars.len());
                assert(w[j] == s[k].vars[j]);
            }
        }
    }
    lemma_defining_frame_same(s, t, from, other);
    if let Some(f) = defining_frame(s, from, other) {
        lemma_defining_frame_le(s, from, other);
        if f == id {
            let j = position_of(s[id].vars, other);
            assert(w[j] == s[id].vars[j]);
            lemma_unique_position(w, other, j);
        }
    }
}

/// A new scope means by every name what its enclosing scope means by it.
pub proof fn law_child_resolves_as_parent<V>(s: Seq<FrameView<V>>, parent: usize, name: Seq<char>)
    requires
        store_wf(s),
        0 <= parent < s.len(),
    ensures
        resolve(s.push(FrameView { parent: Some(parent), vars: seq![] }), s.len() as int, name) == resolve(
            s,
            parent as int,
            name,
        ),
{
    let t = s.push(FrameView { parent: Some(parent), vars: seq![] });
    assert(!declares(t[s.len() as int].vars, name));
    assert forall|k: int| 0 <= k <= parent implies (#[trigger] t[k]).parent == s[k].parent && declares(
        t[k].vars,
        name,
    ) == declares(s[k].vars, name) by {
        assert(t[k] == s[k]);
    }
    lemma_defining_frame_same(s, t, parent as int, name);
    if let Some(f) = defining_frame(s, parent as int, name) {
        lemma_defining_frame_le(s, parent as int, name);
        assert(t[f] == s[f]);
    }
}

/// Assigning to a name that an enclosing scope declares changes what the name
/// means from the scope assigned from, keeping whether it is constant; assigning
/// to a name of the scope's own frame changes nothing.
pub proof fn law_modify_then_resolve<V>(s: Seq<FrameView<V>>, id: int, name: Seq<char>, value: V)
    requires
        store_wf(s),
        0 <= id < s.len(),
        resolve(s, id, name) is Some,
    ensures
        declares(s[id].vars, name) ==> spec_modify(s, id, name, value) == s,
        !declares(s[id].vars, name) ==> resolve(spec_modify(s, id, name, value), id, name) == Some(
            Variable { is_const: resolve(s, id, name)->0.is_const, value },
        ),
{
    let f = defining_frame(s, id, name)->0;
    lemma_defining_frame_le(s, id, name);
    if !declares(s[id].vars, name) {
        assert(f != id);
        let t = spec_modify(s, id, name, value);
        let k = position_of(s[f].vars, name);
        let w = t[f].vars;
        assert(w == s[f].vars.update(k, (name, Variable { is_const: s[f].vars[k].1.is_const, value })));
        assert forall|j: int| 0 <= j <= id implies (#[trigger] t[j]).parent == s[j].parent && declares(
            t[j].vars,
            name,
        ) == declares(s[j].vars, name) by {
            if j == f {
                assert(w[k].0 == name);
                if declares(w, name) {
                    let q = position_of(w, name);
                    if q != k {
                        assert(w[q] == s[f].vars[q]);
                    }
                }
            }
        }
        lemma_defining_frame_same(s, t, id, name);
        assert forall|a: int, b: int| 0 <= a < b < w.len() implies w[a].0 != w[b].0 by {
            assert(w[a].0 == s[f].vars[a].0);
            assert(w[b].0 == s[f].vars[b].0);
            assert(s[f].vars[a].0 != s[f].vars[b].0);
        }
        lemma_unique_position(w, name, k);
    }
}


/// A scope made next is given the id just past every frame of the store (see
/// `create_variable_store` and `Scope::new`): greater than the id of every
/// scope made before it, which stay scopes of the grown store. A new store
/// holds one frame, so ids count up from 1, one per scope, and never repeat.
pub proof fn law_fresh_scope_ids<V>(s: Seq<FrameView<V>>, earlier: Scope, next: FrameView<V>)
    requires
        scope_in(earlier, s),
    ensures
        earlier.id < s.len(),
        scope_in(earlier, s.push(next)),
{
    assert(s.push(next)[earlier.id as int] == s[earlier.id as int]);
}

} // verus!
