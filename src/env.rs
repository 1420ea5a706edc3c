use vstd::prelude::*;
use crate::object::{Object, Value, obj_view, copy_object};

verus! {

/// One scope as a mathematical value: its bindings and the index of the
/// enclosing scope, if any.
pub struct Frame {
    pub vars: Map<Seq<char>, Value>,
    pub outer: Option<nat>,
}

/// The bindings of a scope in the order they were made; a later binding of
/// a name overrides an earlier one.
pub open spec fn bindings_map(bs: Seq<(String, Object)>) -> Map<Seq<char>, Value>
    decreases bs.len(),
{
    if bs.len() == 0 {
        Map::empty()
    } else {
        bindings_map(bs.drop_last()).insert(bs.last().0@, obj_view(bs.last().1))
    }
}

/// A scope: name bindings and a link to the enclosing scope.
pub struct Scope {
    pub vars: Vec<(String, Object)>,
    pub outer: Option<usize>,
}

impl Scope {
    pub open spec fn view(&self) -> Frame {
        Frame {
            vars: bindings_map(self.vars@),
            outer: match self.outer {
                Some(o) => Some(o as nat),
                None => None,
            },
        }
    }
}

/// Every scope's enclosing scope was made before it, so the links never
/// form a cycle.
pub open spec fn frames_wf(fs: Seq<Frame>) -> bool {
    forall|i: int|
        0 <= i < fs.len() ==> match #[trigger] fs[i].outer {
            Some(o) => o < i,
            None => true,
        }
}

/// The value bound to `name` as seen from scope `k`: the innermost binding
/// along the chain of enclosing scopes.
pub open spec fn lookup(fs: Seq<Frame>, k: nat, name: Seq<char>) -> Option<Value>
    decreases k,
{
    if k >= fs.len() {
        None
    } else if fs[k as int].vars.contains_key(name) {
        Some(fs[k as int].vars[name])
    } else {
        match fs[k as int].outer {
            Some(o) => if o < k {
                lookup(fs, o, name)
            } else {
                None
            },
            None => None,
        }
    }
}

/// The value part of an optional object.
pub open spec fn opt_view(o: Option<Object>) -> Option<Value> {
    match o {
        Some(x) => Some(obj_view(x)),
        None => None,
    }
}

/// All scopes of a program run, held in one arena and referred to by index.
pub struct Env {
    pub scopes: Vec<Scope>,
}

impl Env {
    pub open spec fn view(&self) -> Seq<Frame> {
        self.scopes@.map_values(|s: Scope| s.view())
    }

    pub open spec fn wf(&self) -> bool {
        frames_wf(self.view())
    }

    /// An arena holding only the global scope, at index 0.
    pub fn new() -> (r: Env)
        ensures
            r.wf(),
            r.view() == seq![Frame { vars: Map::empty(), outer: None }],
    {
        let mut scopes: Vec<Scope> = Vec::new();
        scopes.push(Scope { vars: Vec::new(), outer: None });
        let r = Env { scopes };
        assert(r.view() =~= seq![Frame { vars: Map::empty(), outer: None }]);
        r
    }

    /// Adds an empty scope enclosed by scope `outer` and returns its index.
    pub fn new_with_outer(&mut self, outer: usize) -> (r: usize)
        requires
            old(self).wf(),
            outer < old(self).view().len(),
        ensures
            final(self).wf(),
            r == old(self).view().len(),
            final(self).view() == old(self).view().push(
                Frame { vars: Map::empty(), outer: Some(outer as nat) },
            ),
    {
        let r = self.scopes.len();
        self.scopes.push(Scope { vars: Vec::new(), outer: Some(outer) });
        assert(self.view() =~= old(self).view().push(
            Frame { vars: Map::empty(), outer: Some(outer as nat) },
        ));
        r
    }

    /// The value of `name` as seen from scope `scope`.
    pub fn get(&self, scope: usize, name: &String) -> (r: Option<Object>)
        requires
            self.wf(),
        ensures
            opt_view(r) == lookup(self.view(), scope as nat, name@),
        decreases scope,
    {
        if scope >= self.scopes.len() {
            return None;
        }
        let s = &self.scopes[scope];
        let ghost fs = self.view();
        assert(fs[scope as int] == s.view());
        match find_binding(&s.vars, name) {
            Some(o) => Some(o),
            None => match s.outer {
                Some(o) => {
                    assert(fs[scope as int].outer == Some(o as nat));
                    if o < scope {
                        self.get(o, name)
                    } else {
                        None
                    }
                },
                None => None,
            },
        }
    }

    /// Binds `name` to `obj` in scope `scope` itself, replacing a binding of
    /// the same name there.
    pub fn set(&mut self, scope: usize, name: String, obj: Object)
        requires
            old(self).wf(),
            scope < old(self).view().len(),
        ensures
            final(self).wf(),
            final(self).view() == old(self).view().update(
                scope as int,
                Frame {
                    vars: old(self).view()[scope as int].vars.insert(name@, obj_view(obj)),
                    outer: old(self).view()[scope as int].outer,
                },
            ),
    {
        let ghost name_v = name@;
        let ghost obj_v = obj_view(obj);
        let ghost old_vars = self.scopes@[scope as int].vars@;
        match last_index_of(&self.scopes[scope].vars, &name) {
            Some(j) => {
                proof {
                    lemma_bindings_replace(old_vars, j as int, (name, obj));
                }
                self.scopes[scope].vars.set(j, (name, obj));
            },
            None => {
                self.scopes[scope].vars.push((name, obj));
                assert(self.scopes@[scope as int].vars@.drop_last() =~= old_vars);
            },
        }
        assert(self.view() =~= old(self).view().update(
            scope as int,
            Frame {
                vars: old(self).view()[scope as int].vars.insert(name_v, obj_v),
                outer: old(self).view()[scope as int].outer,
            },
        ));
    }
}

/// Replacing the latest binding of a name with a new binding of that name
/// rebinds the name and leaves every other name alone.
proof fn lemma_bindings_replace(bs: Seq<(String, Object)>, j: int, b: (String, Object))
    requires
        0 <= j < bs.len(),
        bs[j].0@ == b.0@,
        forall|m: int| j < m < bs.len() ==> #[trigger] bs[m].0@ != b.0@,
    ensures
        bindings_map(bs.update(j, b)) == bindings_map(bs).insert(b.0@, obj_view(b.1)),
    decreases bs.len(),
{
    let u = bs.update(j, b);
    if j == bs.len() - 1 {
        assert(u.drop_last() =~= bs.drop_last());
        assert(bindings_map(u) =~= bindings_map(bs).insert(b.0@, obj_view(b.1)));
    } else {
        assert(u.drop_last() =~= bs.drop_last().update(j, b));
        lemma_bindings_replace(bs.drop_last(), j, b);
        assert(bs[bs.len() - 1].0@ != b.0@);
        assert(bindings_map(u) =~= bindings_map(bs).insert(b.0@, obj_view(b.1)));
    }
}

/// The index of the latest binding of `name` in a binding list, if any.
fn last_index_of(bs: &Vec<(String, Object)>, name: &String) -> (r: Option<usize>)
    ensures
        match r {
            Some(j) => j < bs@.len() && bs@[j as int].0@ == name@ && forall|m: int|
                j < m < bs@.len() ==> #[trigger] bs@[m].0@ != name@,
            None => forall|m: int| 0 <= m < bs@.len() ==> #[trigger] bs@[m].0@ != name@,
        },
{
    let mut i: usize = bs.len();
    while i > 0
        invariant
            i <= bs@.len(),
            forall|m: int| i <= m < bs@.len() ==> #[trigger] bs@[m].0@ != name@,
        decreases i,
    {
        if bs[i - 1].0 == *name {
            return Some(i - 1);
        }
        i = i - 1;
    }
    None
}

/// The latest binding of `name` in a scope's binding list.
fn find_binding(bs: &Vec<(String, Object)>, name: &String) -> (r: Option<Object>)
    ensures
        match r {
            Some(o) => bindings_map(bs@).contains_key(name@) && obj_view(o) == bindings_map(
                bs@,
            )[name@],
            None => !bindings_map(bs@).contains_key(name@),
        },
{
    let mut i: usize = bs.len();
    assert(bs@.take(i as int) =~= bs@);
    while i > 0
        invariant
            i <= bs@.len(),
            bindings_map(bs@).contains_key(name@) <==> bindings_map(
                bs@.take(i as int),
            ).contains_key(name@),
            bindings_map(bs@).contains_key(name@) ==> bindings_map(bs@)[name@] == bindings_map(
                bs@.take(i as int),
            )[name@],
        decreases i,
    {
        let ghost t = bs@.take(i as int);
        assert(t.drop_last() =~= bs@.take(i as int - 1));
        if bs[i - 1].0 == *name {
            return Some(copy_object(&bs[i - 1].1));
        }
        i = i - 1;
    }
    assert(bs@.take(0) =~= Seq::<(String, Object)>::empty());
    None
}

} // verus!
