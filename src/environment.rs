use vstd::prelude::*;
use crate::syntax::Stmt;
use crate::value::{TermValue, Val};

verus! {

/// One lexical scope: its variables, its function table, and the accumulator
/// of the traversal.
pub struct ExecutionState<'a> {
    /// Bindings of this scope; a name is bound at most once, by the first entry.
    pub variables: Vec<(String, TermValue)>,
    pub return_value: TermValue,
    /// Bodies of the functions declared in this scope, shared with the syntax tree.
    pub functions: Vec<&'a Vec<Stmt>>,
}

/// The model of a scope.
pub struct FrameModel {
    pub vars: Seq<(Seq<char>, Val)>,
    pub funcs: Seq<Seq<Stmt>>,
    pub ret: Val,
}

impl<'a> View for ExecutionState<'a> {
    type V = FrameModel;

    open spec fn view(&self) -> FrameModel {
        FrameModel {
            vars: self.variables@.map_values(|p: (String, TermValue)| (p.0@, p.1@)),
            funcs: self.functions@.map_values(|f: &Vec<Stmt>| f@),
            ret: self.return_value@,
        }
    }
}

/// The model of a stack of scopes, outermost first.
pub open spec fn stack_view<'a>(s: Seq<ExecutionState<'a>>) -> Seq<FrameModel> {
    s.map_values(|f: ExecutionState<'a>| f@)
}

/// Position of the first binding of `name` in a scope.
pub open spec fn find_var(vars: Seq<(Seq<char>, Val)>, name: Seq<char>) -> Option<int>
    decreases vars.len(),
{
    if vars.len() == 0 {
        None
    } else {
        match find_var(vars.drop_last(), name) {
            Some(i) => Some(i),
            None => if vars.last().0 == name {
                Some(vars.len() - 1)
            } else {
                None
            },
        }
    }
}

/// The value bound to `name` in a scope.
pub open spec fn frame_get(vars: Seq<(Seq<char>, Val)>, name: Seq<char>) -> Option<Val> {
    match find_var(vars, name) {
        Some(i) => Some(vars[i].1),
        None => None,
    }
}

/// A scope after binding `name` to `v`: the binding is replaced where it exists,
/// added at the end where it does not.
pub open spec fn frame_set(
    vars: Seq<(Seq<char>, Val)>,
    name: Seq<char>,
    v: Val,
) -> Seq<(Seq<char>, Val)> {
    match find_var(vars, name) {
        Some(i) => vars.update(i, (name, v)),
        None => vars.push((name, v)),
    }
}

/// Index of the innermost scope that binds `name`.
pub open spec fn find_frame(frames: Seq<FrameModel>, name: Seq<char>) -> Option<int>
    decreases frames.len(),
{
    if frames.len() == 0 {
        None
    } else if find_var(frames.last().vars, name) is Some {
        Some(frames.len() - 1)
    } else {
        find_frame(frames.drop_last(), name)
    }
}

/// Innermost-first resolution of a name.
pub open spec fn lookup(frames: Seq<FrameModel>, name: Seq<char>) -> Option<Val> {
    match find_frame(frames, name) {
        Some(k) => frame_get(frames[k].vars, name),
        None => None,
    }
}

pub open spec fn empty_frame() -> FrameModel {
    FrameModel { vars: Seq::empty(), funcs: Seq::empty(), ret: Val::Empty }
}

pub open spec fn push_frame(frames: Seq<FrameModel>) -> Seq<FrameModel> {
    frames.push(empty_frame())
}

pub open spec fn pop_frame(frames: Seq<FrameModel>) -> Seq<FrameModel> {
    if frames.len() > 0 {
        frames.drop_last()
    } else {
        frames
    }
}

/// Binds `name` in the innermost scope only.
pub open spec fn declare(frames: Seq<FrameModel>, name: Seq<char>, v: Val) -> Seq<FrameModel> {
    if frames.len() == 0 {
        frames
    } else {
        let top = frames.last();
        frames.update(
            frames.len() - 1,
            FrameModel { vars: frame_set(top.vars, name, v), ..top },
        )
    }
}

/// Rebinds `name` in the innermost scope that binds it; `None` where no scope does.
pub open spec fn assign(frames: Seq<FrameModel>, name: Seq<char>, v: Val) -> Option<
    Seq<FrameModel>,
> {
    match find_frame(frames, name) {
        Some(k) => Some(
            frames.update(k, FrameModel { vars: frame_set(frames[k].vars, name, v), ..frames[k] }),
        ),
        None => None,
    }
}

pub(crate) proof fn lemma_find_var_bounds(vars: Seq<(Seq<char>, Val)>, name: Seq<char>)
    ensures
        find_var(vars, name) matches Some(i) ==> 0 <= i < vars.len() && vars[i].0 == name,
    decreases vars.len(),
{
    if vars.len() > 0 {
        lemma_find_var_bounds(vars.drop_last(), name);
    }
}

pub(crate) proof fn lemma_find_frame_bounds(frames: Seq<FrameModel>, name: Seq<char>)
    ensures
        find_frame(frames, name) matches Some(k) ==> 0 <= k < frames.len() && find_var(
            frames[k].vars,
            name,
        ) is Some,
        find_frame(frames, name) is None <==> lookup(frames, name) is None,
    decreases frames.len(),
{
    if frames.len() > 0 {
        lemma_find_frame_bounds(frames.drop_last(), name);
    }
}

proof fn lemma_frame_set_get(vars: Seq<(Seq<char>, Val)>, name: Seq<char>, v: Val)
    ensures
        frame_get(frame_set(vars, name, v), name) == Some(v),
    decreases vars.len(),
{
    lemma_find_var_bounds(vars, name);
    let r = frame_set(vars, name, v);
    match find_var(vars, name) {
        Some(i) => {
            lemma_find_var_first(vars, name, i);
            lemma_find_var_of_first(r, name, i);
        },
        None => {
            lemma_find_var_none(vars, name);
            assert(r.drop_last() =~= vars);
        },
    }
}

/// No entry before the first binding carries the name.
proof fn lemma_find_var_first(vars: Seq<(Seq<char>, Val)>, name: Seq<char>, i: int)
    requires
        find_var(vars, name) == Some(i),
    ensures
        forall|j: int| 0 <= j < i ==> vars[j].0 != name,
    decreases vars.len(),
{
    lemma_find_var_bounds(vars, name);
    if find_var(vars.drop_last(), name) is Some {
        lemma_find_var_first(vars.drop_last(), name, i);
    } else {
        lemma_find_var_none(vars.drop_last(), name);
    }
    assert forall|j: int| 0 <= j < i implies vars[j].0 != name by {
        assert(vars.drop_last()[j] == vars[j]);
    }
}

proof fn lemma_find_var_none(vars: Seq<(Seq<char>, Val)>, name: Seq<char>)
    requires
        find_var(vars, name) is None,
    ensures
        forall|j: int| 0 <= j < vars.len() ==> vars[j].0 != name,
    decreases vars.len(),
{
    if vars.len() > 0 {
        lemma_find_var_none(vars.drop_last(), name);
        assert forall|j: int| 0 <= j < vars.len() implies vars[j].0 != name by {
            if j < vars.len() - 1 {
                assert(vars.drop_last()[j] == vars[j]);
            }
        }
    }
}

proof fn lemma_find_var_of_first(vars: Seq<(Seq<char>, Val)>, name: Seq<char>, i: int)
    requires
        0 <= i < vars.len(),
        vars[i].0 == name,
        forall|j: int| 0 <= j < i ==> vars[j].0 != name,
    ensures
        find_var(vars, name) == Some(i),
    decreases vars.len(),
{
    if i < vars.len() - 1 {
        lemma_find_var_of_first(vars.drop_last(), name, i);
    } else {
        lemma_find_var_none_of(vars.drop_last(), name);
    }
}

proof fn lemma_find_var_none_of(vars: Seq<(Seq<char>, Val)>, name: Seq<char>)
    requires
        forall|j: int| 0 <= j < vars.len() ==> vars[j].0 != name,
    ensures
        find_var(vars, name) is None,
    decreases vars.len(),
{
    if vars.len() > 0 {
        lemma_find_var_none_of(vars.drop_last(), name);
    }
}

/// A declared name is found again in the same scope, with the declared value.
pub proof fn lemma_declare_then_lookup(frames: Seq<FrameModel>, name: Seq<char>, v: Val)
    requires
        frames.len() > 0,
    ensures
        lookup(declare(frames, name, v), name) == Some(v),
{
    let d = declare(frames, name, v);
    lemma_frame_set_get(frames.last().vars, name, v);
    assert(d.last().vars == frame_set(frames.last().vars, name, v));
}

/// Shadowing: a name declared in a new inner scope hides an outer binding while the
/// scope is active, and the outer binding is back once the scope is left.
pub proof fn lemma_shadowing(frames: Seq<FrameModel>, name: Seq<char>, v: Val)
    ensures
        lookup(declare(push_frame(frames), name, v), name) == Some(v),
        pop_frame(declare(push_frame(frames), name, v)) == frames,
        lookup(pop_frame(declare(push_frame(frames), name, v)), name) == lookup(frames, name),
{
    lemma_declare_then_lookup(push_frame(frames), name, v);
    assert(pop_frame(declare(push_frame(frames), name, v)) =~= frames);
}

/// Assigning to a name that no active scope binds fails and changes nothing.
pub proof fn lemma_assign_undeclared(frames: Seq<FrameModel>, name: Seq<char>, v: Val)
    requires
        lookup(frames, name) is None,
    ensures
        assign(frames, name, v) is None,
{
    lemma_find_frame_bounds(frames, name);
}

/// Assigning to a bound name makes a lookup return the new value.
pub proof fn lemma_assign_then_lookup(frames: Seq<FrameModel>, name: Seq<char>, v: Val)
    requires
        lookup(frames, name) is Some,
    ensures
        assign(frames, name, v) matches Some(f) && lookup(f, name) == Some(v) && f.len()
            == frames.len(),
    decreases frames.len(),
{
    lemma_find_frame_bounds(frames, name);
    let k = find_frame(frames, name)->Some_0;
    let f = assign(frames, name, v)->Some_0;
    lemma_frame_set_get(frames[k].vars, name, v);
    lemma_find_frame_update(frames, name, k, f);
}

proof fn lemma_find_frame_update(
    frames: Seq<FrameModel>,
    name: Seq<char>,
    k: int,
    f: Seq<FrameModel>,
)
    requires
        find_frame(frames, name) == Some(k),
        0 <= k < frames.len(),
        f.len() == frames.len(),
        find_var(f[k].vars, name) is Some,
        forall|j: int| 0 <= j < f.len() && j != k ==> f[j] == frames[j],
    ensures
        find_frame(f, name) == Some(k),
    decreases frames.len(),
{
    if k < frames.len() - 1 {
        assert(f.last() == frames.last());
        lemma_find_frame_update(frames.drop_last(), name, k, f.drop_last());
    }
}


pub open spec fn opt_view(o: Option<TermValue>) -> Option<Val> {
    match o {
        Some(v) => Some(v@),
        None => None,
    }
}

impl<'a> ExecutionState<'a> {
    pub fn new() -> (r: Self)
        ensures
            r@ == empty_frame(),
    {
        let r = ExecutionState {
            variables: Vec::new(),
            functions: Vec::new(),
            return_value: TermValue::Empty,
        };
        assert(r@.vars =~= Seq::<(Seq<char>, Val)>::empty());
        assert(r@.funcs =~= Seq::<Seq<Stmt>>::empty());
        r
    }
}

/// Position of the first binding of `name` in a scope's variables.
fn find_var_index(vars: &Vec<(String, TermValue)>, name: &String) -> (r: Option<usize>)
    ensures
        match r {
            Some(i) => find_var(vars@.map_values(|p: (String, TermValue)| (p.0@, p.1@)), name@)
                == Some(i as int),
            None => find_var(vars@.map_values(|p: (String, TermValue)| (p.0@, p.1@)), name@) is None,
        },
{
    let ghost v = vars@.map_values(|p: (String, TermValue)| (p.0@, p.1@));
    let mut i: usize = 0;
    while i < vars.len()
        invariant
            i <= vars.len(),
            v == vars@.map_values(|p: (String, TermValue)| (p.0@, p.1@)),
            forall|j: int| 0 <= j < i ==> v[j].0 != name@,
        decreases vars.len() - i,
    {
        if vars[i].0.eq(name) {
            proof {
                lemma_find_var_of_first(v, name@, i as int);
            }
            return Some(i);
        }
        i = i + 1;
    }
    proof {
        lemma_find_var_none_of(v, name@);
    }
    None
}

/// Index of the innermost scope that binds `name`, and the binding's position in it.
pub(crate) fn find_binding<'a>(frames: &Vec<ExecutionState<'a>>, name: &String) -> (r: Option<(usize, usize)>)
    ensures
        match r {
            Some((k, i)) => find_frame(stack_view(frames@), name@) == Some(k as int) && k
                < frames.len() && find_var(stack_view(frames@)[k as int].vars, name@) == Some(
                i as int,
            ),
            None => find_frame(stack_view(frames@), name@) is None,
        },
{
    let ghost s = stack_view(frames@);
    let mut k: usize = frames.len();
    assert(s.take(k as int) =~= s);
    while k > 0
        invariant
            k <= frames.len(),
            s == stack_view(frames@),
            find_frame(s, name@) == find_frame(s.take(k as int), name@),
        decreases k,
    {
        let found = find_var_index(&frames[k - 1].variables, name);
        let ghost t = s.take(k as int);
        assert(t.last() == s[k - 1]);
        match found {
            Some(i) => {
                return Some((k - 1, i));
            },
            None => {
                assert(t.drop_last() =~= s.take(k - 1));
            },
        }
        k = k - 1;
    }
    None
}

/// Innermost-first resolution of a name.
pub fn lookup_var<'a>(frames: &Vec<ExecutionState<'a>>, name: &String) -> (r: Option<TermValue>)
    ensures
        opt_view(r) == lookup(stack_view(frames@), name@),
{
    proof {
        lemma_find_frame_bounds(stack_view(frames@), name@);
    }
    match find_binding(frames, name) {
        Some((k, i)) => {
            proof {
                lemma_find_var_bounds(stack_view(frames@)[k as int].vars, name@);
            }
            Some(frames[k].variables[i].1.clone())
        },
        None => None,
    }
}

/// Binds `name` to `v` in the innermost scope.
pub fn declare_var<'a>(frames: &mut Vec<ExecutionState<'a>>, name: String, v: TermValue)
    ensures
        stack_view(final(frames)@) == declare(stack_view(old(frames)@), name@, v@),
        final(frames)@.len() == old(frames)@.len(),
{
    let ghost s = stack_view(frames@);
    match frames.pop() {
        None => {
            assert(stack_view(frames@) =~= s);
        },
        Some(mut top) => {
            let ghost vars0 = top@.vars;
            assert(vars0 == s.last().vars);
            let ghost nm = name@;
            let ghost vv = v@;
            proof {
                lemma_find_var_bounds(vars0, nm);
            }
            match find_var_index(&top.variables, &name) {
                Some(i) => {
                    top.variables.set(i, (name, v));
                    assert(top@.vars =~= vars0.update(i as int, (nm, vv)));
                },
                None => {
                    top.variables.push((name, v));
                    assert(top@.vars =~= vars0.push((nm, vv)));
                },
            }
            frames.push(top);
            assert(stack_view(frames@) =~= declare(s, nm, vv));
        },
    }
}

/// Rebinds `name` to `v` in the innermost scope that binds it. Returns false, and
/// changes nothing, where no scope binds it.
pub fn assign_var<'a>(frames: &mut Vec<ExecutionState<'a>>, name: &String, v: TermValue) -> (ok:
    bool)
    ensures
        match assign(stack_view(old(frames)@), name@, v@) {
            Some(f) => ok && stack_view(final(frames)@) == f,
            None => !ok && final(frames)@ == old(frames)@,
        },
        final(frames)@.len() == old(frames)@.len(),
{
    let ghost s = stack_view(frames@);
    match find_binding(frames, name) {
        None => false,
        Some((k, i)) => {
            let mut f = frames.remove(k);
            let ghost vars0 = f@.vars;
            assert(vars0 == s[k as int].vars);
            proof {
                lemma_find_var_bounds(vars0, name@);
            }
            let ghost vv = v@;
            f.variables.set(i, (name.clone(), v));
            assert(f@.vars =~= vars0.update(i as int, (name@, vv)));
            frames.insert(k, f);
            assert(stack_view(frames@) =~= assign(s, name@, vv)->Some_0);
            true
        },
    }
}

} // verus!
