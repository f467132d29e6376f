use vstd::prelude::*;
use crate::bone::BoneModel;
use crate::mesh::{MeshData, MeshModel};

verus! {

/// One step of a skeleton update: the bone to update and the bone whose world matrix is
/// its parent's (none for the root, whose parent matrix is the identity).
#[derive(Copy, Clone, Debug, PartialEq, Eq, Structural)]
pub struct BoneVisit {
    pub bone: usize,
    pub parent: Option<usize>,
}

/// Whether `c` is among the child ids of bone `p`.
pub open spec fn is_child(bones: Seq<BoneModel>, p: int, c: int) -> bool {
    exists|i: int| 0 <= i < bones[p].children.len() && bones[p].children[i] as int == c
}

/// Whether bone `b` is visited somewhere in `plan`.
pub open spec fn in_plan(plan: Seq<BoneVisit>, b: int) -> bool {
    exists|k: int| 0 <= k < plan.len() && plan[k].bone == b
}

/// A valid update order from `root`: it starts at the root, visits each bone at most
/// once, visits every other bone after its parent and as one of that parent's children,
/// and reaches every child (within the table) of every bone it visits.
pub open spec fn plan_ok(bones: Seq<BoneModel>, root: usize, plan: Seq<BoneVisit>) -> bool {
    &&& root < bones.len() ==> plan.len() > 0 && plan[0] == (BoneVisit { bone: root, parent: None })
    &&& root >= bones.len() ==> plan.len() == 0
    &&& forall|k: int| 0 <= k < plan.len() ==> #[trigger] plan[k].bone < bones.len()
    &&& forall|i: int, j: int| 0 <= i < j < plan.len() ==> plan[i].bone != plan[j].bone
    &&& forall|k: int|
        0 < k < plan.len() ==> (#[trigger] plan[k].parent matches Some(p) && (exists|j: int|
            0 <= j < k && plan[j].bone == p) && is_child(bones, p as int, plan[k].bone as int))
    &&& forall|k: int, c: int|
        0 <= k < plan.len() && 0 <= c < bones.len() && #[trigger] is_child(bones, plan[k].bone as int, c)
            ==> in_plan(plan, c)
}

/// How many entries of `v` are false.
pub open spec fn count_false(v: Seq<bool>) -> nat
    decreases v.len(),
{
    if v.len() == 0 {
        0
    } else {
        count_false(v.drop_last()) + if v.last() {
            0nat
        } else {
            1nat
        }
    }
}

proof fn lemma_count_false_mark(v: Seq<bool>, i: int)
    requires
        0 <= i < v.len(),
        !v[i],
    ensures
        count_false(v.update(i, true)) + 1 == count_false(v),
    decreases v.len(),
{
    let w = v.update(i, true);
    if i == v.len() - 1 {
        assert(w.drop_last() =~= v.drop_last());
    } else {
        assert(w.drop_last() =~= v.drop_last().update(i, true));
        lemma_count_false_mark(v.drop_last(), i);
    }
}

/// Whether bone `c` is waiting on `stack`.
pub open spec fn in_stack(stack: Seq<BoneVisit>, c: int) -> bool {
    exists|i: int| 0 <= i < stack.len() && stack[i].bone == c
}

/// The visits that a bone `p` pushes for its children, last child first so that the first
/// child is on top; ids outside a table of `n` slots are left out.
pub open spec fn child_visits(children: Seq<u32>, p: usize, n: nat) -> Seq<BoneVisit>
    decreases children.len(),
{
    if children.len() == 0 {
        seq![]
    } else {
        let rest = child_visits(children.drop_first(), p, n);
        if (children[0] as int) < n {
            rest.push(BoneVisit { bone: children[0] as usize, parent: Some(p) })
        } else {
            rest
        }
    }
}

/// A depth-first walk: take the visit on top of `stack`; a bone already `visited` is passed
/// over, any other is appended to `out`, marked, and its children pushed.
pub open spec fn walk(bones: Seq<BoneModel>, stack: Seq<BoneVisit>, visited: Seq<bool>, out: Seq<BoneVisit>) -> Seq<
    BoneVisit,
>
    decreases count_false(visited), stack.len(),
    via walk_decreases
{
    if stack.len() == 0 {
        out
    } else {
        let v = stack.last();
        let rest = stack.drop_last();
        if v.bone >= visited.len() || visited[v.bone as int] {
            walk(bones, rest, visited, out)
        } else {
            walk(
                bones,
                rest + child_visits(bones[v.bone as int].children, v.bone, visited.len()),
                visited.update(v.bone as int, true),
                out.push(v),
            )
        }
    }
}

#[via_fn]
proof fn walk_decreases(bones: Seq<BoneModel>, stack: Seq<BoneVisit>, visited: Seq<bool>, out: Seq<BoneVisit>) {
    if stack.len() > 0 {
        let v = stack.last();
        if !(v.bone >= visited.len() || visited[v.bone as int]) {
            lemma_count_false_mark(visited, v.bone as int);
        }
    }
}

/// The bones an update from `root` visits, in order: a depth-first walk from the root
/// with children in list order, each bone once.
pub open spec fn visit_order(bones: Seq<BoneModel>, root: usize) -> Seq<BoneVisit> {
    if root < bones.len() {
        walk(
            bones,
            seq![BoneVisit { bone: root, parent: None }],
            Seq::new(bones.len(), |i: int| false),
            seq![],
        )
    } else {
        seq![]
    }
}

impl MeshData {
    /// The order in which a skeleton update from `root` visits bones: depth first,
    /// parent before children, children in list order. A bone reached a second time (a
    /// malformed hierarchy with shared children or cycles) is not visited again, and
    /// child ids outside the table are passed over.
    pub fn bone_visit_order(&self, root: usize) -> (plan: Vec<BoneVisit>)
        ensures
            plan@ == visit_order(self@.bones, root),
            plan_ok(self@.bones, root, plan@),
    {
        proof {
            lemma_visit_order_ok(self@.bones, root);
        }
        let n = self.bone_list.len();
        let ghost bones = self@.bones;
        let mut out: Vec<BoneVisit> = Vec::new();
        if root >= n {
            return out;
        }
        let mut visited: Vec<bool> = Vec::new();
        let mut k: usize = 0;
        while k < n
            invariant
                k <= n,
                visited@ == Seq::new(k as nat, |i: int| false),
            decreases n - k,
        {
            visited.push(false);
            proof {
                assert(visited@ =~= Seq::new((k + 1) as nat, |i: int| false));
            }
            k = k + 1;
        }
        let mut stack: Vec<BoneVisit> = Vec::new();
        stack.push(BoneVisit { bone: root, parent: None });
        let mut remaining: usize = n;
        proof {
            lemma_count_all_false(n as nat);
        }
        while stack.len() > 0
            invariant
                n == bones.len(),
                bones == self@.bones,
                visited@.len() == n,
                remaining == count_false(visited@),
                visit_order(bones, root) == walk(bones, stack@, visited@, out@),
                forall|i: int| 0 <= i < stack@.len() ==> #[trigger] stack@[i].bone < n,
            decreases remaining, stack@.len(),
        {
            let ghost s_before = stack@;
            let v = stack.pop().unwrap();
            proof {
                assert(s_before.last() == v && s_before.drop_last() =~= stack@);
                assert(s_before[s_before.len() - 1].bone < n);
            }
            if !visited[v.bone] {
                proof {
                    lemma_count_false_mark(visited@, v.bone as int);
                }
                visited.set(v.bone, true);
                out.push(v);
                remaining = remaining - 1;
                let children = &self.bone_list[v.bone].children;
                let ghost kids = bones[v.bone as int].children;
                assert(children@ == kids);
                let ghost st = stack@;
                let mut j: usize = children.len();
                while j > 0
                    invariant
                        j <= kids.len(),
                        children@ == kids,
                        n == bones.len(),
                        stack@ == st + child_visits(kids.subrange(j as int, kids.len() as int), v.bone, n as nat),
                        forall|i: int| 0 <= i < stack@.len() ==> #[trigger] stack@[i].bone < n,
                    decreases j,
                {
                    let c = children[j - 1];
                    proof {
                        assert(kids.subrange(j - 1, kids.len() as int).drop_first() =~= kids.subrange(
                            j as int,
                            kids.len() as int,
                        ));
                    }
                    if (c as usize) < n {
                        stack.push(BoneVisit { bone: c as usize, parent: Some(v.bone) });
                    }
                    j = j - 1;
                }
                proof {
                    assert(kids.subrange(0, kids.len() as int) =~= kids);
                }
            }
        }
        out
    }
}

proof fn lemma_count_all_false(m: nat)
    ensures
        count_false(Seq::new(m, |i: int| false)) == m,
    decreases m,
{
    if m > 0 {
        assert(Seq::new(m, |i: int| false).drop_last() =~= Seq::new((m - 1) as nat, |i: int| false));
        lemma_count_all_false((m - 1) as nat);
    }
}

/// The world matrix that visit `v` starts from: its parent's, or `identity` for the root.
pub open spec fn parent_world<M>(world: Seq<M>, v: BoneVisit, identity: M) -> M {
    match v.parent {
        Some(p) => world[p as int],
        None => identity,
    }
}

/// The world matrices after the first `k` visits of `plan`, starting from `world`: a
/// changed bone gets `compose(parent world, local(bone))`, any other keeps its matrix.
pub open spec fn evaluate_upto<M>(
    bones: Seq<BoneModel>,
    plan: Seq<BoneVisit>,
    compose: spec_fn(M, M) -> M,
    local: spec_fn(int) -> M,
    identity: M,
    world: Seq<M>,
    k: nat,
) -> Seq<M>
    decreases k,
{
    if k == 0 || k > plan.len() {
        world
    } else {
        let w = evaluate_upto(bones, plan, compose, local, identity, world, (k - 1) as nat);
        let v = plan[k - 1];
        if bones[v.bone as int].is_changed {
            w.update(v.bone as int, compose(parent_world(w, v, identity), local(v.bone as int)))
        } else {
            w
        }
    }
}

/// The world matrices after a whole update along `plan`.
pub open spec fn evaluate<M>(
    bones: Seq<BoneModel>,
    plan: Seq<BoneVisit>,
    compose: spec_fn(M, M) -> M,
    local: spec_fn(int) -> M,
    identity: M,
    world: Seq<M>,
) -> Seq<M> {
    evaluate_upto(bones, plan, compose, local, identity, world, plan.len())
}

proof fn lemma_evaluate_len<M>(
    bones: Seq<BoneModel>,
    plan: Seq<BoneVisit>,
    compose: spec_fn(M, M) -> M,
    local: spec_fn(int) -> M,
    identity: M,
    world: Seq<M>,
    k: nat,
)
    requires
        forall|i: int| 0 <= i < plan.len() ==> #[trigger] plan[i].bone < world.len(),
    ensures
        evaluate_upto(bones, plan, compose, local, identity, world, k).len() == world.len(),
    decreases k,
{
    if k > 0 && k <= plan.len() {
        lemma_evaluate_len(bones, plan, compose, local, identity, world, (k - 1) as nat);
    }
}

/// Visits from `k` to `m` leave every bone that none of them visits as it was.
proof fn lemma_untouched<M>(
    bones: Seq<BoneModel>,
    plan: Seq<BoneVisit>,
    compose: spec_fn(M, M) -> M,
    local: spec_fn(int) -> M,
    identity: M,
    world: Seq<M>,
    k: nat,
    m: nat,
    b: int,
)
    requires
        k <= m <= plan.len(),
        0 <= b < world.len(),
        forall|i: int| 0 <= i < plan.len() ==> #[trigger] plan[i].bone < world.len(),
        forall|i: int| k <= i < m ==> plan[i].bone != b,
    ensures
        evaluate_upto(bones, plan, compose, local, identity, world, m)[b] == evaluate_upto(
            bones,
            plan,
            compose,
            local,
            identity,
            world,
            k,
        )[b],
    decreases m - k,
{
    if m > k {
        lemma_untouched(bones, plan, compose, local, identity, world, k, (m - 1) as nat, b);
        lemma_evaluate_len(bones, plan, compose, local, identity, world, (m - 1) as nat);
        assert(plan[m - 1].bone != b);
    }
}

proof fn lemma_plan_world<M>(
    bones: Seq<BoneModel>,
    root: usize,
    plan: Seq<BoneVisit>,
    compose: spec_fn(M, M) -> M,
    local: spec_fn(int) -> M,
    identity: M,
    world: Seq<M>,
)
    requires
        plan_ok(bones, root, plan),
        world.len() == bones.len(),
    ensures
        ({
            let f = evaluate(bones, plan, compose, local, identity, world);
            &&& f.len() == world.len()
            &&& forall|k: int|
                0 <= k < plan.len() && bones[plan[k].bone as int].is_changed ==> f[plan[k].bone as int]
                    == compose(parent_world(f, #[trigger] plan[k], identity), local(plan[k].bone as int))
            &&& root < bones.len() && bones[root as int].is_changed ==> f[root as int] == compose(
                identity,
                local(root as int),
            )
            &&& forall|b: int|
                0 <= b < bones.len() && (!bones[b].is_changed || !in_plan(plan, b)) ==> #[trigger] f[b]
                    == world[b]
        }),
{
    let n = plan.len();
    let f = evaluate(bones, plan, compose, local, identity, world);
    lemma_evaluate_len(bones, plan, compose, local, identity, world, n);
    assert forall|k: int|
        0 <= k < plan.len() && bones[plan[k].bone as int].is_changed implies f[plan[k].bone as int]
            == compose(parent_world(f, #[trigger] plan[k], identity), local(plan[k].bone as int)) by {
        let v = plan[k];
        let b = v.bone as int;
        let wk = evaluate_upto(bones, plan, compose, local, identity, world, k as nat);
        lemma_untouched(bones, plan, compose, local, identity, world, (k + 1) as nat, n, b);
        lemma_evaluate_len(bones, plan, compose, local, identity, world, k as nat);
        if k == 0 {
            if let Some(p) = v.parent {
                assert(root < bones.len());
                assert(false);
            }
        } else {
            assert(plan[k].parent is Some);
            let p = v.parent->Some_0;
            let j = choose|j: int| 0 <= j < k && plan[j].bone == p;
            lemma_untouched(bones, plan, compose, local, identity, world, (j + 1) as nat, k as nat, p as int);
            lemma_untouched(bones, plan, compose, local, identity, world, (j + 1) as nat, n, p as int);
        }
        assert(parent_world(wk, v, identity) == parent_world(f, v, identity));
    }
    assert forall|b: int|
        0 <= b < bones.len() && (!bones[b].is_changed || !in_plan(plan, b)) implies #[trigger] f[b] == world[b] by {
        lemma_unchanged_kept(bones, plan, compose, local, identity, world, n, b);
    }
    if root < bones.len() && bones[root as int].is_changed {
        assert(plan[0].bone == root);
    }
}

proof fn lemma_unchanged_kept<M>(
    bones: Seq<BoneModel>,
    plan: Seq<BoneVisit>,
    compose: spec_fn(M, M) -> M,
    local: spec_fn(int) -> M,
    identity: M,
    world: Seq<M>,
    m: nat,
    b: int,
)
    requires
        m <= plan.len(),
        0 <= b < world.len(),
        forall|i: int| 0 <= i < plan.len() ==> #[trigger] plan[i].bone < world.len(),
        !bones[b].is_changed || !in_plan(plan, b),
    ensures
        evaluate_upto(bones, plan, compose, local, identity, world, m)[b] == world[b],
    decreases m,
{
    if m > 0 {
        lemma_unchanged_kept(bones, plan, compose, local, identity, world, (m - 1) as nat, b);
        lemma_evaluate_len(bones, plan, compose, local, identity, world, (m - 1) as nat);
        if plan[m - 1].bone as int == b {
            assert(in_plan(plan, b));
        }
    }
}

proof fn lemma_plan_idempotent<M>(
    bones: Seq<BoneModel>,
    root: usize,
    plan: Seq<BoneVisit>,
    compose: spec_fn(M, M) -> M,
    local: spec_fn(int) -> M,
    identity: M,
    world: Seq<M>,
)
    requires
        plan_ok(bones, root, plan),
        world.len() == bones.len(),
    ensures
        evaluate(bones, plan, compose, local, identity, evaluate(bones, plan, compose, local, identity, world))
            == evaluate(bones, plan, compose, local, identity, world),
{
    let f = evaluate(bones, plan, compose, local, identity, world);
    lemma_plan_world(bones, root, plan, compose, local, identity, world);
    lemma_fixed_point(bones, plan, compose, local, identity, f, plan.len());
}

proof fn lemma_fixed_point<M>(
    bones: Seq<BoneModel>,
    plan: Seq<BoneVisit>,
    compose: spec_fn(M, M) -> M,
    local: spec_fn(int) -> M,
    identity: M,
    f: Seq<M>,
    m: nat,
)
    requires
        m <= plan.len(),
        forall|k: int| 0 <= k < plan.len() ==> #[trigger] plan[k].bone < f.len(),
        forall|k: int|
            0 <= k < plan.len() && bones[plan[k].bone as int].is_changed ==> f[plan[k].bone as int]
                == compose(parent_world(f, #[trigger] plan[k], identity), local(plan[k].bone as int)),
    ensures
        evaluate_upto(bones, plan, compose, local, identity, f, m) == f,
    decreases m,
{
    if m > 0 {
        lemma_fixed_point(bones, plan, compose, local, identity, f, (m - 1) as nat);
        let v = plan[m - 1];
        if bones[v.bone as int].is_changed {
            assert(f.update(v.bone as int, compose(parent_world(f, v, identity), local(v.bone as int))) =~= f);
        }
    }
}

/// What holds at every step of the walk from `root`.
pub open spec fn walk_inv(
    bones: Seq<BoneModel>,
    root: usize,
    stack: Seq<BoneVisit>,
    visited: Seq<bool>,
    out: Seq<BoneVisit>,
) -> bool {
    let n = bones.len();
    &&& root < n
    &&& visited.len() == n
    &&& forall|b: int| 0 <= b < n ==> (#[trigger] visited[b] <==> in_plan(out, b))
    &&& forall|k: int| 0 <= k < out.len() ==> #[trigger] out[k].bone < n
    &&& forall|i: int, j: int| 0 <= i < j < out.len() ==> out[i].bone != out[j].bone
    &&& out.len() > 0 ==> out[0] == (BoneVisit { bone: root, parent: None })
    &&& out.len() == 0 ==> stack == seq![BoneVisit { bone: root, parent: None }]
    &&& forall|k: int|
        0 < k < out.len() ==> (#[trigger] out[k].parent matches Some(p) && (exists|j: int|
            0 <= j < k && out[j].bone == p) && is_child(bones, p as int, out[k].bone as int))
    &&& forall|i: int| 0 <= i < stack.len() ==> #[trigger] stack[i].bone < n
    &&& forall|i: int|
        0 <= i < stack.len() ==> (#[trigger] stack[i].parent matches Some(p) ==> p < n && visited[p as int]
            && is_child(bones, p as int, stack[i].bone as int))
    &&& forall|i: int| 0 <= i < stack.len() ==> (#[trigger] stack[i].parent is None ==> out.len() == 0)
    &&& forall|k: int, c: int|
        0 <= k < out.len() && 0 <= c < n && #[trigger] is_child(bones, out[k].bone as int, c) ==> visited[c]
            || in_stack(stack, c)
}

proof fn lemma_child_visits(children: Seq<u32>, p: usize, n: nat)
    ensures
        forall|i: int|
            0 <= i < child_visits(children, p, n).len() ==> (#[trigger] child_visits(children, p, n)[i]).parent
                == Some(p) && child_visits(children, p, n)[i].bone < n && (exists|q: int|
                0 <= q < children.len() && children[q] as int == child_visits(children, p, n)[i].bone),
        forall|q: int|
            0 <= q < children.len() && (#[trigger] children[q] as int) < n ==> in_stack(
                child_visits(children, p, n),
                children[q] as int,
            ),
    decreases children.len(),
{
    if children.len() > 0 {
        let tail = children.drop_first();
        lemma_child_visits(tail, p, n);
        let rest = child_visits(tail, p, n);
        let cv = child_visits(children, p, n);
        assert forall|i: int| 0 <= i < cv.len() implies (#[trigger] cv[i]).parent == Some(p) && cv[i].bone < n
            && (exists|q: int| 0 <= q < children.len() && children[q] as int == cv[i].bone) by {
            if i < rest.len() {
                assert(cv[i] == rest[i]);
                let q = choose|q: int| 0 <= q < tail.len() && tail[q] as int == rest[i].bone;
                assert(children[q + 1] == tail[q]);
            } else {
                assert(children[0] as int == cv[i].bone);
            }
        }
        assert forall|q: int|
            0 <= q < children.len() && (#[trigger] children[q] as int) < n implies in_stack(cv, children[q] as int) by {
            if q == 0 {
                assert(cv[rest.len() as int].bone == children[0] as int);
            } else {
                assert(tail[q - 1] == children[q]);
                let i = choose|i: int| 0 <= i < rest.len() && rest[i].bone == tail[q - 1] as int;
                assert(cv[i] == rest[i]);
            }
        }
    }
}

proof fn lemma_walk_ok(
    bones: Seq<BoneModel>,
    root: usize,
    stack: Seq<BoneVisit>,
    visited: Seq<bool>,
    out: Seq<BoneVisit>,
)
    requires
        walk_inv(bones, root, stack, visited, out),
    ensures
        plan_ok(bones, root, walk(bones, stack, visited, out)),
    decreases count_false(visited), stack.len(),
{
    let n = bones.len();
    if stack.len() == 0 {
        assert forall|k: int, c: int|
            0 <= k < out.len() && 0 <= c < n && #[trigger] is_child(bones, out[k].bone as int, c) implies in_plan(
                out,
                c,
            ) by {
            assert(visited[c] || in_stack(stack, c));
        }
    } else {
        let v = stack.last();
        let st1 = stack.drop_last();
        assert(stack =~= st1.push(v));
        if visited[v.bone as int] {
            assert forall|k: int, c: int|
                0 <= k < out.len() && 0 <= c < n && #[trigger] is_child(bones, out[k].bone as int, c) implies visited[c]
                    || in_stack(st1, c) by {
                if !visited[c] {
                    let i = choose|i: int| 0 <= i < stack.len() && stack[i].bone == c;
                    assert(i < st1.len());
                    assert(st1[i].bone == c);
                }
            }
            assert forall|i: int| 0 <= i < st1.len() implies (#[trigger] st1[i].parent is None ==> out.len() == 0) by {
                assert(st1[i] == stack[i]);
            }
            assert forall|i: int|
                0 <= i < st1.len() implies (#[trigger] st1[i].parent matches Some(p) ==> p < n && visited[p as int]
                    && is_child(bones, p as int, st1[i].bone as int)) by {
                assert(st1[i] == stack[i]);
            }
            assert forall|i: int| 0 <= i < st1.len() implies #[trigger] st1[i].bone < n by {
                assert(st1[i] == stack[i]);
            }
            lemma_walk_ok(bones, root, st1, visited, out);
        } else {
            let kids = bones[v.bone as int].children;
            let cv = child_visits(kids, v.bone, n);
            let st2 = st1 + cv;
            let vis2 = visited.update(v.bone as int, true);
            let out2 = out.push(v);
            lemma_child_visits(kids, v.bone, n);
            lemma_count_false_mark(visited, v.bone as int);
            assert forall|b: int| 0 <= b < n implies (#[trigger] vis2[b] <==> in_plan(out2, b)) by {
                if vis2[b] {
                    if b == v.bone {
                        assert(out2[out.len() as int].bone == b);
                    } else {
                        assert(visited[b]);
                        let k = choose|k: int| 0 <= k < out.len() && out[k].bone == b;
                        assert(out2[k].bone == b);
                    }
                }
                if in_plan(out2, b) {
                    let k = choose|k: int| 0 <= k < out2.len() && out2[k].bone == b;
                    if k < out.len() {
                        assert(out[k].bone == b);
                    }
                }
            }
            assert forall|k: int| 0 <= k < out2.len() implies #[trigger] out2[k].bone < n by {
                if k < out.len() {
                    assert(out2[k] == out[k]);
                }
            }
            assert forall|i: int, j: int| 0 <= i < j < out2.len() implies out2[i].bone != out2[j].bone by {
                if j == out.len() {
                    if out2[i].bone == out2[j].bone {
                        assert(out[i].bone == v.bone);
                        assert(in_plan(out, v.bone as int));
                    }
                } else {
                    assert(out2[i] == out[i] && out2[j] == out[j]);
                }
            }
            assert forall|k: int|
                0 < k < out2.len() implies (#[trigger] out2[k].parent matches Some(p) && (exists|j: int|
                    0 <= j < k && out2[j].bone == p) && is_child(bones, p as int, out2[k].bone as int)) by {
                if k == out.len() {
                    assert(v.parent is Some);
                    let p = v.parent->Some_0;
                    let j = choose|j: int| 0 <= j < out.len() && out[j].bone == p;
                    assert(out2[j].bone == p);
                } else {
                    assert(out2[k] == out[k]);
                    let p = out[k].parent->Some_0;
                    let j = choose|j: int| 0 <= j < k && out[j].bone == p;
                    assert(out2[j].bone == p);
                }
            }
            assert forall|i: int| 0 <= i < st2.len() implies #[trigger] st2[i].bone < n by {
                if i < st1.len() {
                    assert(st2[i] == stack[i]);
                } else {
                    assert(st2[i] == cv[i - st1.len()]);
                }
            }
            assert forall|i: int|
                0 <= i < st2.len() implies (#[trigger] st2[i].parent matches Some(p) ==> p < n && vis2[p as int]
                    && is_child(bones, p as int, st2[i].bone as int)) by {
                if i < st1.len() {
                    assert(st2[i] == stack[i]);
                } else {
                    let w = cv[i - st1.len()];
                    assert(st2[i] == w);
                    let q = choose|q: int| 0 <= q < kids.len() && kids[q] as int == w.bone;
                }
            }
            assert forall|i: int| 0 <= i < st2.len() implies (#[trigger] st2[i].parent is None ==> out2.len() == 0) by {
                if i < st1.len() {
                    assert(st2[i] == stack[i]);
                    if out.len() == 0 {
                        assert(st1.len() == 0);
                    }
                } else {
                    assert(st2[i] == cv[i - st1.len()]);
                }
            }
            assert forall|k: int, c: int|
                0 <= k < out2.len() && 0 <= c < n && #[trigger] is_child(bones, out2[k].bone as int, c) implies vis2[c]
                    || in_stack(st2, c) by {
                if k == out.len() {
                    let q = choose|q: int| 0 <= q < kids.len() && kids[q] as int == c;
                    assert(in_stack(cv, kids[q] as int));
                    let i = choose|i: int| 0 <= i < cv.len() && cv[i].bone == c;
                    assert(st2[st1.len() + i] == cv[i]);
                } else {
                    assert(out2[k] == out[k]);
                    if !vis2[c] {
                        let i = choose|i: int| 0 <= i < stack.len() && stack[i].bone == c;
                        if i < st1.len() {
                            assert(st2[i] == stack[i]);
                        }
                    }
                }
            }
            assert(walk_inv(bones, root, st2, vis2, out2));
            lemma_walk_ok(bones, root, st2, vis2, out2);
        }
    }
}

/// The order `visit_order` gives is a valid update plan.
pub proof fn lemma_visit_order_ok(bones: Seq<BoneModel>, root: usize)
    ensures
        plan_ok(bones, root, visit_order(bones, root)),
{
    if root < bones.len() {
        let start = seq![BoneVisit { bone: root, parent: None }];
        let vis = Seq::new(bones.len(), |i: int| false);
        assert(start[0].bone == root);
        lemma_walk_ok(bones, root, start, vis, seq![]);
    }
}

/// The world matrices after a skeleton update from `root`, for any matrix type: `compose`
/// multiplies two matrices, `local(b)` is bone `b`'s local matrix, `identity` the root's
/// parent matrix, and `world` the matrices before the update.
pub open spec fn update_from<M>(
    bones: Seq<BoneModel>,
    root: usize,
    compose: spec_fn(M, M) -> M,
    local: spec_fn(int) -> M,
    identity: M,
    world: Seq<M>,
) -> Seq<M> {
    evaluate(bones, visit_order(bones, root), compose, local, identity, world)
}

/// After a skeleton update from `root`, every changed bone it reaches holds exactly
/// `compose(parent's world matrix, its local matrix)`, all read after the update; the root
/// holds `compose(identity, local(root))`, its own local matrix where `identity` is
/// neutral. Bones that are not changed, or not reached, keep the matrix they had.
pub proof fn lemma_world_is_parent_times_local<M>(
    bones: Seq<BoneModel>,
    root: usize,
    compose: spec_fn(M, M) -> M,
    local: spec_fn(int) -> M,
    identity: M,
    world: Seq<M>,
)
    requires
        world.len() == bones.len(),
    ensures
        ({
            let plan = visit_order(bones, root);
            let f = update_from(bones, root, compose, local, identity, world);
            &&& f.len() == world.len()
            &&& forall|k: int|
                0 <= k < plan.len() && bones[plan[k].bone as int].is_changed ==> f[plan[k].bone as int]
                    == compose(parent_world(f, #[trigger] plan[k], identity), local(plan[k].bone as int))
            &&& forall|k: int|
                0 < k < plan.len() ==> (#[trigger] plan[k].parent matches Some(p) && is_child(
                    bones,
                    p as int,
                    plan[k].bone as int,
                ))
            &&& root < bones.len() && bones[root as int].is_changed ==> f[root as int] == compose(
                identity,
                local(root as int),
            )
            &&& forall|b: int|
                0 <= b < bones.len() && (!bones[b].is_changed || !in_plan(plan, b)) ==> #[trigger] f[b]
                    == world[b]
        }),
{
    lemma_visit_order_ok(bones, root);
    lemma_plan_world(bones, root, visit_order(bones, root), compose, local, identity, world);
}

/// Two skeleton updates from `root` with nothing changed in between give the same world
/// matrices as one.
pub proof fn lemma_update_idempotent<M>(
    bones: Seq<BoneModel>,
    root: usize,
    compose: spec_fn(M, M) -> M,
    local: spec_fn(int) -> M,
    identity: M,
    world: Seq<M>,
)
    requires
        world.len() == bones.len(),
    ensures
        update_from(bones, root, compose, local, identity, update_from(bones, root, compose, local, identity, world))
            == update_from(bones, root, compose, local, identity, world),
{
    lemma_visit_order_ok(bones, root);
    lemma_plan_idempotent(bones, root, visit_order(bones, root), compose, local, identity, world);
}

} // verus!
