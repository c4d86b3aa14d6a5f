//! Process trees: which pids descend from a service's root pid, read from
//! the system's process table through `sysinfo`.
use vstd::prelude::*;

verus! {

/// `sysinfo`: refreshes one pid in a fresh `System` and reports whether the
/// process table then holds it.  The answer depends on the machine at the
/// time of the call; nothing is stated of it.
#[verifier::external_body]
pub(crate) fn is_pid_alive(pid: u32) -> (r: bool) {
    let mut sys = sysinfo::System::new();
    sys.refresh_processes(sysinfo::ProcessesToUpdate::Some(&[sysinfo::Pid::from_u32(pid)]), true);
    sys.process(sysinfo::Pid::from_u32(pid)).is_some()
}

/// `sysinfo`: every process of a freshly refreshed table, as its pid and
/// its parent's pid when it has one.  The table depends on the machine at
/// the time of the call; nothing is stated of it.
#[verifier::external_body]
fn process_table() -> (r: Vec<(u32, Option<u32>)>) {
    let mut sys = sysinfo::System::new();
    sys.refresh_processes(sysinfo::ProcessesToUpdate::All, true);
    sys.processes().iter().map(|(pid, p)| (pid.as_u32(), p.parent().map(|q| q.as_u32()))).collect()
}

/// The table lists `c` with parent `p`.
pub open spec fn parent_of(t: Seq<(u32, Option<u32>)>, c: u32, p: u32) -> bool {
    exists|i: int| 0 <= i < t.len() && #[trigger] t[i] == (c, Some(p))
}

/// `path` goes from a child of `root` down, each a child of the one before.
pub open spec fn chain(t: Seq<(u32, Option<u32>)>, root: u32, path: Seq<u32>) -> bool {
    &&& path.len() > 0
    &&& parent_of(t, path[0], root)
    &&& forall|k: int| 1 <= k < path.len() ==> parent_of(t, #[trigger] path[k], path[k - 1])
}

/// `x` descends from `root` in the table.
pub open spec fn reaches(t: Seq<(u32, Option<u32>)>, root: u32, x: u32) -> bool {
    exists|path: Seq<u32>| chain(t, root, path) && path.last() == x
}

pub open spec fn count_true(v: Seq<bool>) -> nat
    decreases v.len(),
{
    if v.len() == 0 {
        0
    } else {
        count_true(v.drop_last()) + if v.last() {
            1nat
        } else {
            0nat
        }
    }
}

proof fn lemma_count_true_bound(v: Seq<bool>)
    ensures
        count_true(v) <= v.len(),
    decreases v.len(),
{
    if v.len() > 0 {
        lemma_count_true_bound(v.drop_last());
    }
}

proof fn lemma_count_true_set(v: Seq<bool>, i: int)
    requires
        0 <= i < v.len(),
        !v[i],
    ensures
        count_true(v.update(i, true)) == count_true(v) + 1,
    decreases v.len(),
{
    let w = v.update(i, true);
    if i == v.len() - 1 {
        assert(w.drop_last() =~= v.drop_last());
    } else {
        lemma_count_true_set(v.drop_last(), i);
        assert(w.drop_last() =~= v.drop_last().update(i, true));
    }
}

/// Following a chain whose start is in a closed set stays in the set.
proof fn lemma_closed_set_contains_reach(
    t: Seq<(u32, Option<u32>)>,
    root: u32,
    seen: Set<u32>,
    path: Seq<u32>,
)
    requires
        seen.contains(root),
        forall|c: u32, p: u32| seen.contains(p) && #[trigger] parent_of(t, c, p) ==> seen.contains(c),
        chain(t, root, path),
    ensures
        seen.contains(path.last()),
    decreases path.len(),
{
    if path.len() > 1 {
        let prefix = path.drop_last();
        assert(chain(t, root, prefix)) by {
            assert forall|k: int| 1 <= k < prefix.len() implies parent_of(
                t,
                #[trigger] prefix[k],
                prefix[k - 1],
            ) by {
                assert(prefix[k] == path[k]);
            }
        }
        lemma_closed_set_contains_reach(t, root, seen, prefix);
        assert(parent_of(t, path[path.len() - 1], path[path.len() - 2]));
    } else {
        assert(parent_of(t, path[0], root));
    }
}

/// The pids that descend from `root` in `table`, root excluded, each once.
pub fn descendants_in(table: &Vec<(u32, Option<u32>)>, root: u32) -> (out: Vec<u32>)
    ensures
        out@.no_duplicates(),
        forall|x: u32| out@.contains(x) <==> (reaches(table@, root, x) && x != root),
{
    let ghost t = table@;
    let mut out: Vec<u32> = Vec::new();
    let mut stack: Vec<u32> = Vec::new();
    let mut used: Vec<bool> = Vec::new();
    let mut u: usize = 0;
    while u < table.len()
        invariant
            u <= table.len(),
            used@.len() == u,
            forall|i: int| 0 <= i < u ==> !used@[i],
        decreases table.len() - u,
    {
        used.push(false);
        u = u + 1;
    }
    assert(count_true(used@) == 0) by {
        assert forall|n: nat| n <= used@.len() implies count_true(#[trigger] used@.take(n as int)) == 0 by {
            let mut k: nat = 0;
            assert(count_true(used@.take(0)) == 0);
            lemma_count_zero(used@, n);
        }
        assert(used@.take(used@.len() as int) =~= used@);
    }
    stack.push(root);
    assert(stack@[0] == root);
    while stack.len() > 0
        invariant
            t == table@,
            used@.len() == t.len(),
            out@.len() == count_true(used@),
            out@.no_duplicates(),
            !out@.contains(root),
            forall|i: int| 0 <= i < t.len() && #[trigger] used@[i] ==> out@.contains(t[i].0),
            forall|x: u32| out@.contains(x) ==> reaches(t, root, x),
            forall|k: int| 0 <= k < stack@.len() ==> (#[trigger] stack@[k] == root
                || out@.contains(stack@[k])),
            forall|c: u32, p: u32|
                (p == root || out@.contains(p)) && !stack@.contains(p) && #[trigger] parent_of(t, c, p) ==> (
                c == root || out@.contains(c)),
        decreases t.len() - out@.len(), stack@.len(),
    {
        proof {
            lemma_count_true_bound(used@);
        }
        let ghost full = stack@;
        let p = stack.pop().unwrap();
        let ghost stack_before = stack@;
        let ghost out_len0 = out@.len();
        proof {
            assert(full == stack_before.push(p));
            assert forall|q: u32| q != p && !stack_before.contains(q) implies !full.contains(q) by {
                if full.contains(q) {
                    let k = choose|k: int| 0 <= k < full.len() && full[k] == q;
                    if k < stack_before.len() {
                        assert(stack_before[k] == q);
                    }
                }
            }
        }
        let mut i: usize = 0;
        while i < table.len()
            invariant
                t == table@,
                i <= t.len(),
                used@.len() == t.len(),
                out@.len() == count_true(used@),
                out@.no_duplicates(),
                !out@.contains(root),
                p == root || out@.contains(p),
                out@.len() >= out_len0,
                stack@.len() == stack_before.len() + (out@.len() - out_len0),
                forall|j: int| 0 <= j < t.len() && #[trigger] used@[j] ==> out@.contains(t[j].0),
                forall|x: u32| out@.contains(x) ==> reaches(t, root, x),
                forall|k: int| 0 <= k < stack@.len() ==> (#[trigger] stack@[k] == root
                    || out@.contains(stack@[k])),
                forall|k: int| 0 <= k < stack_before.len() ==> stack@.contains(
                    #[trigger] stack_before[k],
                ),
                forall|j: int|
                    0 <= j < i && (#[trigger] t[j]).1 == Some(p) ==> (t[j].0 == root
                        || out@.contains(t[j].0)),
                forall|c: u32, q: u32|
                    (q == root || out@.contains(q)) && q != p && !stack@.contains(q)
                        && #[trigger] parent_of(t, c, q) ==> (c == root || out@.contains(c)),
            decreases t.len() - i,
        {
            let (c, par) = table[i];
            if par == Some(p) && c != root {
                let mut k: usize = 0;
                let mut present = false;
                while k < out.len()
                    invariant
                        k <= out@.len(),
                        present == exists|m: int| 0 <= m < k && out@[m] == c,
                    decreases out@.len() - k,
                {
                    if out[k] == c {
                        present = true;
                    }
                    k = k + 1;
                }
                if !present {
                    proof {
                        assert(!out@.contains(c));
                        assert(!used@[i as int]);
                        lemma_count_true_set(used@, i as int);
                        assert(parent_of(t, c, p)) by {
                            assert(t[i as int] == (c, Some(p)));
                        }
                        if p == root {
                            let path = seq![c];
                            assert(chain(t, root, path));
                            assert(path.last() == c);
                            assert(reaches(t, root, c));
                        } else {
                            let pp = choose|path: Seq<u32>| chain(t, root, path) && path.last() == p;
                            let path = pp.push(c);
                            assert(chain(t, root, path)) by {
                                assert forall|m: int| 1 <= m < path.len() implies parent_of(
                                    t,
                                    #[trigger] path[m],
                                    path[m - 1],
                                ) by {
                                    if m < pp.len() {
                                        assert(path[m] == pp[m] && path[m - 1] == pp[m - 1]);
                                    }
                                }
                            }
                            assert(path.last() == c);
                            assert(reaches(t, root, c));
                        }
                    }
                    let ghost old_out = out@;
                    let ghost old_stack = stack@;
                    let ghost old_used = used@;
                    assert(reaches(t, root, c));
                    assert(t[i as int].0 == c);
                    used.set(i, true);
                    out.push(c);
                    stack.push(c);
                    proof {
                        lemma_push_contains(old_out, c);
                        lemma_push_contains(old_stack, c);
                        assert forall|x: u32| out@.contains(x) implies reaches(t, root, x) by {
                            if x != c {
                                assert(old_out.contains(x));
                            }
                        }
                        assert forall|k2: int| 0 <= k2 < stack_before.len() implies stack@.contains(
                            #[trigger] stack_before[k2],
                        ) by {
                            let w = choose|w: int| 0 <= w < old_stack.len() && old_stack[w] == stack_before[k2];
                            assert(stack@[w] == stack_before[k2]);
                        }
                        assert forall|j: int| 0 <= j < t.len() && #[trigger] used@[j] implies out@.contains(
                            t[j].0,
                        ) by {
                            if j != i {
                                assert(old_used[j]);
                                assert(old_out.contains(t[j].0));
                                let w = choose|w: int| 0 <= w < old_out.len() && old_out[w] == t[j].0;
                                assert(out@[w] == t[j].0);
                            } else {
                                assert(out@[old_out.len() as int] == c);
                            }
                        }
                        assert forall|k2: int| 0 <= k2 < stack@.len() implies (#[trigger] stack@[k2]
                            == root || out@.contains(stack@[k2])) by {
                            if k2 < old_stack.len() {
                                assert(stack@[k2] == old_stack[k2]);
                                if old_stack[k2] != root {
                                    let w = choose|w: int| 0 <= w < old_out.len() && old_out[w] == old_stack[k2];
                                    assert(out@[w] == old_stack[k2]);
                                }
                            } else {
                                assert(stack@[k2] == c);
                                assert(out@[old_out.len() as int] == c);
                            }
                        }
                    }
                } else {
                    proof {
                        let m = choose|m: int| 0 <= m < k && out@[m] == c;
                        assert(out@.contains(c));
                    }
                }
            }
            i = i + 1;
        }
        proof {
            lemma_count_true_bound(used@);
            assert forall|c: u32, q: u32|
                (q == root || out@.contains(q)) && !stack@.contains(q) && #[trigger] parent_of(t, c, q) implies (
            c == root || out@.contains(c)) by {
                if q == p {
                    let j = choose|j: int| 0 <= j < t.len() && #[trigger] t[j] == (c, Some(q));
                    assert(t[j].1 == Some(p));
                }
            }
        }
    }
    proof {
        let seen = Set::new(|x: u32| x == root || out@.contains(x));
        assert forall|c: u32, p: u32| seen.contains(p) && #[trigger] parent_of(t, c, p) implies seen.contains(c) by {
            assert(!stack@.contains(p));
        }
        assert forall|x: u32| reaches(t, root, x) && x != root implies out@.contains(x) by {
            let path = choose|path: Seq<u32>| chain(t, root, path) && path.last() == x;
            lemma_closed_set_contains_reach(t, root, seen, path);
        }
    }
    out
}

proof fn lemma_count_zero(v: Seq<bool>, n: nat)
    requires
        n <= v.len(),
        forall|i: int| 0 <= i < v.len() ==> !v[i],
    ensures
        count_true(v.take(n as int)) == 0,
    decreases n,
{
    if n > 0 {
        lemma_count_zero(v, (n - 1) as nat);
        assert(v.take(n as int).drop_last() =~= v.take(n - 1));
    }
}

proof fn lemma_push_contains(s: Seq<u32>, c: u32)
    ensures
        forall|y: u32| #[trigger] s.push(c).contains(y) <==> (s.contains(y) || y == c),
{
    assert forall|y: u32| #[trigger] s.push(c).contains(y) <==> (s.contains(y) || y == c) by {
        if s.contains(y) {
            let k = choose|k: int| 0 <= k < s.len() && s[k] == y;
            assert(s.push(c)[k] == y);
        }
        if y == c {
            assert(s.push(c)[s.len() as int] == y);
        }
        if s.push(c).contains(y) {
            let k = choose|k: int| 0 <= k < s.push(c).len() && s.push(c)[k] == y;
            if k < s.len() {
                assert(s[k] == y);
            }
        }
    }
}

proof fn lemma_insert_contains(s: Seq<u32>, i: int, x: u32)
    requires
        0 <= i <= s.len(),
    ensures
        forall|y: u32| #[trigger] s.insert(i, x).contains(y) <==> (s.contains(y) || y == x),
{
    let t = s.insert(i, x);
    assert forall|y: u32| #[trigger] t.contains(y) <==> (s.contains(y) || y == x) by {
        if t.contains(y) {
            let k = choose|k: int| 0 <= k < t.len() && t[k] == y;
            if k < i {
                assert(s[k] == y);
            } else if k > i {
                assert(s[k - 1] == y);
            }
        }
        if s.contains(y) {
            let k = choose|k: int| 0 <= k < s.len() && s[k] == y;
            if k < i {
                assert(t[k] == y);
            } else {
                assert(t[k + 1] == y);
            }
        }
        if y == x {
            assert(t[i] == y);
        }
    }
}

pub open spec fn strictly_increasing(v: Seq<u32>) -> bool {
    forall|i: int, j: int| 0 <= i < j < v.len() ==> v[i] < v[j]
}

/// Adds `x` to a strictly increasing list, keeping it so.
pub fn insert_sorted(v: &mut Vec<u32>, x: u32)
    requires
        strictly_increasing(old(v)@),
    ensures
        strictly_increasing(final(v)@),
        forall|y: u32| final(v)@.contains(y) <==> (old(v)@.contains(y) || y == x),
{
    let mut i: usize = 0;
    while i < v.len() && v[i] < x
        invariant
            i <= v@.len(),
            v@ == old(v)@,
            forall|j: int| 0 <= j < i ==> v@[j] < x,
        decreases v.len() - i,
    {
        i = i + 1;
    }
    if i < v.len() && v[i] == x {
        assert(v@[i as int] == x);
        return;
    }
    let ghost before = v@;
    v.insert(i, x);
    proof {
        assert forall|a: int, b: int| 0 <= a < b < v@.len() implies v@[a] < v@[b] by {
            if b < i {
            } else if a < i && b == i {
            } else if a < i {
                assert(v@[b] == before[b - 1]);
            } else if a == i {
                assert(v@[b] == before[b - 1]);
                assert(before[i as int] > x);
                if b - 1 > i {
                    assert(before[i as int] < before[b - 1]);
                }
            } else {
                assert(v@[a] == before[a - 1] && v@[b] == before[b - 1]);
            }
        }
        lemma_insert_contains(before, i as int, x);
    }
}

pub open spec fn in_prefix(a: Seq<u32>, n: int, y: u32) -> bool {
    exists|k: int| 0 <= k < n && #[trigger] a[k] == y
}

/// The pids of `a` and `b` together, sorted, each once.
pub fn merge_pids(a: &Vec<u32>, b: &Vec<u32>) -> (r: Vec<u32>)
    ensures
        strictly_increasing(r@),
        forall|y: u32| r@.contains(y) <==> (a@.contains(y) || b@.contains(y)),
{
    let mut r: Vec<u32> = Vec::new();
    let mut i: usize = 0;
    while i < a.len()
        invariant
            i <= a.len(),
            strictly_increasing(r@),
            forall|y: u32| r@.contains(y) <==> in_prefix(a@, i as int, y),
        decreases a.len() - i,
    {
        insert_sorted(&mut r, a[i]);
        proof {
            assert forall|y: u32| in_prefix(a@, i + 1, y) <==> (in_prefix(a@, i as int, y) || y == a@[i as int]) by {
                if in_prefix(a@, i + 1, y) {
                    let k = choose|k: int| 0 <= k < i + 1 && #[trigger] a@[k] == y;
                    if k < i {
                        assert(in_prefix(a@, i as int, y));
                    }
                }
                if y == a@[i as int] {
                    assert(in_prefix(a@, i + 1, y));
                }
            }
        }
        i = i + 1;
    }
    let mut j: usize = 0;
    while j < b.len()
        invariant
            j <= b.len(),
            i == a.len(),
            strictly_increasing(r@),
            forall|y: u32| r@.contains(y) <==> (in_prefix(a@, i as int, y) || in_prefix(b@, j as int, y)),
        decreases b.len() - j,
    {
        insert_sorted(&mut r, b[j]);
        proof {
            assert forall|y: u32| in_prefix(b@, j + 1, y) <==> (in_prefix(b@, j as int, y) || y == b@[j as int]) by {
                if in_prefix(b@, j + 1, y) {
                    let k = choose|k: int| 0 <= k < j + 1 && #[trigger] b@[k] == y;
                    if k < j {
                        assert(in_prefix(b@, j as int, y));
                    }
                }
                if y == b@[j as int] {
                    assert(in_prefix(b@, j + 1, y));
                }
            }
        }
        j = j + 1;
    }
    proof {
        assert forall|y: u32| r@.contains(y) <==> (a@.contains(y) || b@.contains(y)) by {
            if a@.contains(y) {
                let k = choose|k: int| 0 <= k < a@.len() && a@[k] == y;
                assert(in_prefix(a@, i as int, y));
            }
            if b@.contains(y) {
                let k = choose|k: int| 0 <= k < b@.len() && b@[k] == y;
                assert(in_prefix(b@, j as int, y));
            }
        }
    }
    r
}

/// `root` and its descendants in `table`, sorted, each once.
pub fn tree_pids_in(table: &Vec<(u32, Option<u32>)>, root: u32) -> (r: Vec<u32>)
    ensures
        strictly_increasing(r@),
        forall|x: u32| r@.contains(x) <==> (x == root || reaches(table@, root, x)),
{
    let d = descendants_in(table, root);
    let mut one: Vec<u32> = Vec::new();
    one.push(root);
    let r = merge_pids(&d, &one);
    proof {
        assert forall|x: u32| r@.contains(x) <==> (x == root || reaches(table@, root, x)) by {
            if x == root {
                assert(one@[0] == root);
            }
            if one@.contains(x) {
                assert(x == root);
            }
        }
    }
    r
}

/// `r` holds exactly the descendants of `root` (not root itself) in table `t`.
pub open spec fn descendants_of_table(t: Seq<(u32, Option<u32>)>, root: u32, r: Seq<u32>) -> bool {
    forall|x: u32| r.contains(x) <==> (reaches(t, root, x) && x != root)
}

/// `r` holds exactly `root` and its descendants in table `t`.
pub open spec fn tree_of_table(t: Seq<(u32, Option<u32>)>, root: u32, r: Seq<u32>) -> bool {
    forall|x: u32| r.contains(x) <==> (x == root || reaches(t, root, x))
}

/// The items of `s` whose flag in `keep` is set, in their order.
pub open spec fn select(s: Seq<u32>, keep: Seq<bool>) -> Seq<u32>
    decreases s.len(),
{
    if s.len() == 0 {
        Seq::empty()
    } else if keep.last() {
        select(s.drop_last(), keep.drop_last()).push(s.last())
    } else {
        select(s.drop_last(), keep.drop_last())
    }
}

/// Selecting with one more flag extends the selection by that item or not.
pub proof fn lemma_select_step(s: Seq<u32>, keep: Seq<bool>, i: int, b: bool)
    requires
        0 <= i < s.len(),
        keep.len() == i,
    ensures
        select(s.take(i + 1), keep.push(b)) == if b {
            select(s.take(i), keep).push(s[i])
        } else {
            select(s.take(i), keep)
        },
{
    assert(s.take(i + 1).drop_last() =~= s.take(i));
    assert(keep.push(b).drop_last() =~= keep);
}

/// Every selected item is an item of the list.
pub proof fn lemma_select_within(s: Seq<u32>, keep: Seq<bool>, y: u32)
    requires
        select(s, keep).contains(y),
    ensures
        s.contains(y),
    decreases s.len(),
{
    if s.len() > 0 {
        let rest = select(s.drop_last(), keep.drop_last());
        if rest.contains(y) {
            lemma_select_within(s.drop_last(), keep.drop_last(), y);
            let k = choose|k: int| 0 <= k < s.drop_last().len() && s.drop_last()[k] == y;
            assert(s[k] == y);
        } else {
            assert(y == s.last());
            assert(s[s.len() - 1] == y);
        }
    }
}

/// A selection is never longer than the list.
pub proof fn lemma_select_len(s: Seq<u32>, keep: Seq<bool>)
    ensures
        select(s, keep).len() <= s.len(),
    decreases s.len(),
{
    if s.len() > 0 {
        lemma_select_len(s.drop_last(), keep.drop_last());
    }
}

/// All descendants of `root` (not root itself), from the current process
/// table, each once: exactly the descendants in the table that was read,
/// whatever the machine held at that moment.
pub fn collect_descendant_pids(root: u32) -> (r: Vec<u32>)
    ensures
        r@.no_duplicates(),
        !r@.contains(root),
        exists|t: Seq<(u32, Option<u32>)>| #[trigger] descendants_of_table(t, root, r@),
{
    let table = process_table();
    let r = descendants_in(&table, root);
    assert(descendants_of_table(table@, root, r@));
    r
}

/// `root` and all its descendants from the current process table, sorted,
/// each once: exactly the tree in the table that was read.
pub fn collect_tree_pids(root: u32) -> (r: Vec<u32>)
    ensures
        strictly_increasing(r@),
        r@.contains(root),
        exists|t: Seq<(u32, Option<u32>)>| #[trigger] tree_of_table(t, root, r@),
{
    let table = process_table();
    let r = tree_pids_in(&table, root);
    assert(tree_of_table(table@, root, r@));
    r
}

/// Whether any of `pids` is alive now.
pub fn any_pid_alive(pids: &Vec<u32>) -> (r: bool)
    ensures
        pids@.len() == 0 ==> !r,
{
    let mut i: usize = 0;
    while i < pids.len()
        invariant
            i <= pids.len(),
        decreases pids.len() - i,
    {
        if is_pid_alive(pids[i]) {
            return true;
        }
        i = i + 1;
    }
    false
}

/// What a refresh may give: the pids of `known` whose flag in `keep` is set,
/// together with `tree`, which is empty or the tree of `root` in some table.
pub open spec fn refreshed(
    root: u32,
    known: Seq<u32>,
    keep: Seq<bool>,
    tree: Seq<u32>,
    r: Seq<u32>,
) -> bool {
    &&& keep.len() == known.len()
    &&& (tree.len() == 0 || exists|t: Seq<(u32, Option<u32>)>| #[trigger] tree_of_table(t, root, tree))
    &&& forall|y: u32| r.contains(y) <==> (select(known, keep).contains(y) || tree.contains(y))
}

/// The pids of `known` that are still alive, and the current tree of `root`
/// when root itself is alive; sorted, each once.  Which pids are alive, and
/// what the process table holds, depend on the machine at the time of the
/// call: the result is the union of the pids of `known` found alive and of
/// nothing or the tree of `root` in the table that was read.
pub fn refresh_tree_pids(root: u32, known: &Vec<u32>) -> (r: Vec<u32>)
    ensures
        strictly_increasing(r@),
        exists|keep: Seq<bool>, tree: Seq<u32>| #[trigger] refreshed(root, known@, keep, tree, r@),
{
    let mut alive: Vec<u32> = Vec::new();
    let ghost mut keep: Seq<bool> = Seq::empty();
    let mut i: usize = 0;
    while i < known.len()
        invariant
            i <= known.len(),
            keep.len() == i,
            alive@ == select(known@.take(i as int), keep),
        decreases known.len() - i,
    {
        let b = is_pid_alive(known[i]);
        if b {
            alive.push(known[i]);
        }
        proof {
            lemma_select_step(known@, keep, i as int, b);
            keep = keep.push(b);
        }
        i = i + 1;
    }
    assert(known@.take(known@.len() as int) =~= known@);
    let tree = if is_pid_alive(root) {
        collect_tree_pids(root)
    } else {
        Vec::new()
    };
    let r = merge_pids(&alive, &tree);
    assert(refreshed(root, known@, keep, tree@, r@));
    r
}

} // verus!
