//! Where the focus goes: between the cells of a table row and the items of a
//! list with the arrow keys, through the UI tree with Tab, and back up the
//! focus path when nodes disappear.

use vstd::prelude::*;
use crate::helpers::CoordType;
use crate::input::{vk, InputKey};
use crate::node_map::{first_in, NodeMap};
use crate::tui::{KeyInput, ListSelection};

verus! {

/// A child of the container: its id and whether it can take the focus.
#[derive(Clone, Copy, Debug, PartialEq, Eq, Structural)]
pub struct FocusItem {
    pub id: u64,
    pub focusable: bool,
}

/// The first index below `k` whose id is `id`.
pub open spec fn first_with_id(s: Seq<FocusItem>, id: u64, k: int) -> Option<int>
    decreases k,
{
    if k <= 0 || k > s.len() {
        None
    } else {
        match first_with_id(s, id, k - 1) {
            Some(i) => Some(i),
            None => if s[k - 1].id == id {
                Some(k - 1)
            } else {
                None
            },
        }
    }
}

/// The last focusable index below `k`.
pub open spec fn last_focusable_before(s: Seq<FocusItem>, k: int) -> Option<int>
    decreases k,
{
    if k <= 0 || k > s.len() {
        None
    } else if s[k - 1].focusable {
        Some(k - 1)
    } else {
        last_focusable_before(s, k - 1)
    }
}

/// The first index from `k` on that is focusable and not the focused id.
pub open spec fn next_focusable_from(s: Seq<FocusItem>, id: u64, k: int) -> Option<int>
    decreases s.len() - k,
{
    if k < 0 || k >= s.len() {
        None
    } else if s[k].focusable && s[k].id != id {
        Some(k)
    } else {
        next_focusable_from(s, id, k + 1)
    }
}

/// Where the focus goes from the child with id `focused_id` among
/// `children`: forward to the next focusable child after it, else to the
/// first child; backward to the last focusable child before it, else to the
/// last child. `None` where no child has that id.
pub open spec fn spec_table_focus(children: Seq<FocusItem>, focused_id: u64, forward: bool) -> Option<int> {
    match first_with_id(children, focused_id, children.len() as int) {
        None => None,
        Some(f) => if forward {
            match next_focusable_from(children, focused_id, f + 1) {
                Some(i) => Some(i),
                None => Some(0),
            }
        } else {
            match last_focusable_before(children, f) {
                Some(i) => Some(i),
                None => Some(children.len() - 1),
            }
        },
    }
}

/// Once found, the first index with an id stays the first in longer prefixes.
proof fn lemma_first_with_id_mono(s: Seq<FocusItem>, id: u64, k: int, k2: int)
    requires
        0 <= k <= k2 <= s.len(),
        first_with_id(s, id, k) is Some,
    ensures
        first_with_id(s, id, k2) == first_with_id(s, id, k),
    decreases k2 - k,
{
    if k2 > k {
        lemma_first_with_id_mono(s, id, k, k2 - 1);
    }
}

proof fn lemma_first_with_id_bound(s: Seq<FocusItem>, id: u64, k: int)
    requires
        0 <= k <= s.len(),
    ensures
        match first_with_id(s, id, k) {
            Some(i) => 0 <= i < k && s[i].id == id,
            None => forall|j: int| 0 <= j < k ==> s[j].id != id,
        },
    decreases k,
{
    if k > 0 {
        lemma_first_with_id_bound(s, id, k - 1);
    }
}

/// The child the focus moves to (see [`spec_table_focus`]), by index.
pub fn table_focus_target(children: &[FocusItem], focused_id: u64, forward: bool) -> (r: Option<usize>)
    ensures
        match spec_table_focus(children@, focused_id, forward) {
            Some(i) => r == Some(i as usize),
            None => r is None,
        },
{
    let n = children.len();
    let mut prev: Option<usize> = None;
    let mut next: Option<usize> = None;
    let mut focused: Option<usize> = None;
    let mut i: usize = 0;
    while i < n
        invariant_except_break
            focused is Some ==> {
                &&& first_with_id(children@, focused_id, i as int) matches Some(f)
                &&& prev == match last_focusable_before(children@, f) {
                    Some(j) => Some(j as usize),
                    None => None::<usize>,
                }
                &&& next_focusable_from(children@, focused_id, f + 1) == next_focusable_from(
                    children@,
                    focused_id,
                    i as int,
                )
            },
            next is None,
        invariant
            i <= n,
            n == children@.len(),
            focused is None ==> first_with_id(children@, focused_id, i as int) is None,
            focused is None ==> prev == match last_focusable_before(children@, i as int) {
                Some(j) => Some(j as usize),
                None => None::<usize>,
            },
        ensures
            focused is None ==> first_with_id(children@, focused_id, n as int) is None,
            focused is Some ==> {
                &&& first_with_id(children@, focused_id, n as int) matches Some(f)
                &&& prev == match last_focusable_before(children@, f) {
                    Some(j) => Some(j as usize),
                    None => None::<usize>,
                }
                &&& match next_focusable_from(children@, focused_id, f + 1) {
                    Some(j) => next == Some(j as usize),
                    None => next is None,
                }
            },
        decreases n - i,
    {
        let c = children[i];
        if c.id == focused_id {
            if focused.is_none() {
                proof {
                    assert(first_with_id(children@, focused_id, i + 1) == Some(i as int));
                }
            }
            focused = Some(i);
        } else if c.focusable {
            if focused.is_none() {
                prev = Some(i);
            } else {
                next = Some(i);
                proof {
                    lemma_first_with_id_mono(children@, focused_id, i as int, n as int);
                }
                break;
            }
        }
        i += 1;
    }
    if focused.is_none() {
        return None;
    }
    proof {
        lemma_first_with_id_bound(children@, focused_id, n as int);
    }
    if forward {
        match next {
            Some(j) => Some(j),
            None => Some(0),
        }
    } else {
        match prev {
            Some(j) => Some(j),
            None => Some(n - 1),
        }
    }
}

/// A node of the UI tree, as far as Tab navigation is concerned.
pub struct FocusNode {
    pub id: u64,
    pub focusable: bool,
    /// Tab navigation does not enter this node's children.
    pub focus_void: bool,
    pub children: Vec<FocusNode>,
}

/// The paths in `s`, each with the child index `i` in front.
pub open spec fn prefixed(s: Seq<Seq<usize>>, i: usize) -> Seq<Seq<usize>> {
    s.map_values(|p: Seq<usize>| seq![i] + p)
}

/// The order in which Tab (`forward`) or Shift+Tab visits the nodes under
/// `n`, as paths of child indices from `n`: the node, then its children's
/// subtrees (first to last, or last to first), except below a focus void.
pub open spec fn tab_order(n: FocusNode, forward: bool) -> Seq<Seq<usize>>
    decreases n, 0int,
{
    seq![Seq::<usize>::empty()] + if n.focus_void {
        Seq::<Seq<usize>>::empty()
    } else {
        children_order(n.children@, forward, n.children@.len() as int)
    }
}

/// The visiting order of the subtrees of the first `k` children.
pub open spec fn children_order(s: Seq<FocusNode>, forward: bool, k: int) -> Seq<Seq<usize>>
    decreases s, k,
{
    if k <= 0 || k > s.len() {
        Seq::empty()
    } else if forward {
        children_order(s, forward, k - 1) + prefixed(tab_order(s[k - 1], forward), (k - 1) as usize)
    } else {
        prefixed(tab_order(s[k - 1], forward), (k - 1) as usize) + children_order(s, forward, k - 1)
    }
}

/// Whether `path` leads from `n` to a node.
pub open spec fn valid_path(n: FocusNode, path: Seq<usize>) -> bool
    decreases path.len(),
{
    path.len() == 0 || (path[0] < n.children@.len() && valid_path(n.children@[path[0] as int], path.skip(1)))
}

/// The node `path` leads to from `n`.
pub open spec fn node_at(n: FocusNode, path: Seq<usize>) -> FocusNode
    decreases path.len(),
{
    if path.len() == 0 || path[0] >= n.children@.len() {
        n
    } else {
        node_at(n.children@[path[0] as int], path.skip(1))
    }
}

/// Whether a proper ancestor of the node at `path` (from `n` on) is a focus void.
pub open spec fn under_void(n: FocusNode, path: Seq<usize>) -> bool
    decreases path.len(),
{
    path.len() > 0 && (n.focus_void || (path[0] < n.children@.len() && under_void(
        n.children@[path[0] as int],
        path.skip(1),
    )))
}

/// The first index in `a..b` of `order` whose node is focusable.
pub open spec fn first_focusable(n: FocusNode, order: Seq<Seq<usize>>, a: int, b: int) -> Option<int>
    decreases b - a,
{
    if a >= b || a < 0 || b > order.len() {
        None
    } else if node_at(n, order[a]).focusable {
        Some(a)
    } else {
        first_focusable(n, order, a + 1, b)
    }
}

/// The first index of `path` in `order`.
pub open spec fn index_of_path(order: Seq<Seq<usize>>, path: Seq<usize>, k: int) -> Option<int>
    decreases k,
{
    if k <= 0 || k > order.len() {
        None
    } else {
        match index_of_path(order, path, k - 1) {
            Some(i) => Some(i),
            None => if order[k - 1] == path {
                Some(k - 1)
            } else {
                None
            },
        }
    }
}

/// Where Tab (`forward`) or Shift+Tab moves the focus from the node at
/// `start` inside the focus well `well`: to the first focusable node after
/// it in the visiting order, wrapping around; it stays where no other node
/// is focusable.
pub open spec fn spec_tab_target(well: FocusNode, start: Seq<usize>, forward: bool) -> Seq<usize> {
    let order = tab_order(well, forward);
    match index_of_path(order, start, order.len() as int) {
        None => start,
        Some(pos) => match first_focusable(well, order, pos + 1, order.len() as int) {
            Some(q) => order[q],
            None => match first_focusable(well, order, 0, pos) {
                Some(q) => order[q],
                None => start,
            },
        },
    }
}

/// A visited node with its path from the focus well and whether it is focusable.
pub struct Visit {
    pub path: Vec<usize>,
    pub focusable: bool,
}

/// The views of the visits.
pub open spec fn visit_paths(v: Seq<Visit>) -> Seq<Seq<usize>> {
    v.map_values(|x: Visit| x.path@)
}

/// `path` with the paths' common `prefix` in front.
pub open spec fn with_prefix(s: Seq<Seq<usize>>, prefix: Seq<usize>) -> Seq<Seq<usize>> {
    s.map_values(|p: Seq<usize>| prefix + p)
}

proof fn lemma_with_prefix_add(a: Seq<Seq<usize>>, b: Seq<Seq<usize>>, prefix: Seq<usize>)
    ensures
        with_prefix(a + b, prefix) == with_prefix(a, prefix) + with_prefix(b, prefix),
{
    assert(with_prefix(a + b, prefix) =~= with_prefix(a, prefix) + with_prefix(b, prefix));
}

proof fn lemma_with_prefix_child(s: Seq<Seq<usize>>, prefix: Seq<usize>, i: usize)
    ensures
        with_prefix(prefixed(s, i), prefix) == with_prefix(s, prefix.push(i)),
{
    assert forall|k: int| 0 <= k < s.len() implies #[trigger] with_prefix(prefixed(s, i), prefix)[k]
        == with_prefix(s, prefix.push(i))[k] by {
        assert(prefix + (seq![i] + s[k]) =~= prefix.push(i) + s[k]);
    }
    assert(with_prefix(prefixed(s, i), prefix) =~= with_prefix(s, prefix.push(i)));
}

/// The node a child-relative path leads to, seen from the parent.
proof fn lemma_node_at_child(n: FocusNode, i: usize, p: Seq<usize>)
    requires
        i < n.children@.len(),
    ensures
        node_at(n, seq![i] + p) == node_at(n.children@[i as int], p),
{
    assert((seq![i] + p).skip(1) =~= p);
}

/// A copy of `v`.
fn copy_path(v: &Vec<usize>) -> (r: Vec<usize>)
    ensures
        r@ == v@,
{
    let mut r: Vec<usize> = Vec::new();
    let mut j: usize = 0;
    while j < v.len()
        invariant
            j <= v.len(),
            r@ == v@.take(j as int),
        decreases v.len() - j,
    {
        r.push(v[j]);
        assert(v@.take(j + 1) =~= v@.take(j as int).push(v@[j as int]));
        j += 1;
    }
    assert(v@.take(v.len() as int) =~= v@);
    r
}

impl FocusNode {
    /// Appends the nodes under this one in visiting order, each path with
    /// `prefix` in front.
    fn collect(&self, forward: bool, prefix: &Vec<usize>, out: &mut Vec<Visit>)
        ensures
            visit_paths(final(out)@) == visit_paths(old(out)@) + with_prefix(tab_order(*self, forward), prefix@),
            final(out)@.len() == old(out)@.len() + tab_order(*self, forward).len(),
            forall|k: int| 0 <= k < old(out)@.len() ==> #[trigger] final(out)@[k] == old(out)@[k],
            forall|k: int|
                old(out)@.len() <= k < final(out)@.len() ==> #[trigger] final(out)@[k].focusable == node_at(
                    *self,
                    tab_order(*self, forward)[k - old(out)@.len()],
                ).focusable,
        decreases *self,
    {
        let ghost old_out = out@;
        let ghost t = tab_order(*self, forward);
        let ghost s = self.children@;
        let ghost n0 = old_out.len();
        out.push(Visit { path: copy_path(prefix), focusable: self.focusable });
        proof {
            assert(visit_paths(out@) =~= visit_paths(old_out) + with_prefix(seq![Seq::<usize>::empty()], prefix@));
            assert(node_at(*self, t[0]) == *self);
        }
        if self.focus_void {
            proof {
                assert(t =~= seq![Seq::<usize>::empty()]);
            }
            return;
        }
        let n = self.children.len();
        if forward {
            let mut i: usize = 0;
            while i < n
                invariant
                    i <= n,
                    n == s.len(),
                    s == self.children@,
                    !self.focus_void,
                    forward,
                    t == tab_order(*self, forward),
                    n0 == old_out.len(),
                    visit_paths(out@) == visit_paths(old_out) + with_prefix(
                        seq![Seq::<usize>::empty()] + children_order(s, true, i as int),
                        prefix@,
                    ),
                    out@.len() == n0 + 1 + children_order(s, true, i as int).len(),
                    forall|k: int| 0 <= k < n0 ==> #[trigger] out@[k] == old_out[k],
                    forall|k: int|
                        n0 <= k < out@.len() ==> #[trigger] out@[k].focusable == node_at(
                            *self,
                            (seq![Seq::<usize>::empty()] + children_order(s, true, i as int))[k - n0],
                        ).focusable,
                decreases n - i,
            {
                let mut child_prefix = copy_path(prefix);
                child_prefix.push(i);
                let ghost before = out@;
                proof {
                    assert(decreases_to!(*self => self.children@[i as int]));
                }
                self.children[i].collect(true, &child_prefix, out);
                proof {
                    let c = s[i as int];
                    let oc = tab_order(c, true);
                    let a = seq![Seq::<usize>::empty()] + children_order(s, true, i as int);
                    let b = prefixed(oc, i);
                    assert(children_order(s, true, i + 1) == children_order(s, true, i as int) + b);
                    assert(seq![Seq::<usize>::empty()] + children_order(s, true, i + 1) =~= a + b);
                    lemma_with_prefix_add(a, b, prefix@);
                    lemma_with_prefix_child(oc, prefix@, i);
                    assert forall|k: int| n0 <= k < out@.len() implies #[trigger] out@[k].focusable
                        == node_at(*self, (a + b)[k - n0]).focusable by {
                        if k >= before.len() {
                            let q = k - before.len();
                            assert((a + b)[k - n0] == b[q]);
                            assert(b[q] == seq![i] + oc[q]);
                            lemma_node_at_child(*self, i, oc[q]);
                        } else {
                            assert((a + b)[k - n0] == a[k - n0]);
                        }
                    }
                }
                i += 1;
            }
            proof {
                assert(seq![Seq::<usize>::empty()] + children_order(s, true, n as int) == t);
            }
        } else {
            let mut i: usize = n;
            while i > 0
                invariant
                    i <= n,
                    n == s.len(),
                    s == self.children@,
                    !self.focus_void,
                    !forward,
                    t == tab_order(*self, forward),
                    t == seq![Seq::<usize>::empty()] + children_order(s, false, n as int),
                    n0 == old_out.len(),
                    out@.len() >= n0 + 1,
                    t.take(out@.len() - n0) + children_order(s, false, i as int) == t,
                    visit_paths(out@) == visit_paths(old_out) + with_prefix(t.take(out@.len() - n0), prefix@),
                    forall|k: int| 0 <= k < n0 ==> #[trigger] out@[k] == old_out[k],
                    forall|k: int|
                        n0 <= k < out@.len() ==> #[trigger] out@[k].focusable == node_at(*self, t[k - n0]).focusable,
                decreases i,
            {
                let j = i - 1;
                let mut child_prefix = copy_path(prefix);
                child_prefix.push(j);
                let ghost before = out@;
                proof {
                    assert(decreases_to!(*self => self.children@[j as int]));
                }
                self.children[j].collect(false, &child_prefix, out);
                proof {
                    let c = s[j as int];
                    let oc = tab_order(c, false);
                    let b = prefixed(oc, j);
                    let done = t.take(before.len() - n0);
                    assert(children_order(s, false, i as int) == b + children_order(s, false, j as int));
                    assert(t.take(out@.len() - n0) =~= done + b) by {
                        assert(t =~= done + (b + children_order(s, false, j as int)));
                    }
                    assert(t.take(out@.len() - n0) + children_order(s, false, j as int) =~= t);
                    lemma_with_prefix_add(done, b, prefix@);
                    lemma_with_prefix_child(oc, prefix@, j);
                    assert forall|k: int| n0 <= k < out@.len() implies #[trigger] out@[k].focusable
                        == node_at(*self, t[k - n0]).focusable by {
                        if k >= before.len() {
                            let q = k - before.len();
                            assert(t[k - n0] == (done + b)[k - n0]);
                            assert(b[q] == seq![j] + oc[q]);
                            lemma_node_at_child(*self, j, oc[q]);
                        }
                    }
                }
                i = j;
            }
            proof {
                assert(t.take(out@.len() - n0) =~= t);
            }
        }
    }
}

/// Whether two paths are equal.
fn same_path(a: &Vec<usize>, b: &Vec<usize>) -> (r: bool)
    ensures
        r == (a@ == b@),
{
    if a.len() != b.len() {
        return false;
    }
    let mut i: usize = 0;
    while i < a.len()
        invariant
            i <= a.len(),
            a.len() == b.len(),
            forall|k: int| 0 <= k < i ==> a@[k] == b@[k],
        decreases a.len() - i,
    {
        if a[i] != b[i] {
            return false;
        }
        i += 1;
    }
    assert(a@ =~= b@);
    true
}

/// Once found, a path's first index stays the first in longer prefixes.
proof fn lemma_index_of_path_mono(order: Seq<Seq<usize>>, path: Seq<usize>, k: int, k2: int)
    requires
        0 <= k <= k2 <= order.len(),
        index_of_path(order, path, k) is Some,
    ensures
        index_of_path(order, path, k2) == index_of_path(order, path, k),
    decreases k2 - k,
{
    if k2 > k {
        lemma_index_of_path_mono(order, path, k, k2 - 1);
    }
}

/// Moves the focus with Tab (`forward`) or Shift+Tab from the node at
/// `start` inside the focus well `well`: to the first focusable node after it
/// in the visiting order, wrapping around (see [`spec_tab_target`]). The
/// start is a node no focus void above it hides.
pub fn tab_target(well: &FocusNode, start: &Vec<usize>, forward: bool) -> (r: Vec<usize>)
    requires
        valid_path(*well, start@),
        !under_void(*well, start@),
    ensures
        r@ == spec_tab_target(*well, start@, forward),
{
    let mut out: Vec<Visit> = Vec::new();
    let root: Vec<usize> = Vec::new();
    well.collect(forward, &root, &mut out);
    let ghost order = tab_order(*well, forward);
    proof {
        assert(visit_paths(out@) =~= order) by {
            assert forall|k: int| 0 <= k < order.len() implies (Seq::<usize>::empty() + #[trigger] order[k])
                == order[k] by {
                assert(Seq::<usize>::empty() + order[k] =~= order[k]);
            }
        }
    }
    let n = out.len();
    let mut pos: usize = 0;
    while pos < n
        invariant
            pos <= n,
            n == out@.len(),
            n == order.len(),
            visit_paths(out@) == order,
            index_of_path(order, start@, pos as int) is None,
        ensures
            pos <= n,
            index_of_path(order, start@, pos as int) is None,
            pos < n ==> order[pos as int] == start@,
        decreases n - pos,
    {
        assert(out@[pos as int].path@ == order[pos as int]);
        if same_path(&out[pos].path, start) {
            break;
        }
        pos += 1;
    }
    if pos == n {
        return copy_path(start);
    }
    proof {
        assert(index_of_path(order, start@, pos + 1) == Some(pos as int));
        lemma_index_of_path_mono(order, start@, pos + 1, n as int);
    }
    let mut q = pos + 1;
    while q < n
        invariant
            pos < q <= n,
            n == out@.len(),
            n == order.len(),
            order == tab_order(*well, forward),
            index_of_path(order, start@, n as int) == Some(pos as int),
            visit_paths(out@) == order,
            forall|k: int| 0 <= k < n ==> #[trigger] out@[k].focusable == node_at(*well, order[k]).focusable,
            first_focusable(*well, order, pos + 1, n as int) == first_focusable(*well, order, q as int, n as int),
        decreases n - q,
    {
        if out[q].focusable {
            assert(out@[q as int].path@ == order[q as int]);
            return copy_path(&out[q].path);
        }
        q += 1;
    }
    let mut q: usize = 0;
    while q < pos
        invariant
            q <= pos < n,
            n == out@.len(),
            n == order.len(),
            order == tab_order(*well, forward),
            index_of_path(order, start@, n as int) == Some(pos as int),
            visit_paths(out@) == order,
            forall|k: int| 0 <= k < n ==> #[trigger] out@[k].focusable == node_at(*well, order[k]).focusable,
            first_focusable(*well, order, pos + 1, n as int) is None,
            first_focusable(*well, order, 0, pos as int) == first_focusable(*well, order, q as int, pos as int),
        decreases pos - q,
    {
        if out[q].focusable {
            assert(out@[q as int].path@ == order[q as int]);
            return copy_path(&out[q].path);
        }
        q += 1;
    }
    copy_path(start)
}

/// Walking `path` one more step from the node `path.take(j)` leads to its
/// child `path[j]`.
proof fn lemma_node_at_step(n: FocusNode, path: Seq<usize>, j: int)
    requires
        valid_path(n, path),
        0 <= j < path.len(),
    ensures
        path[j] < node_at(n, path.take(j)).children@.len(),
        node_at(n, path.take(j + 1)) == node_at(n, path.take(j)).children@[path[j] as int],
    decreases j,
{
    let c = n.children@[path[0] as int];
    assert(path.take(j + 1)[0] == path[0]);
    if j == 0 {
        assert(path.take(0).len() == 0);
        assert(path.take(1).skip(1) =~= Seq::<usize>::empty());
        assert(node_at(c, Seq::<usize>::empty()) == c);
        assert(node_at(n, path.take(1)) == node_at(c, path.take(1).skip(1)));
    } else {
        assert(path.take(j)[0] == path[0]);
        lemma_node_at_step(c, path.skip(1), j - 1);
        assert(path.take(j + 1).skip(1) =~= path.skip(1).take(j));
        assert(path.take(j).skip(1) =~= path.skip(1).take(j - 1));
        assert(node_at(n, path.take(j + 1)) == node_at(c, path.skip(1).take(j)));
        assert(node_at(n, path.take(j)) == node_at(c, path.skip(1).take(j - 1)));
    }
}

/// The deepest focus void on the way from the focus well down to the node at
/// `path`, the node itself excluded, among the first `j + 1` of those nodes.
pub open spec fn nearest_void(n: FocusNode, path: Seq<usize>, j: int) -> Option<int>
    decreases j + 1,
{
    if j < 0 {
        None
    } else if node_at(n, path.take(j)).focus_void {
        Some(j)
    } else {
        nearest_void(n, path, j - 1)
    }
}

/// Where Tab navigation starts from the focused node at `path`: the deepest
/// focus void above it, or the node itself where there is none.
pub open spec fn focus_start(n: FocusNode, path: Seq<usize>) -> Seq<usize> {
    match nearest_void(n, path, path.len() - 1) {
        Some(j) => path.take(j),
        None => path,
    }
}

/// Where the focus goes when Tab (`forward`) or Shift+Tab is pressed with the
/// node at `focused` focused inside the focus well `well`: to the next
/// focusable node from where navigation starts (see [`focus_start`] and
/// [`spec_tab_target`]); it stays where there is none.
pub open spec fn spec_move_focus(well: FocusNode, focused: Seq<usize>, forward: bool) -> Seq<usize> {
    let start = focus_start(well, focused);
    let target = spec_tab_target(well, start, forward);
    if target == start {
        focused
    } else {
        target
    }
}

/// Moves the focus with Tab (`forward`) or Shift+Tab from the focused node at
/// `focused` inside the focus well `well`. Navigation starts at the deepest
/// focus void above the focused node, which no other focus void may hide.
pub fn move_focus(well: &FocusNode, focused: &Vec<usize>, forward: bool) -> (r: Vec<usize>)
    requires
        valid_path(*well, focused@),
        !under_void(*well, focus_start(*well, focused@)),
    ensures
        r@ == spec_move_focus(*well, focused@, forward),
{
    // The focus-void flags of the nodes on the way down, the focused one excluded.
    let n = focused.len();
    let mut voids: Vec<bool> = Vec::new();
    let mut node = well;
    let mut j: usize = 0;
    while j < n
        invariant
            j <= n,
            n == focused@.len(),
            valid_path(*well, focused@),
            *node == node_at(*well, focused@.take(j as int)),
            voids@.len() == j,
            forall|k: int| 0 <= k < j ==> voids@[k] == node_at(*well, #[trigger] focused@.take(k)).focus_void,
        decreases n - j,
    {
        voids.push(node.focus_void);
        proof {
            lemma_node_at_step(*well, focused@, j as int);
        }
        node = &node.children[focused[j]];
        j += 1;
    }
    let mut k = n;
    let mut found: Option<usize> = None;
    while k > 0
        invariant_except_break
            found is None,
        invariant
            k <= n,
            n == focused@.len(),
            voids@.len() == n,
            forall|m: int| 0 <= m < n ==> voids@[m] == node_at(*well, #[trigger] focused@.take(m)).focus_void,
            nearest_void(*well, focused@, n - 1) == nearest_void(*well, focused@, k - 1),
        ensures
            found is None ==> nearest_void(*well, focused@, n - 1) is None,
            found matches Some(m) ==> nearest_void(*well, focused@, n - 1) == Some(m as int) && m < n,
        decreases k,
    {
        if voids[k - 1] {
            assert(nearest_void(*well, focused@, k - 1) == Some(k - 1));
            found = Some(k - 1);
            break;
        }
        k -= 1;
    }
    let start: Vec<usize> = match found {
        Some(m) => {
            let mut s: Vec<usize> = Vec::new();
            let mut i: usize = 0;
            while i < m
                invariant
                    i <= m < n,
                    n == focused@.len(),
                    s@ == focused@.take(i as int),
                decreases m - i,
            {
                s.push(focused[i]);
                assert(focused@.take(i + 1) =~= focused@.take(i as int).push(focused@[i as int]));
                i += 1;
            }
            s
        },
        None => copy_path(focused),
    };
    assert(start@ == focus_start(*well, focused@));
    proof {
        lemma_valid_take(*well, focused@, start@.len() as int);
        assert(focused@.take(start@.len() as int) =~= start@);
    }
    let target = tab_target(well, &start, forward);
    if same_path(&target, &start) {
        copy_path(focused)
    } else {
        target
    }
}

/// A prefix of a path that leads to a node leads to a node too.
proof fn lemma_valid_take(n: FocusNode, path: Seq<usize>, j: int)
    requires
        valid_path(n, path),
        0 <= j <= path.len(),
    ensures
        valid_path(n, path.take(j)),
    decreases j,
{
    if j > 0 {
        lemma_valid_take(n.children@[path[0] as int], path.skip(1), j - 1);
        assert(path.take(j).skip(1) =~= path.skip(1).take(j - 1));
    }
}


/// The id of the UI tree's root, where the focus goes when nothing else holds it.
pub const ROOT_ID: u64 = 0x14057B7EF767814F;

/// What the focus path needs to know of a node.
#[derive(Clone, Copy, Debug, PartialEq, Eq, Structural)]
pub struct FocusFlags {
    pub focusable: bool,
    pub focus_void: bool,
}

/// How many ids of `path` stay focused, scanning from index `i` below `k`
/// with `len` kept so far: the scan stops at an id no node has (`ids`, with
/// `flags` in the same order) or, moving up (`upward`), at a focus void; the
/// path is kept up to its last focusable node before that.
pub open spec fn focus_keep(
    path: Seq<u64>,
    ids: Seq<u64>,
    flags: Seq<FocusFlags>,
    upward: bool,
    i: int,
    k: int,
    len: int,
) -> int
    decreases k - i,
{
    if i >= k || i < 0 || k > path.len() {
        len
    } else {
        match first_in(ids, path[i], ids.len() as int) {
            None => len,
            Some(p) => if upward && flags[p].focus_void {
                len
            } else {
                focus_keep(path, ids, flags, upward, i + 1, k, if flags[p].focusable { i + 1 } else { len })
            },
        }
    }
}

/// The last id of a focus path, 0 for an empty one.
pub open spec fn last_or_zero(path: Seq<u64>) -> u64 {
    if path.len() == 0 {
        0
    } else {
        path.last()
    }
}

/// The focus path after nodes disappeared (and, with `pop_minimum` above 0,
/// after moving up that many levels out of any focus void): the longest prefix
/// that ends at a focusable node (see [`focus_keep`]), or the root's id alone.
pub open spec fn spec_pop_focusable(path: Seq<u64>, ids: Seq<u64>, flags: Seq<FocusFlags>, pop_minimum: int) -> Seq<u64> {
    let k = if pop_minimum < path.len() { path.len() - pop_minimum } else { 0 };
    let len = focus_keep(path, ids, flags, pop_minimum != 0, 0, k, 0);
    if len == 0 {
        seq![ROOT_ID]
    } else {
        path.take(len)
    }
}

proof fn lemma_focus_keep_bounds(
    path: Seq<u64>,
    ids: Seq<u64>,
    flags: Seq<FocusFlags>,
    upward: bool,
    i: int,
    k: int,
    len: int,
)
    requires
        0 <= len <= i,
        0 <= i,
        k <= path.len(),
    ensures
        len <= focus_keep(path, ids, flags, upward, i, k, len),
        focus_keep(path, ids, flags, upward, i, k, len) <= if i <= k { k } else { len },
    decreases k - i,
{
    if i < k {
        match first_in(ids, path[i], ids.len() as int) {
            None => {},
            Some(p) => if !(upward && flags[p].focus_void) {
                lemma_focus_keep_bounds(
                    path,
                    ids,
                    flags,
                    upward,
                    i + 1,
                    k,
                    if flags[p].focusable { i + 1 } else { len },
                );
            },
        }
    }
}

/// Drops from the focus path the nodes that no longer exist (`map` gives a
/// node's position in `flags`), and with `pop_minimum` above 0 moves the
/// focus up (see [`spec_pop_focusable`]). Returns whether the focused node
/// (the path's last id) changed.
pub fn pop_focusable_node(path: &mut Vec<u64>, map: &NodeMap, flags: &[FocusFlags], pop_minimum: usize) -> (r: bool)
    requires
        map.wf(),
        flags@.len() == map.ids().len(),
    ensures
        final(path)@ == spec_pop_focusable(old(path)@, map.ids(), flags@, pop_minimum as int),
        r == (last_or_zero(old(path)@) != last_or_zero(final(path)@)),
{
    let ghost ids = map.ids();
    let ghost old_path = path@;
    let last_before: u64 = if path.len() == 0 { 0 } else { path[path.len() - 1] };
    let k: usize = if pop_minimum < path.len() { path.len() - pop_minimum } else { 0 };
    let upward = pop_minimum != 0;
    let mut len: usize = 0;
    let mut i: usize = 0;
    proof {
        lemma_first_in_bounds_all(ids);
    }
    while i < k
        invariant_except_break
            focus_keep(old_path, ids, flags@, upward, i as int, k as int, len as int) == focus_keep(
                old_path,
                ids,
                flags@,
                upward,
                0,
                k as int,
                0,
            ),
        invariant
            path@ == old_path,
            k <= old_path.len(),
            len <= i <= k,
            ids == map.ids(),
            map.wf(),
            flags@.len() == ids.len(),
            forall|id: u64| match #[trigger] first_in(ids, id, ids.len() as int) {
                Some(p) => 0 <= p < ids.len(),
                None => true,
            },
        ensures
            len as int == focus_keep(old_path, ids, flags@, upward, 0, k as int, 0),
        decreases k - i,
    {
        let p = match map.get(path[i]) {
            Some(p) => p,
            None => break,
        };
        if upward && flags[p].focus_void {
            break;
        }
        if flags[p].focusable {
            len = i + 1;
        }
        i += 1;
    }
    path.truncate(len);
    if path.len() == 0 {
        path.push(ROOT_ID);
    }
    proof {
        lemma_focus_keep_bounds(old_path, ids, flags@, upward, 0, k as int, 0);
        assert(path@ =~= spec_pop_focusable(old_path, ids, flags@, pop_minimum as int));
    }
    let last_after = path[path.len() - 1];
    last_before != last_after
}

/// Every position `first_in` finds lies in the sequence.
proof fn lemma_first_in_bounds_all(ids: Seq<u64>)
    ensures
        forall|id: u64| match #[trigger] first_in(ids, id, ids.len() as int) {
            Some(p) => 0 <= p < ids.len(),
            None => true,
        },
{
    assert forall|id: u64| match #[trigger] first_in(ids, id, ids.len() as int) {
        Some(p) => 0 <= p < ids.len(),
        None => true,
    } by {
        crate::node_map::lemma_first_in(ids, id, ids.len() as int);
    }
}


/// Where the selection of a list of `n` items moves from `selected` on a
/// key: Page Up and Page Down by the visible height (`page`) less one,
/// stopping at the ends; Home and End to the first and the last; Up and Down
/// by one, wrapping around. `None` for any other key.
pub open spec fn spec_list_key(n: int, selected: int, key: InputKey, page: int) -> Option<int> {
    let step = if page - 1 > 0 {
        page - 1
    } else {
        0
    };
    if key == vk::PRIOR {
        Some(if selected - step > 0 { selected - step } else { 0 })
    } else if key == vk::NEXT {
        Some(if selected + step < n - 1 { selected + step } else { n - 1 })
    } else if key == vk::END {
        Some(n - 1)
    } else if key == vk::HOME {
        Some(0)
    } else if key == vk::UP {
        Some(if selected > 0 { selected - 1 } else { n - 1 })
    } else if key == vk::DOWN {
        Some(if selected + 1 < n { selected + 1 } else { 0 })
    } else {
        None
    }
}

/// The selected item of a list of `n` items after this frame's keyboard
/// input: the selection, or the first item where there is none; where the
/// list holds the focus, an item was selected, the list was laid out before
/// (`page`, its visible height) and the key moves the selection (see
/// [`spec_list_key`]), the key moves it and is consumed. `None` for an empty
/// list.
pub fn list_selection(
    n: usize,
    selected: Option<usize>,
    contains_focus: bool,
    input: &mut KeyInput,
    page: Option<CoordType>,
) -> (r: Option<usize>)
    requires
        selected matches Some(s) ==> s < n,
    ensures
        final(input).keyboard == old(input).keyboard,
        final(input).text == old(input).text,
        n == 0 ==> r is None && final(input).consumed == old(input).consumed,
        n > 0 ==> {
            let moved = match (selected, old(input).keyboard, page) {
                (Some(s), Some(k), Some(h)) => if contains_focus && !old(input).consumed {
                    spec_list_key(n as int, s as int, k, h as int)
                } else {
                    None
                },
                _ => None,
            };
            &&& r == Some(
                (match moved {
                    Some(t) => t,
                    None => match selected {
                        Some(s) => s as int,
                        None => 0,
                    },
                }) as usize,
            )
            &&& final(input).consumed == (old(input).consumed || moved is Some)
        },
{
    if n == 0 {
        return None;
    }
    let mut next: usize = match selected {
        Some(s) => s,
        None => 0,
    };
    if contains_focus && !input.consumed {
        if let (Some(s), Some(key), Some(h)) = (selected, input.keyboard, page) {
            let step: usize = if h > 1 {
                (h - 1) as usize
            } else {
                0
            };
            let mut consumed = true;
            if key == vk::PRIOR {
                next = if s > step { s - step } else { 0 };
            } else if key == vk::NEXT {
                next = if step < n - 1 - s { s + step } else { n - 1 };
            } else if key == vk::END {
                next = n - 1;
            } else if key == vk::HOME {
                next = 0;
            } else if key == vk::UP {
                next = if s > 0 { s - 1 } else { n - 1 };
            } else if key == vk::DOWN {
                next = if s + 1 < n { s + 1 } else { 0 };
            } else {
                consumed = false;
            }
            if consumed {
                input.consumed = true;
            }
        }
    }
    Some(next)
}


/// What happens to a list item at the end of its frame: the list's selected
/// id (`selected`, 0 for none) moves to the item where the item is focused, or
/// is picked (`select`) while nothing is selected; a double click on it
/// (`double_clicked`), or Return on it while focused and already selected,
/// activates it and takes the input. Returns whether the selection is the item
/// now, and `Activated` for an activated item that was selected already,
/// `Selected` for a newly selected one, else `Unchanged`.
pub fn list_item_end(
    selected: &mut u64,
    item_id: u64,
    select: bool,
    focused: bool,
    input: &mut KeyInput,
    double_clicked: bool,
) -> (r: (ListSelection, bool))
    ensures
        ({
            let before = *old(selected) == item_id;
            let now = before || (select && *old(selected) == 0) || focused;
            let activated = !old(input).consumed && (double_clicked || (focused && before && old(input).keyboard
                == Some(vk::RETURN)));
            &&& r.1 == now
            &&& *final(selected) == (if now && !before {
                item_id
            } else {
                *old(selected)
            })
            &&& final(input).consumed == (old(input).consumed || activated)
            &&& r.0 == (if before && activated {
                ListSelection::Activated
            } else if now && !before {
                ListSelection::Selected
            } else {
                ListSelection::Unchanged
            })
        }),
        final(input).keyboard == old(input).keyboard,
        final(input).text == old(input).text,
{
    let before = *selected == item_id;
    let now = before || (select && *selected == 0) || focused;
    if now && !before {
        *selected = item_id;
    }
    let clicked = !input.consumed && double_clicked;
    let entered = focused && before && !input.consumed && input.keyboard == Some(vk::RETURN);
    let activated = clicked || entered;
    if activated {
        input.consumed = true;
    }
    let state = if before && activated {
        ListSelection::Activated
    } else if now && !before {
        ListSelection::Selected
    } else {
        ListSelection::Unchanged
    };
    (state, now)
}

} // verus!
