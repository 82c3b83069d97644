//! Hit-testing the mouse onto the UI tree laid out last frame: which node is
//! under the mouse, and which focusable node a click there goes to.

use vstd::prelude::*;
use crate::helpers::{Point, Rect};

verus! {

/// A node of last frame's UI tree, as the hit test sees it.
pub struct HitNode {
    pub id: u64,
    /// The node's outer rectangle, clipped to its parents'.
    pub outer_clipped: Rect,
    pub focusable: bool,
    /// A modal root takes every click, inside it or not.
    pub modal: bool,
    pub children: Vec<HitNode>,
}

/// The paths of ids (from the root) to the node under `p` and to the
/// focusable node a click there goes to.
pub type HitPaths = (Option<Seq<u64>>, Option<Seq<u64>>);

/// `id` in front of a path, if there is one.
pub open spec fn under(id: u64, p: Option<Seq<u64>>) -> Option<Seq<u64>> {
    match p {
        Some(s) => Some(seq![id] + s),
        None => None,
    }
}

/// The later of two results: `b` where it is there.
pub open spec fn later(a: Option<Seq<u64>>, b: Option<Seq<u64>>) -> Option<Seq<u64>> {
    if b is Some {
        b
    } else {
        a
    }
}

/// The hit test in the subtree of `n`: where `n` contains `p`, the last node
/// in depth-first order (parents before children, children in order) whose
/// rectangle and whose ancestors' rectangles contain `p`, and the last such
/// node that is focusable.
pub open spec fn hit(n: HitNode, p: Point) -> HitPaths
    decreases n, 1int, 0int,
{
    if !n.outer_clipped.spec_contains(p) {
        (None, None)
    } else {
        let own: HitPaths = (Some(seq![n.id]), if n.focusable {
            Some(seq![n.id])
        } else {
            None
        });
        hit_children(n, p, n.children@.len() as int, own)
    }
}

/// The hit test over the first `k` children of `n`, after `own` for `n` itself.
pub open spec fn hit_children(n: HitNode, p: Point, k: int, own: HitPaths) -> HitPaths
    decreases n, 0int, k,
{
    if k <= 0 || k > n.children@.len() {
        own
    } else {
        let before = hit_children(n, p, k - 1, own);
        let (h, f) = hit(n.children@[k - 1], p);
        (later(before.0, under(n.id, h)), later(before.1, under(n.id, f)))
    }
}

/// The hit test over the roots (windows, in Z order, the topmost last), from
/// the `k`-th down: the first root under `p` decides; a modal root ends the
/// search where it is not under `p`.
pub open spec fn hit_roots(roots: Seq<HitNode>, p: Point, k: int) -> HitPaths
    decreases k,
{
    if k <= 0 || k > roots.len() {
        (None, None)
    } else {
        let r = hit(roots[k - 1], p);
        if r.0 is Some || roots[k - 1].modal {
            r
        } else {
            hit_roots(roots, p, k - 1)
        }
    }
}

pub open spec fn opt_path(v: Option<Vec<u64>>) -> Option<Seq<u64>> {
    match v {
        Some(s) => Some(s@),
        None => None,
    }
}

fn prefixed(id: u64, p: Option<Vec<u64>>) -> (r: Option<Vec<u64>>)
    ensures
        opt_path(r) == under(id, opt_path(p)),
{
    match p {
        Some(s) => {
            let mut out: Vec<u64> = Vec::new();
            out.push(id);
            let mut i: usize = 0;
            while i < s.len()
                invariant
                    i <= s@.len(),
                    out@ == seq![id] + s@.take(i as int),
                decreases s@.len() - i,
            {
                out.push(s[i]);
                assert(s@.take(i + 1) =~= s@.take(i as int).push(s@[i as int]));
                i += 1;
            }
            assert(s@.take(s@.len() as int) =~= s@);
            Some(out)
        },
        None => None,
    }
}

impl HitNode {
    /// The hit test in this subtree (see [`hit`]).
    pub fn hit_test(&self, p: Point) -> (r: (Option<Vec<u64>>, Option<Vec<u64>>))
        ensures
            (opt_path(r.0), opt_path(r.1)) == hit(*self, p),
        decreases *self,
    {
        if !self.outer_clipped.contains(p) {
            return (None, None);
        }
        let mut one: Vec<u64> = Vec::new();
        one.push(self.id);
        let mut one2: Vec<u64> = Vec::new();
        one2.push(self.id);
        let mut hovered: Option<Vec<u64>> = Some(one);
        let mut focused: Option<Vec<u64>> = if self.focusable { Some(one2) } else { None };
        let ghost own: HitPaths = (Some(seq![self.id]), if self.focusable {
            Some(seq![self.id])
        } else {
            None
        });
        proof {
            assert(hovered->Some_0@ =~= seq![self.id]);
            if self.focusable {
                assert(focused->Some_0@ =~= seq![self.id]);
            }
        }
        let n = self.children.len();
        let mut i: usize = 0;
        while i < n
            invariant
                i <= n,
                n == self.children@.len(),
                self.outer_clipped.spec_contains(p),
                own == (Some(seq![self.id]), if self.focusable {
                    Some(seq![self.id])
                } else {
                    None
                }),
                (opt_path(hovered), opt_path(focused)) == hit_children(*self, p, i as int, own),
            decreases n - i,
        {
            proof {
                assert(decreases_to!(*self => self.children@[i as int]));
            }
            let (h, f) = self.children[i].hit_test(p);
            let h2 = prefixed(self.id, h);
            let f2 = prefixed(self.id, f);
            if h2.is_some() {
                hovered = h2;
            }
            if f2.is_some() {
                focused = f2;
            }
            i += 1;
        }
        (hovered, focused)
    }
}

/// The hit test over the roots (see [`hit_roots`]): the path of ids to the
/// node under `p`, and to the focusable node a click there goes to.
pub fn hit_test_roots(roots: &Vec<HitNode>, p: Point) -> (r: (Option<Vec<u64>>, Option<Vec<u64>>))
    ensures
        (opt_path(r.0), opt_path(r.1)) == hit_roots(roots@, p, roots@.len() as int),
{
    let mut k = roots.len();
    while k > 0
        invariant
            k <= roots@.len(),
            hit_roots(roots@, p, k as int) == hit_roots(roots@, p, roots@.len() as int),
        decreases k,
    {
        let r = roots[k - 1].hit_test(p);
        if r.0.is_some() || roots[k - 1].modal {
            return r;
        }
        k -= 1;
    }
    (None, None)
}

} // verus!
