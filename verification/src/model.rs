//! The window world model: the identifier and record kept for every managed
//! foreign window.

use vstd::prelude::*;
use crate::geometry::Rect;

verus! {

/// Opaque, comparable, hashable handle for a foreign window. The host must
/// report the same number for the lifetime of the window.
#[derive(Debug, Clone, Copy, PartialEq, Eq, Hash, Structural)]
pub struct WindowId(pub u32);

/// Everything the engine keeps about one managed window.
#[derive(Debug, Clone)]
pub struct Window {
    pub id: WindowId,
    pub title: String,
    pub owner: String,
    pub owner_pid: i32,
    pub rect: Rect,
    pub is_minimized: bool,
    pub is_focused: bool,
    pub workspace_id: u32,
}

impl Window {
    pub open spec fn wf(self) -> bool {
        self.rect.wf()
    }
}

/// No window identifier occurs twice in the sequence.
pub open spec fn distinct_ids(ws: Seq<Window>) -> bool {
    forall|i: int, j: int| 0 <= i < j < ws.len() ==> ws[i].id != ws[j].id
}

/// Every record in the sequence is well formed.
pub open spec fn all_wf(ws: Seq<Window>) -> bool {
    forall|i: int| 0 <= i < ws.len() ==> ws[i].wf()
}

/// The identifiers of a window sequence, in order.
pub open spec fn ids_of(ws: Seq<Window>) -> Seq<WindowId> {
    ws.map_values(|w: Window| w.id)
}

/// Whether some record in the sequence carries the identifier.
pub open spec fn has_id(ws: Seq<Window>, id: WindowId) -> bool {
    exists|i: int| 0 <= i < ws.len() && ws[i].id == id
}

/// Linear search for a window by identifier.
pub fn find_window(ws: &Vec<Window>, id: WindowId) -> (r: Option<usize>)
    ensures
        match r {
            Some(i) => i < ws@.len() && ws@[i as int].id == id && (forall|j: int|
                0 <= j < i ==> ws@[j].id != id),
            None => !has_id(ws@, id),
        },
{
    let mut i: usize = 0;
    while i < ws.len()
        invariant
            i <= ws@.len(),
            forall|j: int| 0 <= j < i ==> ws@[j].id != id,
        decreases ws@.len() - i,
    {
        if ws[i].id == id {
            return Some(i);
        }
        i += 1;
    }
    None
}


/// No identifier occurs twice.
pub open spec fn wids_distinct(s: Seq<WindowId>) -> bool {
    forall|i: int, j: int| 0 <= i < j < s.len() ==> s[i] != s[j]
}

/// Whether the identifier set holds the identifier.
pub fn wid_contains(v: &Vec<WindowId>, id: WindowId) -> (r: bool)
    ensures
        r == v@.contains(id),
{
    let mut i: usize = 0;
    while i < v.len()
        invariant
            i <= v@.len(),
            forall|j: int| 0 <= j < i ==> v@[j] != id,
        decreases v@.len() - i,
    {
        if v[i] == id {
            proof {
                assert(v@.contains(id));
            }
            return true;
        }
        i += 1;
    }
    proof {
        if v@.contains(id) {
            let k = choose|k: int| 0 <= k < v@.len() && v@[k] == id;
        }
    }
    false
}

/// Add the identifier to the set.
pub fn wid_insert(v: &mut Vec<WindowId>, id: WindowId)
    requires
        wids_distinct(old(v)@),
    ensures
        wids_distinct(final(v)@),
        forall|x: WindowId| #[trigger] final(v)@.contains(x) <==> (old(v)@.contains(x) || x
            == id),
{
    let ghost orig = v@;
    if !wid_contains(v, id) {
        v.push(id);
        proof {
            assert forall|x: WindowId|
                #[trigger] v@.contains(x) <==> (orig.contains(x) || x == id) by {
                if v@.contains(x) {
                    let k = choose|k: int| 0 <= k < v@.len() && v@[k] == x;
                    if k < orig.len() {
                        assert(orig[k] == x);
                    }
                }
                if orig.contains(x) {
                    let k = choose|k: int| 0 <= k < orig.len() && orig[k] == x;
                    assert(v@[k] == x);
                }
                assert(v@[v@.len() - 1] == id);
            }
            assert forall|i: int, j: int|
                0 <= i < j < v@.len() implies v@[i] != v@[j] by {
                if j == v@.len() - 1 {
                    assert(v@[i] == orig[i]);
                    assert(!orig.contains(id));
                }
            }
        }
    } else {
        proof {
            assert forall|x: WindowId|
                #[trigger] v@.contains(x) <==> (orig.contains(x) || x == id) by {}
        }
    }
}

/// Take the identifier out of the set.
pub fn wid_remove(v: &mut Vec<WindowId>, id: WindowId)
    requires
        wids_distinct(old(v)@),
    ensures
        wids_distinct(final(v)@),
        forall|x: WindowId| #[trigger] final(v)@.contains(x) <==> (old(v)@.contains(x) && x
            != id),
{
    let ghost orig = v@;
    let mut i: usize = 0;
    while i < v.len()
        invariant
            i <= v@.len(),
            v@ == orig,
            old(v)@ == orig,
            wids_distinct(orig),
            forall|j: int| 0 <= j < i ==> orig[j] != id,
        decreases v@.len() - i,
    {
        if v[i] == id {
            let _ = v.remove(i);
            proof {
                let out = v@;
                assert(out =~= orig.remove(i as int));
                assert forall|a: int, b: int|
                    0 <= a < b < out.len() implies out[a] != out[b] by {
                    let oa = if a < i { a } else { a + 1 };
                    let ob = if b < i { b } else { b + 1 };
                    assert(out[a] == orig[oa]);
                    assert(out[b] == orig[ob]);
                }
                assert forall|x: WindowId|
                    #[trigger] out.contains(x) <==> (orig.contains(x) && x != id) by {
                    if out.contains(x) {
                        let k = choose|k: int| 0 <= k < out.len() && out[k] == x;
                        let ok = if k < i { k } else { k + 1 };
                        assert(out[k] == orig[ok]);
                        assert(orig.contains(x));
                        if x == id {
                            if ok < i {
                                assert(orig[ok] != orig[i as int]);
                            } else {
                                assert(orig[i as int] != orig[ok]);
                            }
                        }
                    }
                    if orig.contains(x) && x != id {
                        let k = choose|k: int| 0 <= k < orig.len() && orig[k] == x;
                        if k < i {
                            assert(out[k] == x);
                        } else {
                            assert(k != i);
                            assert(out[k - 1] == x);
                        }
                    }
                }
            }
            return ;
        }
        i += 1;
    }
    proof {
        assert(!orig.contains(id));
        assert forall|x: WindowId|
            #[trigger] v@.contains(x) <==> (orig.contains(x) && x != id) by {}
    }
}

/// Keys of a rectangle map are unique.
pub open spec fn rmap_distinct(s: Seq<(WindowId, Rect)>) -> bool {
    forall|i: int, j: int| 0 <= i < j < s.len() ==> s[i].0 != s[j].0
}

/// Whether the rectangle map holds a rectangle for the identifier.
pub open spec fn rmap_has(s: Seq<(WindowId, Rect)>, id: WindowId) -> bool {
    exists|i: int| 0 <= i < s.len() && s[i].0 == id
}

/// The rectangle stored for the identifier; unique under `rmap_distinct`.
pub open spec fn rmap_get(s: Seq<(WindowId, Rect)>, id: WindowId) -> Rect {
    s[choose|i: int| 0 <= i < s.len() && s[i].0 == id].1
}

/// Look the identifier up in the rectangle map.
pub fn rmap_lookup(v: &Vec<(WindowId, Rect)>, id: WindowId) -> (r: Option<Rect>)
    requires
        rmap_distinct(v@),
    ensures
        match r {
            Some(rect) => rmap_has(v@, id) && rect == rmap_get(v@, id),
            None => !rmap_has(v@, id),
        },
{
    let mut i: usize = 0;
    while i < v.len()
        invariant
            i <= v@.len(),
            rmap_distinct(v@),
            forall|j: int| 0 <= j < i ==> v@[j].0 != id,
        decreases v@.len() - i,
    {
        if v[i].0 == id {
            proof {
                assert(rmap_has(v@, id));
                let k = choose|k: int| 0 <= k < v@.len() && v@[k].0 == id;
                assert(k == i || v@[k].0 != v@[i as int].0 || k == i);
                if k != i {
                    if k < i {
                        assert(v@[k].0 != v@[i as int].0);
                    } else {
                        assert(v@[i as int].0 != v@[k].0);
                    }
                }
            }
            return Some(v[i].1);
        }
        i += 1;
    }
    None
}

/// Store a rectangle for the identifier, replacing any older entry.
pub fn rmap_set(v: &mut Vec<(WindowId, Rect)>, id: WindowId, rect: Rect)
    requires
        rmap_distinct(old(v)@),
    ensures
        rmap_distinct(final(v)@),
        rmap_has(final(v)@, id),
        rmap_get(final(v)@, id) == rect,
        forall|x: WindowId|
            x != id ==> (#[trigger] rmap_has(final(v)@, x) == rmap_has(old(v)@, x) && (rmap_has(
                old(v)@,
                x,
            ) ==> rmap_get(final(v)@, x) == rmap_get(old(v)@, x))),
        forall|k: int|
            0 <= k < final(v)@.len() ==> ((#[trigger] final(v)@[k]).1 == rect || exists|j: int|
                0 <= j < old(v)@.len() && final(v)@[k] == old(v)@[j]),
{
    let ghost orig = v@;
    let mut i: usize = 0;
    while i < v.len()
        invariant
            i <= v@.len(),
            v@ == orig,
            old(v)@ == orig,
            rmap_distinct(orig),
            forall|j: int| 0 <= j < i ==> orig[j].0 != id,
        decreases v@.len() - i,
    {
        if v[i].0 == id {
            let _ = v.remove(i);
            let ghost mid = v@;
            v.push((id, rect));
            proof {
                let out = v@;
                assert(mid =~= orig.remove(i as int));
                assert forall|j: int| 0 <= j < mid.len() implies mid[j].0 != id by {
                    if j < i {
                        assert(mid[j] == orig[j]);
                    } else {
                        assert(mid[j] == orig[j + 1]);
                        assert(orig[i as int].0 != orig[j + 1].0);
                    }
                }
                assert forall|a: int, b: int|
                    0 <= a < b < out.len() implies out[a].0 != out[b].0 by {
                    if b < out.len() - 1 {
                        let oa = if a < i { a } else { a + 1 };
                        let ob = if b < i { b } else { b + 1 };
                        assert(out[a] == orig[oa]);
                        assert(out[b] == orig[ob]);
                    } else {
                        assert(out[b].0 == id);
                        assert(out[a] == mid[a]);
                    }
                }
                assert(out[out.len() - 1] == (id, rect));
                assert(rmap_has(out, id));
                assert forall|k: int|
                    0 <= k < out.len() && out[k].0 == id implies out[k].1 == rect by {
                    if k < out.len() - 1 {
                        assert(mid[k].0 == id);
                    }
                }
                assert forall|k: int|
                    0 <= k < out.len() implies ((#[trigger] out[k]).1 == rect || exists|j: int|
                        0 <= j < orig.len() && out[k] == orig[j]) by {
                    if k < out.len() - 1 {
                        let ok = if k < i { k } else { k + 1 };
                        assert(out[k] == orig[ok]);
                    }
                }
                assert forall|x: WindowId|
                    x != id implies (#[trigger] rmap_has(out, x) == rmap_has(orig, x) && (rmap_has(
                        orig,
                        x,
                    ) ==> rmap_get(out, x) == rmap_get(orig, x))) by {
                    if rmap_has(orig, x) {
                        let k = choose|k: int| 0 <= k < orig.len() && orig[k].0 == x;
                        let k2 = if k < i { k } else { k - 1 };
                        assert(mid[k2] == orig[k]);
                        assert(out[k2] == orig[k]);
                        assert(rmap_has(out, x));
                        let m = choose|m: int| 0 <= m < out.len() && out[m].0 == x;
                        assert(m < mid.len());
                        let om = if m < i { m } else { m + 1 };
                        assert(out[m] == orig[om]);
                        if om != k {
                            if om < k {
                                assert(orig[om].0 != orig[k].0);
                            } else {
                                assert(orig[k].0 != orig[om].0);
                            }
                        }
                        assert(om == k);
                        let m2 = choose|m2: int| 0 <= m2 < orig.len() && orig[m2].0 == x;
                        if m2 != k {
                            if m2 < k {
                                assert(orig[m2].0 != orig[k].0);
                            } else {
                                assert(orig[k].0 != orig[m2].0);
                            }
                        }
                        assert(m2 == k);
                    }
                    if rmap_has(out, x) {
                        let m = choose|m: int| 0 <= m < out.len() && out[m].0 == x;
                        assert(m < mid.len());
                        let om = if m < i { m } else { m + 1 };
                        assert(out[m] == orig[om]);
                        assert(rmap_has(orig, x));
                    }
                }
            }
            return ;
        }
        i += 1;
    }
    proof {
        assert(!rmap_has(orig, id));
    }
    v.push((id, rect));
    proof {
        let out = v@;
        assert forall|a: int, b: int|
            0 <= a < b < out.len() implies out[a].0 != out[b].0 by {
            if b == out.len() - 1 {
                assert(out[a] == orig[a]);
                assert(!rmap_has(orig, id));
            }
        }
        assert(out[out.len() - 1] == (id, rect));
        assert(rmap_has(out, id));
        assert forall|k: int|
            0 <= k < out.len() && out[k].0 == id implies out[k].1 == rect by {
            if k < out.len() - 1 {
                assert(orig[k].0 == id);
                assert(rmap_has(orig, id));
            }
        }
        assert forall|k: int|
            0 <= k < out.len() implies ((#[trigger] out[k]).1 == rect || exists|j: int|
                0 <= j < orig.len() && out[k] == orig[j]) by {
            if k < out.len() - 1 {
                assert(out[k] == orig[k]);
            }
        }
        assert forall|x: WindowId|
            x != id implies (#[trigger] rmap_has(out, x) == rmap_has(orig, x) && (rmap_has(
                orig,
                x,
            ) ==> rmap_get(out, x) == rmap_get(orig, x))) by {
            if rmap_has(orig, x) {
                let k = choose|k: int| 0 <= k < orig.len() && orig[k].0 == x;
                assert(out[k] == orig[k]);
                assert(rmap_has(out, x));
                let m = choose|m: int| 0 <= m < out.len() && out[m].0 == x;
                assert(m < orig.len());
                assert(out[m] == orig[m]);
                let m2 = choose|m2: int| 0 <= m2 < orig.len() && orig[m2].0 == x;
                if m2 != m {
                    if m2 < m {
                        assert(orig[m2].0 != orig[m].0);
                    } else {
                        assert(orig[m].0 != orig[m2].0);
                    }
                }
                assert(m2 == m);
            }
            if rmap_has(out, x) {
                let m = choose|m: int| 0 <= m < out.len() && out[m].0 == x;
                assert(m < orig.len());
                assert(orig[m].0 == x);
                assert(rmap_has(orig, x));
            }
        }
    }
}



/// The stored rectangle of the window carrying the identifier; unique under
/// `distinct_ids`.
pub open spec fn rect_of_id(ws: Seq<Window>, id: WindowId) -> Rect {
    ws[choose|i: int| 0 <= i < ws.len() && ws[i].id == id].rect
}

/// Field-wise equality of window records, strings compared by content.
pub open spec fn win_eq(a: Window, b: Window) -> bool {
    &&& a.id == b.id
    &&& a.title@ == b.title@
    &&& a.owner@ == b.owner@
    &&& a.owner_pid == b.owner_pid
    &&& a.rect == b.rect
    &&& a.is_minimized == b.is_minimized
    &&& a.is_focused == b.is_focused
    &&& a.workspace_id == b.workspace_id
}

/// Copy a window record.
pub fn clone_window(w: &Window) -> (r: Window)
    ensures
        win_eq(r, *w),
{
    Window {
        id: w.id,
        title: w.title.clone(),
        owner: w.owner.clone(),
        owner_pid: w.owner_pid,
        rect: w.rect,
        is_minimized: w.is_minimized,
        is_focused: w.is_focused,
        workspace_id: w.workspace_id,
    }
}

} // verus!
