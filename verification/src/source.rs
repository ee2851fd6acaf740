//! The window-source boundary: the raw per-window record the host's window
//! list yields, and the filter deciding which windows the engine manages.
//! The host shell reads the raw values; the rules live here.

use vstd::prelude::*;
use crate::geometry::Rect;
use crate::model::{Window, WindowId};
use crate::text::{spec_contains_seq, str_eq};

verus! {

/// One raw window record as the host's window list reports it. The window's
/// translucency is carried in thousandths, so the record holds plain
/// integers only.
#[derive(Debug, Clone)]
pub struct CGWindowInfo {
    pub window_number: u32,
    pub title: String,
    pub owner: String,
    pub owner_pid: i32,
    pub rect: Rect,
    pub layer: i64,
    pub is_on_screen: bool,
    pub alpha_milli: u32,
    pub workspace_id: u32,
}

/// Application names whose windows are never managed.
pub open spec fn spec_never_tile_owner(s: Seq<char>) -> bool {
    ||| s == "Dock"@
    ||| s == "SystemUIServer"@
    ||| s == "Control Center"@
    ||| s == "NotificationCenter"@
    ||| s == "WindowServer"@
    ||| s == "loginwindow"@
    ||| s == "Spotlight"@
    ||| s == "CoreServicesUIAgent"@
    ||| s == "Menubar"@
    ||| s == "Menu Bar"@
    ||| s == "SystemPreferences"@
}

/// Which raw windows the engine manages: ordinary-layer, on-screen, nearly
/// opaque, of a sensible size, not owned by a system surface, and not an
/// untitled window of a system-looking or very short-named owner.
pub open spec fn spec_manageable(w: CGWindowInfo) -> bool {
    &&& w.layer == 0
    &&& w.is_on_screen
    &&& w.alpha_milli >= 100
    &&& w.rect.width >= 50
    &&& w.rect.height >= 50
    &&& !spec_never_tile_owner(w.owner@)
    &&& !(w.title@.len() == 0 && (spec_contains_seq(w.owner@, "System"@) || w.owner@.len() < 3))
}

impl CGWindowInfo {
    /// Decide whether the engine manages this window.
    pub fn manageable(&self) -> (r: bool)
        requires
            self.rect.wf(),
        ensures
            r == spec_manageable(*self),
    {
        if self.layer != 0 || !self.is_on_screen || self.alpha_milli < 100 {
            return false;
        }
        if self.rect.width < 50 || self.rect.height < 50 {
            return false;
        }
        let owner = self.owner.as_str();
        if str_eq(owner, "Dock") || str_eq(owner, "SystemUIServer") || str_eq(
            owner,
            "Control Center",
        ) || str_eq(owner, "NotificationCenter") || str_eq(owner, "WindowServer") || str_eq(
            owner,
            "loginwindow",
        ) || str_eq(owner, "Spotlight") || str_eq(owner, "CoreServicesUIAgent") || str_eq(
            owner,
            "Menubar",
        ) || str_eq(owner, "Menu Bar") || str_eq(owner, "SystemPreferences") {
            return false;
        }
        if self.title.as_str().unicode_len() == 0 && (crate::text::contains_str(
            owner,
            "System",
        ) || owner.unicode_len() < 3) {
            return false;
        }
        true
    }

    /// The engine's record of this window. Focus and minimization are not
    /// part of the raw record; they start clear and later events set them.
    pub fn to_window(&self) -> (r: Window)
        ensures
            r.id == WindowId(self.window_number),
            r.title@ == self.title@,
            r.owner@ == self.owner@,
            r.owner_pid == self.owner_pid,
            r.rect == self.rect,
            r.is_minimized == false,
            r.is_focused == false,
            r.workspace_id == self.workspace_id,
    {
        Window {
            id: WindowId(self.window_number),
            title: self.title.clone(),
            owner: self.owner.clone(),
            owner_pid: self.owner_pid,
            rect: self.rect,
            is_minimized: false,
            is_focused: false,
            workspace_id: self.workspace_id,
        }
    }
}

/// The raw records that pass the filter, in order.
pub open spec fn spec_manageable_windows(raw: Seq<CGWindowInfo>) -> Seq<CGWindowInfo>
    decreases raw.len(),
{
    if raw.len() == 0 {
        Seq::empty()
    } else {
        (if spec_manageable(raw[0]) {
            seq![raw[0]]
        } else {
            Seq::empty()
        }) + spec_manageable_windows(raw.subrange(1, raw.len() as int))
    }
}

/// The fields `to_window` carries over agree.
pub open spec fn spec_window_of(w: Window, raw: CGWindowInfo) -> bool {
    &&& w.id == WindowId(raw.window_number)
    &&& w.title@ == raw.title@
    &&& w.owner@ == raw.owner@
    &&& w.owner_pid == raw.owner_pid
    &&& w.rect == raw.rect
    &&& w.is_minimized == false
    &&& w.is_focused == false
    &&& w.workspace_id == raw.workspace_id
}

/// Keep the manageable records, turned into engine records, in order.
pub fn filter_manageable(raw: &Vec<CGWindowInfo>) -> (r: Vec<Window>)
    requires
        forall|i: int| 0 <= i < raw@.len() ==> (#[trigger] raw@[i]).rect.wf(),
    ensures
        r@.len() == spec_manageable_windows(raw@).len(),
        forall|k: int|
            0 <= k < r@.len() ==> spec_window_of(
                #[trigger] r@[k],
                spec_manageable_windows(raw@)[k],
            ),
        forall|k: int| 0 <= k < r@.len() ==> (#[trigger] r@[k]).wf(),
{
    let n = raw.len();
    proof {
        assert(raw@.subrange(0, n as int) =~= raw@);
    }
    let mut out: Vec<Window> = Vec::new();
    let mut i: usize = 0;
    while i < n
        invariant
            i <= n,
            n == raw@.len(),
            forall|j: int| 0 <= j < n ==> (#[trigger] raw@[j]).rect.wf(),
            spec_manageable_windows(raw@).len() == out@.len() + spec_manageable_windows(
                raw@.subrange(i as int, n as int),
            ).len(),
            forall|k: int|
                0 <= k < out@.len() ==> spec_window_of(
                    #[trigger] out@[k],
                    spec_manageable_windows(raw@)[k],
                ),
            forall|k: int| 0 <= k < out@.len() ==> (#[trigger] out@[k]).wf(),
            spec_manageable_windows(raw@) =~= spec_manageable_prefix(out@.len() as int, raw@)
                + spec_manageable_windows(raw@.subrange(i as int, n as int)),
        decreases n - i,
    {
        proof {
            let rest = raw@.subrange(i as int, n as int);
            assert(rest[0] == raw@[i as int]);
            assert(rest.subrange(1, rest.len() as int) =~= raw@.subrange(i + 1 as int, n as int));
        }
        if raw[i].manageable() {
            let w = raw[i].to_window();
            out.push(w);
            proof {
                assert(spec_manageable_prefix(out@.len() as int, raw@) =~= spec_manageable_prefix(
                    out@.len() - 1,
                    raw@,
                ).push(raw@[i as int]));
                assert(spec_manageable_windows(raw@)[out@.len() - 1] == raw@[i as int]);
            }
        }
        i += 1;
    }
    proof {
        assert(raw@.subrange(n as int, n as int) =~= Seq::<CGWindowInfo>::empty());
    }
    out
}

/// The first `k` records of the filtered sequence.
pub open spec fn spec_manageable_prefix(k: int, raw: Seq<CGWindowInfo>) -> Seq<CGWindowInfo> {
    spec_manageable_windows(raw).subrange(0, k)
}

} // verus!
