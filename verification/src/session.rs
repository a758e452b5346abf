//! The browser-session context and the checkpoint-bypass window protocol.
//!
//! Exactly one window is active at any time, and the window-order assumption
//! of the bypass — the first enumerated window is a stale decoy, the last
//! remaining one becomes active — is encoded here as a proved invariant, not
//! an implicit convention. The driver's own calls happen outside the
//! library; this context mirrors their effect on window and frame state, so
//! every decision that depends on that state is verified.

use vstd::prelude::*;
use crate::ScrapeError;

verus! {

/// The session's window and frame state: the open windows in enumeration
/// order, the active window, and the frame depth within the active window.
pub struct SessionContext {
    pub windows: Vec<u64>,
    pub active: Option<u64>,
    pub frame_depth: usize,
}

/// Opening a tab appends its handle to the enumeration order.
pub open spec fn spec_open_tab(ws: Seq<u64>, h: u64) -> Seq<u64> {
    ws.push(h)
}

/// Closing the first enumerated window drops it from the order.
pub open spec fn spec_close_first(ws: Seq<u64>) -> Seq<u64> {
    ws.skip(1)
}

impl SessionContext {
    /// Exactly one window is subscribed to subsequent queries: the active
    /// handle, when there is one, is among the open windows.
    pub open spec fn wf(self) -> bool {
        self.active matches Some(w) ==> self.windows@.contains(w)
    }

    /// A fresh session: one open window, active, at the top document.
    pub fn new(initial: u64) -> (r: SessionContext)
        ensures
            r.windows@ =~= seq![initial],
            r.active == Some(initial),
            r.frame_depth == 0,
            r.wf(),
    {
        let mut windows: Vec<u64> = Vec::new();
        windows.push(initial);
        proof {
            assert(windows@[0] == initial);
            assert(windows@.contains(initial));
        }
        SessionContext { windows, active: Some(initial), frame_depth: 0 }
    }

    /// Opens a new tab without navigating the current one away: the handle
    /// joins the end of the enumeration order and the active window is
    /// unchanged.
    pub fn open_tab(&mut self, handle: u64)
        requires
            old(self).wf(),
        ensures
            final(self).wf(),
            final(self).windows@ == spec_open_tab(old(self).windows@, handle),
            final(self).active == old(self).active,
            final(self).frame_depth == old(self).frame_depth,
    {
        self.windows.push(handle);
        proof {
            if self.active is Some {
                let w = self.active.unwrap();
                let i = choose|i: int| 0 <= i < old(self).windows@.len() && old(
                    self,
                ).windows@[i] == w;
                assert(self.windows@[i] == w);
                assert(self.windows@.contains(w));
            }
        }
    }

    /// Switches the active context to the first enumerated window; entering
    /// a window lands at its top document.
    pub fn switch_to_first(&mut self)
        requires
            old(self).wf(),
            old(self).windows@.len() > 0,
        ensures
            final(self).wf(),
            final(self).windows@ == old(self).windows@,
            final(self).active == Some(old(self).windows@[0]),
            final(self).frame_depth == 0,
    {
        let w = self.windows[0];
        self.active = Some(w);
        self.frame_depth = 0;
    }

    /// Switches the active context to the last enumerated window; entering
    /// a window lands at its top document.
    pub fn switch_to_last(&mut self)
        requires
            old(self).wf(),
            old(self).windows@.len() > 0,
        ensures
            final(self).wf(),
            final(self).windows@ == old(self).windows@,
            final(self).active == Some(old(self).windows@[old(self).windows@.len() - 1]),
            final(self).frame_depth == 0,
    {
        let w = self.windows[self.windows.len() - 1];
        self.active = Some(w);
        self.frame_depth = 0;
    }

    /// Closes the active window: the first enumerated window with its handle
    /// leaves the order, and no window is active until the next switch.
    pub fn close_active(&mut self)
        requires
            old(self).wf(),
            old(self).active is Some,
        ensures
            final(self).wf(),
            final(self).active is None,
            final(self).frame_depth == old(self).frame_depth,
            exists|i: int|
                #![auto]
                {
                    &&& 0 <= i < old(self).windows@.len()
                    &&& old(self).windows@[i] == old(self).active.unwrap()
                    &&& (forall|j: int| 0 <= j < i ==> old(self).windows@[j] != old(
                        self,
                    ).active.unwrap())
                    &&& final(self).windows@ == old(self).windows@.remove(i)
                },
    {
        let w = self.active.unwrap();
        let mut i: usize = 0;
        while i < self.windows.len() && self.windows[i] != w
            invariant
                0 <= i <= self.windows@.len(),
                forall|j: int| 0 <= j < i ==> self.windows@[j] != w,
                self.windows@ == old(self).windows@,
                self.active == old(self).active,
                self.frame_depth == old(self).frame_depth,
                old(self).wf(),
                old(self).active is Some,
                w == old(self).active.unwrap(),
            decreases self.windows@.len() - i,
        {
            i += 1;
        }
        proof {
            assert(self.windows@.contains(w));
            if i == self.windows@.len() {
                let k = choose|k: int| 0 <= k < self.windows@.len() && self.windows@[k] == w;
                assert(self.windows@[k] != w);
            }
        }
        let ghost found: int = i as int;
        self.windows.remove(i);
        self.active = None;
        proof {
            assert(0 <= found < old(self).windows@.len() && old(self).windows@[found] == w && (
            forall|j: int| 0 <= j < found ==> old(self).windows@[j] != w) && self.windows@ == old(
                self,
            ).windows@.remove(found));
        }
    }

    /// Descends one level into an embedded frame of the active page.
    pub fn enter_frame(&mut self)
        requires
            old(self).wf(),
            old(self).frame_depth < usize::MAX,
        ensures
            final(self).wf(),
            final(self).windows@ == old(self).windows@,
            final(self).active == old(self).active,
            final(self).frame_depth == old(self).frame_depth + 1,
    {
        self.frame_depth = self.frame_depth + 1;
    }
}

/// The checkpoint-bypass protocol, strictly ordered: open a tab to the
/// candidate page, close the first enumerated window as a stale decoy, keep
/// the last remaining window as the active context, descend into the first
/// embedded frame, and confirm the checkpoint control became interactive so
/// it can be clicked once. `frame_count` and `control_interactive` are what
/// the driver reports of the focused page; the window bookkeeping is exact
/// for every input, and failure at any step is fatal with the step's own
/// error.
pub fn bypass_challenge(
    ctx: &mut SessionContext,
    new_handle: u64,
    frame_count: usize,
    control_interactive: bool,
) -> (r: Result<(), ScrapeError>)
    requires
        old(ctx).wf(),
    ensures
        final(ctx).wf(),
        final(ctx).windows@ == spec_close_first(spec_open_tab(old(ctx).windows@, new_handle)),
        match r {
            Ok(()) => {
                &&& old(ctx).windows@.len() >= 1
                &&& frame_count >= 1
                &&& control_interactive
                &&& final(ctx).active == Some(new_handle)
                &&& final(ctx).frame_depth == 1
            },
            Err(e) => if old(ctx).windows@.len() == 0 {
                e == ScrapeError::WindowMissing && final(ctx).active is None
            } else if frame_count == 0 {
                &&& e == ScrapeError::FrameMissing
                &&& final(ctx).active == Some(new_handle)
                &&& final(ctx).frame_depth == 0
            } else {
                &&& !control_interactive
                &&& e == ScrapeError::ControlNotInteractive
                &&& final(ctx).active == Some(new_handle)
                &&& final(ctx).frame_depth == 1
            },
        },
{
    let ghost ws1 = spec_open_tab(old(ctx).windows@, new_handle);
    ctx.open_tab(new_handle);
    ctx.switch_to_first();
    ctx.close_active();
    proof {
        let i = choose|i: int|
            #![auto]
            {
                &&& 0 <= i < ws1.len()
                &&& ws1[i] == ws1[0]
                &&& (forall|j: int| 0 <= j < i ==> #[trigger] ws1[j] != ws1[0])
                &&& ctx.windows@ == ws1.remove(i)
            };
        assert(i == 0);
        assert(ws1.remove(0) =~= ws1.skip(1));
    }
    if ctx.windows.len() == 0 {
        return Err(ScrapeError::WindowMissing);
    }
    ctx.switch_to_last();
    proof {
        assert(ctx.windows@[ctx.windows@.len() - 1] == ws1[ws1.len() - 1]);
        assert(ctx.windows@[ctx.windows@.len() - 1] == new_handle);
    }
    if frame_count == 0 {
        return Err(ScrapeError::FrameMissing);
    }
    ctx.enter_frame();
    if !control_interactive {
        return Err(ScrapeError::ControlNotInteractive);
    }
    Ok(())
}

/// The bypass window protocol on a session with a single open window:
/// opening the candidate tab makes two windows; closing the first leaves
/// one; the one left is the newly opened tab, so it is what the protocol
/// keeps as the active context.
pub proof fn lemma_bypass_single_window(w0: u64, w1: u64)
    ensures
        spec_open_tab(seq![w0], w1).len() == 2,
        spec_close_first(spec_open_tab(seq![w0], w1)).len() == 1,
        spec_close_first(spec_open_tab(seq![w0], w1)) == seq![w1],
{
    assert(spec_close_first(spec_open_tab(seq![w0], w1)) =~= seq![w1]);
}

/// Resolves the direct-download link: the active window is re-resolved to
/// whichever window is now last, and the link attribute read there is
/// required — its absence is fatal, with no synthetic fallback.
pub fn resolve_direct_link(ctx: &mut SessionContext, href: Option<String>) -> (r: Result<
    String,
    ScrapeError,
>)
    requires
        old(ctx).wf(),
    ensures
        final(ctx).wf(),
        final(ctx).windows@ == old(ctx).windows@,
        match r {
            Ok(link) => {
                &&& old(ctx).windows@.len() > 0
                &&& final(ctx).active == Some(old(ctx).windows@[old(ctx).windows@.len() - 1])
                &&& href matches Some(h) && link == h
            },
            Err(e) => if old(ctx).windows@.len() == 0 {
                e == ScrapeError::WindowMissing && final(ctx).active == old(ctx).active
            } else {
                &&& e == ScrapeError::LinkAttributeAbsent
                &&& href is None
                &&& final(ctx).active == Some(old(ctx).windows@[old(ctx).windows@.len() - 1])
            },
        },
{
    if ctx.windows.len() == 0 {
        return Err(ScrapeError::WindowMissing);
    }
    ctx.switch_to_last();
    match href {
        Some(h) => Ok(h),
        None => Err(ScrapeError::LinkAttributeAbsent),
    }
}

} // verus!
