//! The pager for the lodging site's result pages: a two-state machine that
//! always extracts the current page and advances only while the "next page"
//! control is present and interactive. Termination needs no retry bound: each
//! advance consumes one concrete page, and a control that is absent or
//! disabled ends the run after one last extraction pass.

use vstd::prelude::*;
use crate::ScrapeError;
use crate::listing::{
    ListingFields,
    ListingRecord,
    RecordSnapshot,
    all_ok,
    page_error,
    spec_extract,
    extract_page,
};

verus! {

/// The observed state of the "next page" control.
#[derive(Clone, Copy, Debug, PartialEq, Eq, Structural)]
pub enum NextControl {
    /// The control was not found on the page.
    Absent,
    /// The control exists but reports a non-interactive state.
    Disabled,
    /// The control exists and is interactive.
    Interactive,
}

/// The pager's two states.
#[derive(Clone, Copy, Debug, PartialEq, Eq, Structural)]
pub enum PagerState {
    MorePages,
    Done,
}

/// The transition rule: only an interactive control promises more pages.
pub open spec fn spec_pager_step(ctrl: NextControl) -> PagerState {
    if ctrl == NextControl::Interactive {
        PagerState::MorePages
    } else {
        PagerState::Done
    }
}

/// Decides from the control's observed state whether the run advances after
/// extracting the current page. An absent or disabled control ends the run;
/// either way the current page is extracted first.
pub fn pager_step(ctrl: NextControl) -> (r: PagerState)
    ensures
        r == spec_pager_step(ctrl),
{
    match ctrl {
        NextControl::Interactive => PagerState::MorePages,
        NextControl::Absent => PagerState::Done,
        NextControl::Disabled => PagerState::Done,
    }
}

/// One observed result page: its listing containers and the observed state
/// of the "next page" control.
pub struct PageObservation {
    pub listings: Vec<ListingFields>,
    pub next: NextControl,
}

/// The outcome of a paginated run over a sequence of observed pages: each
/// visited page is extracted once, in order; the run advances past a page
/// only while its control is interactive; an interactive control with no
/// page behind it means the promised page never arrived.
pub open spec fn spec_paginate(pages: Seq<PageObservation>) -> Result<
    Seq<RecordSnapshot>,
    ScrapeError,
>
    decreases pages.len(),
{
    if pages.len() == 0 {
        Err(ScrapeError::PageUnavailable)
    } else if !all_ok(pages[0].listings@) {
        Err(page_error(pages[0].listings@))
    } else if pages[0].next == NextControl::Interactive {
        match spec_paginate(pages.skip(1)) {
            Ok(rest) => Ok(spec_extract(pages[0].listings@) + rest),
            Err(e) => Err(e),
        }
    } else {
        Ok(spec_extract(pages[0].listings@))
    }
}

/// The number of advances — clicks of the "next" control — a run over these
/// pages performs: one per page visited while its control is interactive,
/// none once a control is absent or disabled.
pub open spec fn spec_advances(pages: Seq<PageObservation>) -> int
    decreases pages.len(),
{
    if pages.len() == 0 {
        0
    } else if pages[0].next == NextControl::Interactive {
        1 + spec_advances(pages.skip(1))
    } else {
        0
    }
}

fn run_pages_from(pages: &Vec<PageObservation>, i: usize) -> (r: Result<
    Vec<ListingRecord>,
    ScrapeError,
>)
    requires
        i <= pages@.len(),
    ensures
        match r {
            Ok(recs) => spec_paginate(pages@.skip(i as int)) matches Ok(s) && recs@.map_values(
                |rec: ListingRecord| rec@,
            ) == s,
            Err(e) => spec_paginate(pages@.skip(i as int)) matches Err(e2) && e2 == e,
        },
    decreases pages@.len() - i,
{
    let ghost suffix = pages@.skip(i as int);
    if i == pages.len() {
        proof {
            assert(suffix =~= Seq::<PageObservation>::empty());
        }
        return Err(ScrapeError::PageUnavailable);
    }
    let page = &pages[i];
    proof {
        assert(suffix[0] == pages@[i as int]);
    }
    match extract_page(&page.listings) {
        Err(e) => Err(e),
        Ok(mut recs) => {
            let more = match pager_step(page.next) {
                PagerState::MorePages => true,
                PagerState::Done => false,
            };
            if more {
                match run_pages_from(pages, i + 1) {
                    Ok(mut rest) => {
                        let ghost front = recs@;
                        let ghost back = rest@;
                        recs.append(&mut rest);
                        proof {
                            assert(suffix.skip(1) =~= pages@.skip(i as int + 1));
                            assert(recs@.map_values(|rec: ListingRecord| rec@) =~= front.map_values(
                                |rec: ListingRecord| rec@,
                            ) + back.map_values(|rec: ListingRecord| rec@));
                        }
                        Ok(recs)
                    },
                    Err(e) => {
                        proof {
                            assert(suffix.skip(1) =~= pages@.skip(i as int + 1));
                        }
                        Err(e)
                    },
                }
            } else {
                Ok(recs)
            }
        },
    }
}

/// Runs the whole paginated extraction over a sequence of observed pages.
/// The contract is exact for every input: the result is what `spec_paginate`
/// says, so every visited page is extracted exactly once, in order.
pub fn run_pagination(pages: &Vec<PageObservation>) -> (r: Result<Vec<ListingRecord>, ScrapeError>)
    ensures
        match r {
            Ok(recs) => spec_paginate(pages@) matches Ok(s) && recs@.map_values(
                |rec: ListingRecord| rec@,
            ) == s,
            Err(e) => spec_paginate(pages@) matches Err(e2) && e2 == e,
        },
{
    proof {
        assert(pages@.skip(0) =~= pages@);
    }
    run_pages_from(pages, 0)
}

/// The pager invariant: over pages whose "next" control is interactive on
/// every page but the last, not interactive on the last, and whose
/// containers are all well-formed, the run succeeds, terminates, and emits
/// one extraction per page, in order — the concatenation of each page's
/// records — after exactly one advance per page but the last.
pub proof fn lemma_pager_visits_every_page(pages: Seq<PageObservation>)
    requires
        pages.len() > 0,
        forall|j: int| 0 <= j < pages.len() - 1 ==> pages[j].next == NextControl::Interactive,
        pages[pages.len() - 1].next != NextControl::Interactive,
        forall|j: int| 0 <= j < pages.len() ==> all_ok(pages[j].listings@),
    ensures
        spec_paginate(pages) matches Ok(out) && out == pages.map_values(
            |p: PageObservation| spec_extract(p.listings@),
        ).flatten(),
        spec_advances(pages) == pages.len() - 1,
    decreases pages.len(),
{
    let mapped = pages.map_values(|p: PageObservation| spec_extract(p.listings@));
    assert(all_ok(pages[0].listings@));
    if pages.len() == 1 {
        assert(pages[0].next != NextControl::Interactive);
        assert(mapped.drop_first() =~= Seq::<Seq<RecordSnapshot>>::empty());
        assert(mapped.flatten() == mapped.first() + mapped.drop_first().flatten());
        assert(mapped.first() == spec_extract(pages[0].listings@));
        assert(mapped.drop_first().flatten() == Seq::<RecordSnapshot>::empty());
        assert(spec_extract(pages[0].listings@) + Seq::<RecordSnapshot>::empty() =~= spec_extract(
            pages[0].listings@,
        ));
    } else {
        assert(pages[0].next == NextControl::Interactive);
        let rest = pages.skip(1);
        assert(rest[rest.len() - 1] == pages[pages.len() - 1]);
        lemma_pager_visits_every_page(rest);
        let rest_mapped = rest.map_values(|p: PageObservation| spec_extract(p.listings@));
        assert(rest_mapped =~= mapped.drop_first());
        assert(mapped.flatten() == mapped.first() + mapped.drop_first().flatten());
        assert(spec_paginate(pages) matches Ok(out) && out == mapped.flatten());
    }
}

} // verus!
