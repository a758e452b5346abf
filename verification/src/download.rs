//! Progress accounting for the streaming download: a transfer must advertise
//! its total size up front or it is refused before any byte is written; each
//! arriving chunk is accounted in order, and the cumulative count reported
//! after each chunk never decreases.

use vstd::prelude::*;
use crate::ScrapeError;

verus! {

/// The progress state of one transfer: the advertised total and the bytes
/// received so far.
#[derive(Debug)]
pub struct DownloadProgress {
    pub total: u64,
    pub received: u64,
}

/// One event on the byte stream: a chunk of a known size arrived, or the
/// stream failed mid-transfer.
#[derive(Clone, Copy, Debug, PartialEq, Eq, Structural)]
pub enum ChunkEvent {
    Data(u64),
    Interrupted,
}

/// Begins progress accounting. A response without an advertised content
/// length is refused: progress could not be computed, so the operation
/// refuses to proceed before any byte is written.
pub fn start_download(content_length: Option<u64>) -> (r: Result<DownloadProgress, ScrapeError>)
    ensures
        match r {
            Ok(p) => content_length == Some(p.total) && p.received == 0,
            Err(e) => content_length is None && e == ScrapeError::MissingContentLength,
        },
{
    match content_length {
        Some(total) => Ok(DownloadProgress { total, received: 0 }),
        None => Err(ScrapeError::MissingContentLength),
    }
}

/// Accounts one received chunk: the cumulative count grows by the chunk's
/// size and in particular never decreases.
pub fn record_chunk(p: &mut DownloadProgress, len: u64)
    requires
        old(p).received + len <= u64::MAX,
    ensures
        final(p).total == old(p).total,
        final(p).received == old(p).received + len,
        final(p).received >= old(p).received,
{
    p.received = p.received + len;
}

/// The sizes of every data chunk among the events, summed.
pub open spec fn sum_data(chunks: Seq<ChunkEvent>) -> int
    decreases chunks.len(),
{
    if chunks.len() == 0 {
        0
    } else {
        match chunks[0] {
            ChunkEvent::Data(n) => n + sum_data(chunks.skip(1)),
            ChunkEvent::Interrupted => sum_data(chunks.skip(1)),
        }
    }
}

/// The cumulative counts reported while the stream is drained from a base
/// count: one report after each data chunk, stopping at the first
/// interruption.
pub open spec fn spec_reports(chunks: Seq<ChunkEvent>, base: int) -> Seq<u64>
    decreases chunks.len(),
{
    if chunks.len() == 0 {
        Seq::empty()
    } else {
        match chunks[0] {
            ChunkEvent::Data(n) => seq![((base + n) as u64)] + spec_reports(
                chunks.skip(1),
                base + n,
            ),
            ChunkEvent::Interrupted => Seq::empty(),
        }
    }
}

/// Whether the stream drains without interruption, and the error otherwise.
pub open spec fn spec_outcome(chunks: Seq<ChunkEvent>) -> Result<(), ScrapeError>
    decreases chunks.len(),
{
    if chunks.len() == 0 {
        Ok(())
    } else {
        match chunks[0] {
            ChunkEvent::Data(_) => spec_outcome(chunks.skip(1)),
            ChunkEvent::Interrupted => Err(ScrapeError::TransferInterrupted),
        }
    }
}

proof fn lemma_sum_data_nonneg(chunks: Seq<ChunkEvent>)
    ensures
        sum_data(chunks) >= 0,
    decreases chunks.len(),
{
    if chunks.len() > 0 {
        lemma_sum_data_nonneg(chunks.skip(1));
    }
}

fn stream_from(received: u64, chunks: &Vec<ChunkEvent>, i: usize) -> (r: (Vec<u64>, Result<
    (),
    ScrapeError,
>))
    requires
        i <= chunks@.len(),
        received + sum_data(chunks@.skip(i as int)) <= u64::MAX,
    ensures
        r.0@ == spec_reports(chunks@.skip(i as int), received as int),
        r.1 == spec_outcome(chunks@.skip(i as int)),
    decreases chunks@.len() - i,
{
    let ghost suffix = chunks@.skip(i as int);
    if i == chunks.len() {
        proof {
            assert(suffix =~= Seq::<ChunkEvent>::empty());
        }
        return (Vec::new(), Ok(()));
    }
    proof {
        assert(suffix[0] == chunks@[i as int]);
        assert(suffix.skip(1) =~= chunks@.skip(i as int + 1));
        lemma_sum_data_nonneg(chunks@.skip(i as int + 1));
    }
    match chunks[i] {
        ChunkEvent::Interrupted => (Vec::new(), Err(ScrapeError::TransferInterrupted)),
        ChunkEvent::Data(n) => {
            let now = received + n;
            let (mut rest, outcome) = stream_from(now, chunks, i + 1);
            rest.insert(0, now);
            proof {
                assert(rest@ =~= seq![now] + spec_reports(
                    chunks@.skip(i as int + 1),
                    now as int,
                ));
            }
            (rest, outcome)
        },
    }
}

/// Drives one transfer's accounting: a missing content length is refused
/// before any byte, and otherwise each chunk is accounted in arrival order,
/// with the cumulative count reported after each chunk, stopping at the
/// first interruption. The reports and the outcome are exact functions of
/// the inputs.
pub fn run_transfer(content_length: Option<u64>, chunks: &Vec<ChunkEvent>) -> (r: (Vec<u64>, Result<
    (),
    ScrapeError,
>))
    requires
        content_length is Some ==> sum_data(chunks@) <= u64::MAX,
    ensures
        content_length is None ==> r.0@ == Seq::<u64>::empty() && r.1 == Err::<(), ScrapeError>(
            ScrapeError::MissingContentLength,
        ),
        content_length is Some ==> r.0@ == spec_reports(chunks@, 0) && r.1 == spec_outcome(
            chunks@,
        ),
{
    let progress = match start_download(content_length) {
        Ok(p) => p,
        Err(e) => {
            return (Vec::new(), Err(e));
        },
    };
    proof {
        assert(chunks@.skip(0) =~= chunks@);
    }
    stream_from(progress.received, chunks, 0)
}

/// Progress reporting is monotone: from any base count, each report is at
/// least the base and at least every report before it; and when the stream
/// drains without interruption there is one report per chunk and the last
/// report equals the base plus every byte received.
pub proof fn lemma_reports_monotone(chunks: Seq<ChunkEvent>, base: int)
    requires
        0 <= base,
        base + sum_data(chunks) <= u64::MAX,
    ensures
        forall|i: int| 0 <= i < spec_reports(chunks, base).len() ==> base <= #[trigger] spec_reports(
            chunks,
            base,
        )[i],
        forall|i: int, j: int|
            0 <= i <= j < spec_reports(chunks, base).len() ==> #[trigger] spec_reports(
                chunks,
                base,
            )[i] <= #[trigger] spec_reports(chunks, base)[j],
        spec_outcome(chunks) is Ok ==> spec_reports(chunks, base).len() == chunks.len(),
        spec_outcome(chunks) is Ok && chunks.len() > 0 ==> spec_reports(chunks, base).last()
            == base + sum_data(chunks),
    decreases chunks.len(),
{
    if chunks.len() > 0 {
        match chunks[0] {
            ChunkEvent::Data(n) => {
                lemma_sum_data_nonneg(chunks.skip(1));
                lemma_reports_monotone(chunks.skip(1), base + n);
                let reports = spec_reports(chunks, base);
                let rest = spec_reports(chunks.skip(1), base + n);
                assert(reports =~= seq![((base + n) as u64)] + rest);
                assert(reports[0] == base + n);
                assert forall|k: int| 1 <= k < reports.len() implies #[trigger] reports[k]
                    == rest[k - 1] by {}
                assert forall|i: int| 0 <= i < reports.len() implies base <= #[trigger] reports[i] by {
                    if i > 0 {
                        assert(reports[i] == rest[i - 1]);
                        assert(base + n <= rest[i - 1]);
                    }
                }
                assert forall|i: int, j: int| 0 <= i <= j < reports.len() implies #[trigger] reports[i]
                    <= #[trigger] reports[j] by {
                    if i == 0 {
                        if j > 0 {
                            assert(reports[j] == rest[j - 1]);
                            assert(base + n <= rest[j - 1]);
                        }
                    } else {
                        assert(reports[i] == rest[i - 1]);
                        assert(reports[j] == rest[j - 1]);
                        assert(rest[i - 1] <= rest[j - 1]);
                    }
                }
                if spec_outcome(chunks) is Ok {
                    assert(reports.len() == chunks.len());
                    if chunks.skip(1).len() > 0 {
                        assert(reports.last() == rest.last());
                        assert(rest.last() == base + n + sum_data(chunks.skip(1)));
                    } else {
                        assert(reports.last() == base + n);
                        assert(sum_data(chunks.skip(1)) == 0);
                    }
                }
            },
            ChunkEvent::Interrupted => {
            },
        }
    }
}

} // verus!
