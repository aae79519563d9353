//! Splitting a recording into overlapping windows.
//!
//! A window starts every `stride` samples, where `stride` is the window
//! length less the overlap. Every window but the last has the full length;
//! the last one ends where the recording ends. Neighbouring windows share
//! exactly `overlap` samples, so that a word cut by one window is whole in
//! the next.

use vstd::prelude::*;

verus! {

/// One window of a recording.
#[derive(Debug)]
pub struct AudioChunk<T> {
    /// The samples of the window.
    pub samples: Vec<T>,
    /// The position of the window's first sample in the recording.
    pub start_sample: usize,
    /// The time of the window's first sample, in whole milliseconds; times
    /// too large for the type are held at its largest value.
    pub offset_ms: u64,
}

/// Why a recording could not be split.
#[derive(Debug, Clone, Copy, PartialEq, Eq)]
pub enum ChunkError {
    /// The overlap is not shorter than the window, in samples: windows could
    /// not advance.
    OverlapNotShorterThanChunk,
}

/// The number of samples that last `duration_ms` at `sample_rate` samples a
/// second, cut off to a whole number.
pub open spec fn samples_in(duration_ms: nat, sample_rate: nat) -> nat {
    duration_ms * sample_rate / 1000
}

/// The time of sample `position` in whole milliseconds, as far as `u64` holds it.
pub open spec fn offset_of(position: nat, sample_rate: nat) -> nat {
    if sample_rate == 0 {
        0
    } else if position * 1000 / sample_rate > u64::MAX {
        u64::MAX as nat
    } else {
        position * 1000 / sample_rate
    }
}

/// Where window `k` ends in a recording of `total` samples.
pub open spec fn window_end(k: nat, size: nat, stride: nat, total: nat) -> nat {
    if k * stride + size >= total {
        total
    } else {
        k * stride + size
    }
}

/// Whether `chunks` are the windows of `samples`, for a window of `size`
/// samples that advances by `stride`.
pub open spec fn is_windowing<T>(
    chunks: Seq<AudioChunk<T>>,
    samples: Seq<T>,
    size: nat,
    stride: nat,
    sample_rate: nat,
) -> bool {
    &&& (samples.len() == 0 <==> chunks.len() == 0)
    &&& forall|k: int|
        0 <= k < chunks.len() ==> {
            &&& (#[trigger] chunks[k]).start_sample == k * stride
            &&& k * stride < samples.len()
            &&& chunks[k].samples@ == samples.subrange(
                k * stride,
                window_end(k as nat, size, stride, samples.len()) as int,
            )
            &&& chunks[k].offset_ms == offset_of((k * stride) as nat, sample_rate)
            &&& (k + 1 < chunks.len() ==> k * stride + size < samples.len())
        }
    &&& chunks.len() > 0 ==> (chunks.len() - 1) * stride + size >= samples.len()
}

/// Whether sample `position` of the recording lies in one of the windows.
pub open spec fn in_some_window<T>(chunks: Seq<AudioChunk<T>>, position: int) -> bool {
    exists|k: int|
        0 <= k < chunks.len() && (#[trigger] chunks[k]).start_sample <= position
            < chunks[k].start_sample + chunks[k].samples.len()
}

/// The windows of a recording leave no gap and overlap by the configured
/// amount: the first starts at the first sample, the last ends with the last
/// sample, each window but the last has the full length, and each next window
/// starts exactly `size - stride` samples before the end of the one before.
/// So every sample lies in some window.
pub proof fn lemma_windows_cover<T>(
    chunks: Seq<AudioChunk<T>>,
    samples: Seq<T>,
    size: nat,
    stride: nat,
    sample_rate: nat,
)
    requires
        is_windowing(chunks, samples, size, stride, sample_rate),
        0 < stride <= size,
    ensures
        chunks.len() > 0 ==> chunks[0].start_sample == 0,
        chunks.len() > 0 ==> chunks.last().start_sample + chunks.last().samples.len()
            == samples.len(),
        forall|k: int|
            0 <= k < chunks.len() - 1 ==> (#[trigger] chunks[k]).samples.len() == size,
        forall|k: int|
            0 <= k < chunks.len() - 1 ==> (#[trigger] chunks[k]).start_sample
                + chunks[k].samples.len() - chunks[k + 1].start_sample == size - stride,
        forall|p: int| 0 <= p < samples.len() ==> #[trigger] in_some_window(chunks, p),
{
    let n = chunks.len() as int;
    assert forall|k: int| 0 <= k < n implies (#[trigger] chunks[k]).samples.len() == window_end(
        k as nat,
        size,
        stride,
        samples.len(),
    ) - k * stride by {
        assert(chunks[k].start_sample == k * stride);
    }
    assert forall|k: int| 0 <= k < n - 1 implies (#[trigger] chunks[k]).start_sample
        + chunks[k].samples.len() - chunks[k + 1].start_sample == size - stride by {
        assert(chunks[k].start_sample == k * stride);
        assert(chunks[k + 1].start_sample == (k + 1) * stride);
        assert((k + 1) * stride == k * stride + stride) by (nonlinear_arith);
    }
    if n > 0 {
        assert(chunks[0].start_sample == 0 * stride);
        assert(chunks[n - 1].start_sample == (n - 1) * stride);
    }
    assert forall|p: int| 0 <= p < samples.len() implies #[trigger] in_some_window(chunks, p) by {
        lemma_window_of(chunks, samples, size, stride, sample_rate, p, n - 1);
    }
}

/// Sample `p` lies in one of the windows `0..=last` when it lies before the
/// end of window `last`.
proof fn lemma_window_of<T>(
    chunks: Seq<AudioChunk<T>>,
    samples: Seq<T>,
    size: nat,
    stride: nat,
    sample_rate: nat,
    p: int,
    last: int,
)
    requires
        is_windowing(chunks, samples, size, stride, sample_rate),
        0 < stride <= size,
        0 <= last < chunks.len(),
        0 <= p < window_end(last as nat, size, stride, samples.len()),
    ensures
        in_some_window(chunks, p),
    decreases last,
{
    assert(chunks[last].start_sample == last * stride);
    if last * stride <= p {
        assert(chunks[last].start_sample <= p < chunks[last].start_sample
            + chunks[last].samples.len());
    } else {
        assert(last > 0) by {
            assert(0 * stride == 0);
        }
        assert(last * stride == (last - 1) * stride + stride) by (nonlinear_arith);
        assert(chunks[last - 1].start_sample == (last - 1) * stride);
        lemma_window_of(chunks, samples, size, stride, sample_rate, p, last - 1);
    }
}

/// An overlap that lasts as long as the window, or longer, is never shorter
/// in samples either.
pub proof fn lemma_long_overlap_is_refused(chunk_ms: nat, overlap_ms: nat, sample_rate: nat)
    requires
        overlap_ms >= chunk_ms,
    ensures
        samples_in(chunk_ms, sample_rate) <= samples_in(overlap_ms, sample_rate),
{
    assert(chunk_ms * sample_rate <= overlap_ms * sample_rate) by (nonlinear_arith)
        requires
            overlap_ms >= chunk_ms,
    ;
    assert(chunk_ms * sample_rate / 1000 <= overlap_ms * sample_rate / 1000) by (nonlinear_arith)
        requires
            chunk_ms * sample_rate <= overlap_ms * sample_rate,
    ;
}

fn offset_ms_of(position: usize, sample_rate: u32) -> (ms: u64)
    requires
        sample_rate > 0,
    ensures
        ms == offset_of(position as nat, sample_rate as nat),
{
    let exact: u128 = position as u128 * 1000 / sample_rate as u128;
    if exact > u64::MAX as u128 {
        u64::MAX
    } else {
        exact as u64
    }
}

fn copy_window<T: Copy>(samples: &[T], from: usize, to: usize) -> (window: Vec<T>)
    requires
        from <= to <= samples.len(),
    ensures
        window@ == samples@.subrange(from as int, to as int),
{
    let mut window: Vec<T> = Vec::new();
    let mut i: usize = from;
    while i < to
        invariant
            from <= i <= to <= samples.len(),
            window@ == samples@.subrange(from as int, i as int),
        decreases to - i,
    {
        window.push(samples[i]);
        i += 1;
    }
    window
}

/// Splits `samples`, recorded at `sample_rate` samples a second, into windows
/// of `chunk_ms` milliseconds that overlap by `overlap_ms` milliseconds.
///
/// Both durations are turned into whole numbers of samples first. A
/// recording without samples has no windows.
pub fn split_into_chunks<T: Copy>(
    samples: &[T],
    sample_rate: u32,
    chunk_ms: u64,
    overlap_ms: u64,
) -> (result: Result<Vec<AudioChunk<T>>, ChunkError>)
    ensures
        result is Err <==> samples_in(chunk_ms as nat, sample_rate as nat) <= samples_in(
            overlap_ms as nat,
            sample_rate as nat,
        ),
        overlap_ms >= chunk_ms ==> result is Err,
        result matches Ok(chunks) ==> is_windowing(
            chunks@,
            samples@,
            samples_in(chunk_ms as nat, sample_rate as nat),
            (samples_in(chunk_ms as nat, sample_rate as nat) - samples_in(
                overlap_ms as nat,
                sample_rate as nat,
            )) as nat,
            sample_rate as nat,
        ),
{
    assert(chunk_ms as u128 * sample_rate as u128 <= 0xFFFF_FFFF_FFFF_FFFF * 0xFFFF_FFFF)
        by (nonlinear_arith)
        requires
            chunk_ms <= 0xFFFF_FFFF_FFFF_FFFF,
            sample_rate <= 0xFFFF_FFFF,
    ;
    assert(overlap_ms as u128 * sample_rate as u128 <= 0xFFFF_FFFF_FFFF_FFFF * 0xFFFF_FFFF)
        by (nonlinear_arith)
        requires
            overlap_ms <= 0xFFFF_FFFF_FFFF_FFFF,
            sample_rate <= 0xFFFF_FFFF,
    ;
    let size: u128 = chunk_ms as u128 * sample_rate as u128 / 1000;
    let overlap: u128 = overlap_ms as u128 * sample_rate as u128 / 1000;
    proof {
        if overlap_ms >= chunk_ms {
            lemma_long_overlap_is_refused(chunk_ms as nat, overlap_ms as nat, sample_rate as nat);
        }
    }
    if size <= overlap {
        return Err(ChunkError::OverlapNotShorterThanChunk);
    }
    assert(sample_rate > 0) by {
        if sample_rate == 0 {
            assert(chunk_ms as u128 * 0 == 0);
        }
    }
    let stride: u128 = size - overlap;
    let total: usize = samples.len();
    let mut chunks: Vec<AudioChunk<T>> = Vec::new();
    if total == 0 {
        return Ok(chunks);
    }
    let mut start: usize = 0;
    assert(0 * stride == 0);
    loop
        invariant_except_break
            start < total,
            start == chunks.len() * stride,
            forall|k: int|
                0 <= k < chunks.len() ==> {
                    &&& (#[trigger] chunks[k]).start_sample == k * stride
                    &&& k * stride < total
                    &&& chunks[k].samples@ == samples@.subrange(
                        k * stride,
                        window_end(k as nat, size as nat, stride as nat, total as nat) as int,
                    )
                    &&& chunks[k].offset_ms == offset_of((k * stride) as nat, sample_rate as nat)
                    &&& k * stride + size < total
                },
        invariant
            0 < stride <= size,
            size == samples_in(chunk_ms as nat, sample_rate as nat),
            stride == size - samples_in(overlap_ms as nat, sample_rate as nat),
            total == samples.len(),
            total > 0,
            sample_rate > 0,
        ensures
            is_windowing(chunks@, samples@, size as nat, stride as nat, sample_rate as nat),
        decreases total - start,
    {
        let ghost k = chunks.len() as int;
        let remaining: usize = total - start;
        let reaches_end = size >= remaining as u128;
        let end: usize = if reaches_end {
            total
        } else {
            start + size as usize
        };
        let window = copy_window(samples, start, end);
        let ghost before = chunks@;
        assert(forall|j: int|
            0 <= j < before.len() ==> (#[trigger] before[j]).start_sample == j * stride && j
                * stride + size < total);
        chunks.push(
            AudioChunk { samples: window, start_sample: start, offset_ms: offset_ms_of(
                start,
                sample_rate,
            ) },
        );
        assert(chunks[k].start_sample == k * stride);
        if reaches_end {
            proof {
                assert(chunks@.len() == k + 1);
                assert(k * stride + size >= total);
                assert(window_end(k as nat, size as nat, stride as nat, total as nat) == total);
                assert(chunks[k].samples@ == samples@.subrange(k * stride, total as int));
                assert forall|j: int| 0 <= j < chunks.len() implies {
                    &&& (#[trigger] chunks[j]).start_sample == j * stride
                    &&& j * stride < total
                    &&& chunks[j].samples@ == samples@.subrange(
                        j * stride,
                        window_end(j as nat, size as nat, stride as nat, total as nat) as int,
                    )
                    &&& chunks[j].offset_ms == offset_of((j * stride) as nat, sample_rate as nat)
                    &&& (j + 1 < chunks.len() ==> j * stride + size < total)
                } by {
                    if j < k {
                        assert(chunks[j] == before[j]);
                        assert(before[j].start_sample == j * stride);
                        assert(j * stride + size < total);
                    } else {
                        assert(j == k);
                    }
                }
                assert((chunks.len() - 1) * stride + size >= samples.len());
            }
            break ;
        }
        proof {
            assert((k + 1) * stride == k * stride + stride) by (nonlinear_arith);
        }
        start = start + stride as usize;
    }
    Ok(chunks)
}

} // verus!
