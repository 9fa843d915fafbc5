use vstd::prelude::*;

verus! {

/// The native encodings a capture stream may deliver samples in.
#[derive(Clone, Copy, Debug, PartialEq, Eq, Structural)]
pub enum SampleEncoding {
    Signed16,
    Unsigned16,
    Float32,
}

/// Keeps the first channel's sample of each complete interleaved frame of
/// `channel_count` samples; a trailing incomplete frame is not a frame.
pub fn first_channel<T: Copy>(batch: &[T], channel_count: usize) -> (r: Vec<T>)
    requires
        channel_count >= 1,
    ensures
        r@.len() == batch@.len() / (channel_count as nat),
        forall|i: int| 0 <= i < r@.len() ==> r@[i] == batch@[i * channel_count],
{
    let frames = batch.len() / channel_count;
    let mut out: Vec<T> = Vec::with_capacity(frames);
    let mut pos: usize = 0;
    while out.len() < frames
        invariant
            channel_count >= 1,
            frames == batch@.len() / (channel_count as nat),
            out@.len() <= frames,
            pos == out@.len() * channel_count,
            forall|i: int| 0 <= i < out@.len() ==> out@[i] == batch@[i * channel_count],
        decreases frames - out@.len(),
    {
        let ghost k = out@.len();
        assert(pos + channel_count <= batch@.len()) by (nonlinear_arith)
            requires
                pos == k * channel_count,
                k < frames,
                frames == batch@.len() / (channel_count as nat),
                channel_count >= 1,
        {
            assert(frames * channel_count <= batch@.len());
            assert((k + 1) * channel_count <= frames * channel_count);
        }
        out.push(batch[pos]);
        pos = pos + channel_count;
        assert(pos == out@.len() * channel_count) by (nonlinear_arith)
            requires
                pos == k * channel_count + channel_count,
                out@.len() == k + 1,
        ;
    }
    out
}

/// An unsigned 16-bit sample moved to the signed range: midpoint 32768 becomes 0.
pub open spec fn recentered(x: u16) -> i16 {
    (x as int - 32768) as i16
}

pub fn recenter(x: u16) -> (r: i16)
    ensures
        r == recentered(x),
        r as int == x as int - 32768,
{
    if x < 32768 {
        (x as i16) - 32767 - 1
    } else {
        (x - 32768) as i16
    }
}

/// Mono signed 16-bit frames from signed 16-bit interleaved samples: the
/// first channel's sample passes through unchanged.
pub fn normalize_signed16(batch: &[i16], channel_count: usize) -> (r: Vec<i16>)
    requires
        channel_count >= 1,
    ensures
        r@.len() == batch@.len() / (channel_count as nat),
        forall|i: int| 0 <= i < r@.len() ==> r@[i] == batch@[i * channel_count],
        channel_count == 1 ==> r@ == batch@,
{
    let r = first_channel(batch, channel_count);
    if channel_count == 1 {
        assert(r@ =~= batch@);
    }
    r
}

/// Mono signed 16-bit frames from unsigned 16-bit interleaved samples: the
/// first channel's sample is re-centred around zero.
pub fn normalize_unsigned16(batch: &[u16], channel_count: usize) -> (r: Vec<i16>)
    requires
        channel_count >= 1,
    ensures
        r@.len() == batch@.len() / (channel_count as nat),
        forall|i: int|
            0 <= i < r@.len() ==> r@[i] as int == batch@[i * channel_count] as int - 32768,
{
    let firsts = first_channel(batch, channel_count);
    let mut out: Vec<i16> = Vec::with_capacity(firsts.len());
    let mut i: usize = 0;
    while i < firsts.len()
        invariant
            i <= firsts@.len(),
            out@.len() == i,
            forall|j: int| 0 <= j < i ==> out@[j] as int == firsts@[j] as int - 32768,
        decreases firsts@.len() - i,
    {
        out.push(recenter(firsts[i]));
        i = i + 1;
    }
    out
}

} // verus!
