//! Reassembly of a raw byte stream into length-delimited frames.
//!
//! On the wire a frame is a 2-byte big-endian payload length followed by
//! that many payload bytes. Reads from the transport may split the stream
//! anywhere, so the decoder keeps the bytes that do not yet form a complete
//! frame and finishes them on later calls.

use vstd::prelude::*;

verus! {

/// The most bytes the decoder ever retains between calls: an incomplete
/// frame is at most a 2-byte prefix plus a 65535-byte payload minus one.
pub const SCRATCH_CAPACITY: usize = 65536;

/// The payload length announced by the first two bytes of `b`.
pub open spec fn spec_frame_len(b: Seq<u8>) -> int
    recommends
        b.len() >= 2,
{
    b[0] * 256 + b[1]
}

/// Whether `b` is an incomplete prefix of a frame stream: too short even
/// for the length prefix, or shorter than the frame it announces.
pub open spec fn spec_is_partial(b: Seq<u8>) -> bool {
    b.len() < 2 || b.len() < 2 + spec_frame_len(b)
}

/// The complete frames at the front of `b`, in order.
pub open spec fn spec_frames(b: Seq<u8>) -> Seq<Seq<u8>>
    decreases b.len(),
{
    if spec_is_partial(b) {
        Seq::empty()
    } else {
        let l = spec_frame_len(b);
        seq![b.subrange(2, 2 + l)] + spec_frames(b.skip(2 + l))
    }
}

/// What remains of `b` after every complete frame at the front is removed.
pub open spec fn spec_residue(b: Seq<u8>) -> Seq<u8>
    decreases b.len(),
{
    if spec_is_partial(b) {
        b
    } else {
        spec_residue(b.skip(2 + spec_frame_len(b)))
    }
}

pub proof fn lemma_residue_is_partial(b: Seq<u8>)
    ensures
        spec_is_partial(spec_residue(b)),
    decreases b.len(),
{
    if !spec_is_partial(b) {
        lemma_residue_is_partial(b.skip(2 + spec_frame_len(b)));
    }
}

/// Splitting a byte stream anywhere commutes with frame extraction: the
/// frames of `a + b` are the frames of `a` followed by the frames of `a`'s
/// leftover joined with `b`, and the leftovers agree. This is the step case
/// of chunk invariance.
pub proof fn lemma_feed_split(a: Seq<u8>, b: Seq<u8>)
    ensures
        spec_frames(a + b) == spec_frames(a) + spec_frames(spec_residue(a) + b),
        spec_residue(a + b) == spec_residue(spec_residue(a) + b),
    decreases a.len(),
{
    if spec_is_partial(a) {
        assert(spec_residue(a) == a);
        assert(spec_frames(a) == Seq::<Seq<u8>>::empty());
        assert(spec_frames(a + b) =~= spec_frames(a) + spec_frames(spec_residue(a) + b));
    } else {
        let l = spec_frame_len(a);
        let ab = a + b;
        assert(ab[0] == a[0] && ab[1] == a[1]);
        assert(spec_frame_len(ab) == l);
        assert(!spec_is_partial(ab));
        assert(ab.subrange(2, 2 + l) =~= a.subrange(2, 2 + l));
        assert(ab.skip(2 + l) =~= a.skip(2 + l) + b);
        lemma_feed_split(a.skip(2 + l), b);
        assert(spec_frames(a + b) =~= spec_frames(a) + spec_frames(spec_residue(a) + b));
    }
}

/// The frames produced when `chunks` are fed one after another to a decoder
/// whose retained bytes are `pending`.
pub open spec fn spec_frames_chunked(pending: Seq<u8>, chunks: Seq<Seq<u8>>) -> Seq<Seq<u8>>
    decreases chunks.len(),
{
    if chunks.len() == 0 {
        Seq::empty()
    } else {
        spec_frames(pending + chunks[0]) + spec_frames_chunked(
            spec_residue(pending + chunks[0]),
            chunks.skip(1),
        )
    }
}

/// Chunk invariance: however a byte sequence is split into contiguous
/// chunks, feeding the chunks in order yields exactly the frames of the
/// whole sequence fed at once.
pub proof fn lemma_chunk_invariance(pending: Seq<u8>, chunks: Seq<Seq<u8>>)
    requires
        spec_is_partial(pending),
    ensures
        spec_frames_chunked(pending, chunks) == spec_frames(pending + chunks.flatten()),
    decreases chunks.len(),
{
    if chunks.len() == 0 {
        assert(chunks.flatten() =~= Seq::<u8>::empty());
        assert(pending + chunks.flatten() =~= pending);
        assert(spec_frames(pending) == Seq::<Seq<u8>>::empty());
    } else {
        let c0 = chunks[0];
        let rest = chunks.skip(1);
        assert(chunks.flatten() == c0 + rest.flatten()) by {
            assert(chunks.drop_first() == rest);
        }
        let r = spec_residue(pending + c0);
        lemma_residue_is_partial(pending + c0);
        lemma_chunk_invariance(r, rest);
        lemma_feed_split(pending + c0, rest.flatten());
        assert(pending + chunks.flatten() =~= (pending + c0) + rest.flatten());
    }
}

/// The views of a list of produced frames.
pub open spec fn spec_frame_views(frames: Seq<Vec<u8>>) -> Seq<Seq<u8>> {
    frames.map_values(|f: Vec<u8>| f@)
}

/// The stateful frame decoder: retains the bytes of an incomplete frame
/// between calls, never more than [`SCRATCH_CAPACITY`] of them.
#[derive(Debug)]
pub struct RtpBuf {
    data: Vec<u8>,
}

impl RtpBuf {
    /// The retained bytes, for contracts.
    pub closed spec fn pending(self) -> Seq<u8> {
        self.data@
    }

    /// Between calls the retained bytes never form a complete frame, which
    /// also bounds them by [`SCRATCH_CAPACITY`].
    pub open spec fn wf(self) -> bool {
        spec_is_partial(self.pending())
    }

    pub proof fn lemma_wf_bounded(self)
        requires
            self.wf(),
        ensures
            self.pending().len() <= SCRATCH_CAPACITY,
    {
    }

    pub fn new() -> (r: RtpBuf)
        ensures
            r.wf(),
            r.pending() == Seq::<u8>::empty(),
    {
        let r = RtpBuf { data: Vec::new() };
        proof {
            assert(r.data@ =~= Seq::<u8>::empty());
        }
        r
    }

    /// Feed the bytes of one transport read and collect every frame they
    /// complete, in arrival order; whatever does not yet form a complete
    /// frame is retained for the next call.
    pub fn feed(&mut self, input: &[u8]) -> (frames: Vec<Vec<u8>>)
        requires
            old(self).wf(),
        ensures
            final(self).wf(),
            spec_frame_views(frames@) == spec_frames(old(self).pending() + input@),
            final(self).pending() == spec_residue(old(self).pending() + input@),
    {
        let ghost orig = self.data@ + input@;
        let mut i: usize = 0;
        while i < input.len()
            invariant
                i <= input.len(),
                self.data@ == old(self).data@ + input@.subrange(0, i as int),
            decreases input.len() - i,
        {
            self.data.push(input[i]);
            i += 1;
            proof {
                assert(old(self).data@ + input@.subrange(0, i - 1) + seq![input@[i - 1]]
                    =~= old(self).data@ + input@.subrange(0, i as int));
            }
        }
        proof {
            assert(input@.subrange(0, input@.len() as int) =~= input@);
            assert(self.data@ == orig);
        }

        let mut frames: Vec<Vec<u8>> = Vec::new();
        let mut done = false;
        while !done
            invariant
                spec_frames(orig) == spec_frame_views(frames@) + spec_frames(self.data@),
                spec_residue(orig) == spec_residue(self.data@),
                done ==> spec_is_partial(self.data@),
            decreases self.data@.len() + (if done { 0int } else { 1int }),
        {
            if self.data.len() < 2 {
                done = true;
            } else {
                let l: usize = (self.data[0] as usize) * 256 + (self.data[1] as usize);
                assert(l == spec_frame_len(self.data@));
                if self.data.len() < 2 + l {
                    done = true;
                } else {
                    let ghost before = self.data@;
                    let mut frame: Vec<u8> = Vec::new();
                    let mut j: usize = 2;
                    while j < 2 + l
                        invariant
                            l <= 65535,
                            2 <= j <= 2 + l,
                            2 + l <= self.data@.len(),
                            frame@ == self.data@.subrange(2, j as int),
                        decreases 2 + l - j,
                    {
                        frame.push(self.data[j]);
                        j += 1;
                        proof {
                            assert(self.data@.subrange(2, j - 1) + seq![self.data@[j - 1]]
                                =~= self.data@.subrange(2, j as int));
                        }
                    }
                    let mut rest: Vec<u8> = Vec::new();
                    let mut k: usize = 2 + l;
                    while k < self.data.len()
                        invariant
                            l <= 65535,
                            2 + l <= k <= self.data@.len(),
                            self.data@ == before,
                            rest@ == self.data@.subrange(2 + l, k as int),
                        decreases self.data@.len() - k,
                    {
                        rest.push(self.data[k]);
                        k += 1;
                        proof {
                            assert(self.data@.subrange(2 + l, k - 1) + seq![self.data@[k - 1]]
                                =~= self.data@.subrange(2 + l, k as int));
                        }
                    }
                    self.data = rest;
                    proof {
                        assert(self.data@ =~= before.skip(2 + l));
                        assert(frame@ =~= before.subrange(2, 2 + l));
                        assert(spec_frames(before) == seq![before.subrange(2, 2 + l)] + spec_frames(before.skip(2 + l)));
                        assert(spec_residue(before) == spec_residue(before.skip(2 + l)));
                    }
                    let ghost prev_frames = frames@;
                    frames.push(frame);
                    proof {
                        assert(spec_frame_views(frames@) =~= spec_frame_views(prev_frames).push(frame@));
                        assert(spec_frame_views(prev_frames).push(frame@) + spec_frames(self.data@)
                            =~= spec_frame_views(prev_frames) + spec_frames(before));
                    }
                }
            }
        }
        frames
    }
}

/// Frame one outbound payload for the wire: the 2-byte big-endian length,
/// then the payload. Decoding such a frame gives back exactly the payload.
pub fn encode_frame(payload: &[u8]) -> (r: Vec<u8>)
    requires
        payload@.len() <= 65535,
    ensures
        r@ == seq![(payload@.len() / 256) as u8, (payload@.len() % 256) as u8] + payload@,
        spec_frames(r@) == seq![payload@],
        spec_residue(r@) == Seq::<u8>::empty(),
{
    let n = payload.len();
    let hi = (n / 256) as u8;
    let lo = (n % 256) as u8;
    proof {
        assert(hi == n as int / 256 && lo == n as int % 256);
        assert(hi * 256 + lo == n as int) by (nonlinear_arith)
            requires
                hi == n as int / 256,
                lo == n as int % 256,
                0 <= n <= 65535,
        ;
    }
    let mut r: Vec<u8> = Vec::new();
    r.push(hi);
    r.push(lo);
    let mut i: usize = 0;
    while i < n
        invariant
            i <= n,
            n == payload@.len(),
            r@ == seq![hi, lo] + payload@.subrange(0, i as int),
        decreases n - i,
    {
        r.push(payload[i]);
        i += 1;
        proof {
            assert(seq![hi, lo] + payload@.subrange(0, i - 1) + seq![payload@[i - 1]]
                =~= seq![hi, lo] + payload@.subrange(0, i as int));
        }
    }
    proof {
        assert(payload@.subrange(0, payload@.len() as int) =~= payload@);
        assert(r@[0] == hi && r@[1] == lo);
        assert(spec_frame_len(r@) == n as int);
        assert(!spec_is_partial(r@));
        assert(r@.subrange(2, 2 + n as int) =~= payload@);
        assert(r@.skip(2 + n as int) =~= Seq::<u8>::empty());
        assert(spec_frames(Seq::<u8>::empty()) == Seq::<Seq<u8>>::empty());
        assert(spec_residue(Seq::<u8>::empty()) == Seq::<u8>::empty());
        assert(spec_frames(r@) == seq![r@.subrange(2, 2 + n as int)] + spec_frames(r@.skip(2 + n as int)));
        assert(spec_residue(r@) == spec_residue(r@.skip(2 + n as int)));
        assert(spec_frames(r@) =~= seq![payload@]);
    }
    r
}

} // verus!
