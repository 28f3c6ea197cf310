//! Framers: stateful reassembly of message frames from a byte stream.
//!
//! Two framings are provided as a closed sum.  The chunk framer treats
//! every delivery as one complete frame, as a datagram transport does.
//! The length-prefixed framer buffers a byte stream in which each frame
//! is announced by a two-byte big-endian length.

use vstd::prelude::*;

use crate::bytes::copy_range;
use crate::bytes::copy_slice;
use crate::bytes::push_all;
use crate::views::vecs_view;

verus! {

/// A stateful byte reassembler.
#[derive(PartialEq, Eq, Debug)]
pub enum Framer {
    /// Each delivery of bytes is one complete frame.
    Chunk { frames: Vec<Vec<u8>> },
    /// A byte stream of frames, each prefixed by a two-byte big-endian
    /// length.
    LengthPrefixed { buffer: Vec<u8> },
}

/// The next frame of a length-prefixed buffer and what remains after
/// it, if a complete frame is buffered.
pub open spec fn lp_frame(buffer: Seq<u8>) -> Option<(Seq<u8>, Seq<u8>)> {
    if buffer.len() >= 2 {
        let ln = buffer[0] * 256 + buffer[1];
        if buffer.len() >= 2 + ln {
            Some((buffer.subrange(2, 2 + ln), buffer.subrange(2 + ln, buffer.len() as int)))
        } else {
            None
        }
    } else {
        None
    }
}

impl Framer {
    /// An empty chunk framer.
    pub fn new_chunk() -> (r: Framer)
        ensures
            r matches Framer::Chunk { frames } && vecs_view(frames@) == Seq::<Seq<u8>>::empty(),
    {
        let r = Framer::Chunk { frames: Vec::new() };
        proof {
            assert(vecs_view(Seq::<Vec<u8>>::empty()) =~= Seq::<Seq<u8>>::empty());
        }
        r
    }

    /// An empty length-prefixed framer.
    pub fn new_length_prefixed() -> (r: Framer)
        ensures
            r matches Framer::LengthPrefixed { buffer } && buffer@ == Seq::<u8>::empty(),
    {
        Framer::LengthPrefixed { buffer: Vec::new() }
    }

    /// Append bytes from the stream: one more frame for the chunk
    /// framer, more buffered bytes for the length-prefixed one.
    #[verifier::loop_isolation(false)]
    pub fn add_data(&mut self, data: &[u8])
        ensures
            match *old(self) {
                Framer::Chunk { frames } => *final(self) matches Framer::Chunk { frames: f2 }
                    && vecs_view(f2@) == vecs_view(frames@).push(data@),
                Framer::LengthPrefixed { buffer } => *final(self) matches Framer::LengthPrefixed {
                    buffer: b2,
                } && b2@ == buffer@ + data@,
            },
    {
        broadcast use crate::views::lemma_vecs_view_len, crate::views::lemma_vecs_view_index;

        match self {
            Framer::Chunk { frames } => {
                let ghost prev = frames@;
                frames.push(copy_slice(data));
                assert(vecs_view(frames@) =~= vecs_view(prev).push(data@));
            },
            Framer::LengthPrefixed { buffer } => {
                push_all(buffer, data);
            },
        }
    }

    /// Remove and return the next complete frame, if one is available.
    #[verifier::loop_isolation(false)]
    pub fn take_frame(&mut self) -> (r: Option<Vec<u8>>)
        ensures
            match *old(self) {
                Framer::Chunk { frames } => {
                    if vecs_view(frames@).len() == 0 {
                        r is None && *final(self) == *old(self)
                    } else {
                        r matches Some(f) && f@ == vecs_view(frames@)[0] && (*final(self)
                            matches Framer::Chunk { frames: f2 } && vecs_view(f2@) == vecs_view(
                            frames@,
                        ).drop_first())
                    }
                },
                Framer::LengthPrefixed { buffer } => match lp_frame(buffer@) {
                    None => r is None && *final(self) == *old(self),
                    Some((frame, rest)) => r matches Some(f) && f@ == frame && (*final(self)
                        matches Framer::LengthPrefixed { buffer: b2 } && b2@ == rest),
                },
            },
    {
        broadcast use crate::views::lemma_vecs_view_len, crate::views::lemma_vecs_view_index;

        match self {
            Framer::Chunk { frames } => {
                if frames.len() == 0 {
                    return None;
                }
                let ghost prev = frames@;
                let frame = frames.remove(0);
                assert(vecs_view(frames@) =~= vecs_view(prev).drop_first());
                Some(frame)
            },
            Framer::LengthPrefixed { buffer } => {
                if buffer.len() < 2 {
                    return None;
                }
                let ln: usize = (buffer[0] as usize) * 256 + (buffer[1] as usize);
                if buffer.len() < 2 + ln {
                    return None;
                }
                let frame = copy_range(buffer.as_slice(), 2, 2 + ln);
                let rest = copy_range(buffer.as_slice(), 2 + ln, buffer.len());
                *buffer = rest;
                Some(frame)
            },
        }
    }
}

impl Clone for Framer {
    #[verifier::loop_isolation(false)]
    fn clone(&self) -> (r: Framer)
        ensures
            match self {
                Framer::Chunk { frames } => r matches Framer::Chunk { frames: f2 } && vecs_view(
                    f2@,
                ) == vecs_view(frames@),
                Framer::LengthPrefixed { buffer } => r matches Framer::LengthPrefixed {
                    buffer: b2,
                } && b2@ == buffer@,
            },
    {
        broadcast use crate::views::lemma_vecs_view_len, crate::views::lemma_vecs_view_index;

        match self {
            Framer::Chunk { frames } => {
                let mut out: Vec<Vec<u8>> = Vec::new();
                let mut i: usize = 0;
                while i < frames.len()
                    invariant
                        i <= frames@.len(),
                        vecs_view(out@) == vecs_view(frames@).subrange(0, i as int),
                    decreases frames@.len() - i,
                {
                    out.push(crate::bytes::copy_bytes(&frames[i]));
                    i = i + 1;
                    assert(vecs_view(out@) =~= vecs_view(frames@).subrange(0, i as int));
                }
                assert(vecs_view(out@) =~= vecs_view(frames@));
                Framer::Chunk { frames: out }
            },
            Framer::LengthPrefixed { buffer } => Framer::LengthPrefixed {
                buffer: crate::bytes::copy_bytes(buffer),
            },
        }
    }
}

} // verus!
