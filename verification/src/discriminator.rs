//! The discriminator: one framer composed with an ordered, non-empty
//! list of masqueraders, de-multiplexing obfuscation schemes on one byte
//! stream.
//!
//! `take_chunk` pulls one frame from the framer and hands it to each
//! masquerader in registration order, returning the first successful
//! unmasking.  A frame every masquerader rejects is consumed and lost:
//! masqueraders are mutually exclusive by design, so such a frame is
//! unrecoverable.

use vstd::prelude::*;

use crate::dispatcher::Component;
use crate::framer::lp_frame;
use crate::framer::Framer;
use crate::masquerader::try_unmask_spec;
use crate::masquerader::Masquerader;
use crate::masquerader::MasqueraderV;
use crate::views::masqs_view;
use crate::views::vecs_view;

verus! {

/// What a successful unmasking yields: the component addressed and the
/// recovered bytes.
pub type UnmaskedChunk = (Component, Vec<u8>);

/// The first masquerader in order to recognise `frame`, with what it
/// reveals.
pub open spec fn first_match(ms: Seq<MasqueraderV>, frame: Seq<u8>) -> Option<(Component, Seq<u8>)>
    decreases ms.len(),
{
    if ms.len() == 0 {
        None
    } else {
        match try_unmask_spec(ms[0], frame) {
            Some(x) => Some(x),
            None => first_match(ms.drop_first(), frame),
        }
    }
}

/// Copy a masquerader list, preserving each masquerader's model.
#[verifier::loop_isolation(false)]
fn clone_masqueraders(v: &Vec<Masquerader>) -> (r: Vec<Masquerader>)
    ensures
        masqs_view(r@) == masqs_view(v@),
        r@.len() == v@.len(),
{
    broadcast use crate::views::lemma_masqs_view_len, crate::views::lemma_masqs_view_index;

    let mut out: Vec<Masquerader> = Vec::new();
    let mut i: usize = 0;
    proof {
        assert(masqs_view(out@) =~= masqs_view(v@).subrange(0, 0));
    }
    while i < v.len()
        invariant
            i <= v@.len(),
            masqs_view(out@) == masqs_view(v@).subrange(0, i as int),
        decreases v@.len() - i,
    {
        out.push(v[i].clone());
        i = i + 1;
        assert(masqs_view(out@) =~= masqs_view(v@).subrange(0, i as int));
    }
    assert(masqs_view(out@) =~= masqs_view(v@));
    out
}

/// One framer and an ordered, non-empty list of masqueraders.
pub struct Discriminator {
    pub framer: Framer,
    pub masqueraders: Vec<Masquerader>,
}

impl Discriminator {
    /// A discriminator over `framer` trying `masqueraders` in order.
    /// Composing one with no masquerader at all is a programmer error,
    /// which callers must rule out.
    pub fn new(framer: Framer, masqueraders: Vec<Masquerader>) -> (r: Discriminator)
        requires
            masqueraders@.len() > 0,
        ensures
            r.framer == framer,
            r.masqueraders == masqueraders,
    {
        Discriminator { framer, masqueraders }
    }

    /// Hand bytes from the stream to the framer.
    pub fn add_data(&mut self, data: &[u8])
        ensures
            final(self).masqueraders == old(self).masqueraders,
            match old(self).framer {
                Framer::Chunk { frames } => final(self).framer matches Framer::Chunk {
                    frames: f2,
                } && vecs_view(f2@) == vecs_view(frames@).push(data@),
                Framer::LengthPrefixed { buffer } => final(self).framer
                    matches Framer::LengthPrefixed { buffer: b2 } && b2@ == buffer@ + data@,
            },
    {
        self.framer.add_data(data);
    }

    /// Pull one frame and return the first successful unmasking of it,
    /// or nothing: either no frame is complete, or every masquerader
    /// rejected the frame, which is then lost.
    #[verifier::loop_isolation(false)]
    pub fn take_chunk(&mut self) -> (r: Option<UnmaskedChunk>)
        ensures
            final(self).masqueraders == old(self).masqueraders,
            match old(self).framer {
                Framer::Chunk { frames } => {
                    if vecs_view(frames@).len() == 0 {
                        r is None && final(self).framer == old(self).framer
                    } else {
                        (final(self).framer matches Framer::Chunk { frames: f2 } && vecs_view(f2@)
                            == vecs_view(frames@).drop_first()) && (match first_match(
                            masqs_view(old(self).masqueraders@),
                            vecs_view(frames@)[0],
                        ) {
                            Some(x) => r matches Some(y) && y.0 == x.0 && y.1@ == x.1,
                            None => r is None,
                        })
                    }
                },
                Framer::LengthPrefixed { buffer } => match lp_frame(buffer@) {
                    None => r is None && final(self).framer == old(self).framer,
                    Some((frame, rest)) => (final(self).framer matches Framer::LengthPrefixed {
                        buffer: b2,
                    } && b2@ == rest) && (match first_match(
                        masqs_view(old(self).masqueraders@),
                        frame,
                    ) {
                        Some(x) => r matches Some(y) && y.0 == x.0 && y.1@ == x.1,
                        None => r is None,
                    })
                },
            },
    {
        broadcast use crate::views::lemma_masqs_view_len, crate::views::lemma_masqs_view_index;

        let frame = match self.framer.take_frame() {
            Some(f) => f,
            None => {
                return None;
            },
        };
        let ghost mv = masqs_view(self.masqueraders@);
        let mut i: usize = 0;
        proof {
            assert(mv.subrange(0, mv.len() as int) =~= mv);
        }
        while i < self.masqueraders.len()
            invariant
                i <= self.masqueraders@.len(),
                first_match(mv, frame@) == first_match(
                    mv.subrange(i as int, mv.len() as int),
                    frame@,
                ),
            decreases self.masqueraders@.len() - i,
        {
            let ghost rest = mv.subrange(i as int, mv.len() as int);
            match self.masqueraders[i].try_unmask(frame.as_slice()) {
                Some(chunk) => {
                    proof {
                        assert(rest[0] == mv[i as int]);
                    }
                    return Some(chunk);
                },
                None => {
                    proof {
                        assert(rest[0] == mv[i as int]);
                        assert(rest.drop_first() =~= mv.subrange(i + 1, mv.len() as int));
                    }
                },
            }
            i = i + 1;
        }
        proof {
            assert(mv.subrange(i as int, mv.len() as int).len() == 0);
        }
        None
    }
}

impl Clone for Discriminator {
    #[verifier::loop_isolation(false)]
    fn clone(&self) -> (r: Discriminator)
        ensures
            masqs_view(r.masqueraders@) == masqs_view(self.masqueraders@),
            match self.framer {
                Framer::Chunk { frames } => r.framer matches Framer::Chunk { frames: f2 }
                    && vecs_view(f2@) == vecs_view(frames@),
                Framer::LengthPrefixed { buffer } => r.framer matches Framer::LengthPrefixed {
                    buffer: b2,
                } && b2@ == buffer@,
            },
    {
        Discriminator {
            framer: self.framer.clone(),
            masqueraders: clone_masqueraders(&self.masqueraders),
        }
    }
}

/// A template from which a fresh discriminator is made for each new
/// connection.
pub struct DiscriminatorFactory {
    pub framer: Framer,
    pub masqueraders: Vec<Masquerader>,
}

impl DiscriminatorFactory {
    /// A factory stamping discriminators from the given framer and
    /// masquerader list.
    pub fn new(framer: Framer, masqueraders: Vec<Masquerader>) -> (r: DiscriminatorFactory)
        requires
            masqueraders@.len() > 0,
        ensures
            r.framer == framer,
            r.masqueraders == masqueraders,
    {
        DiscriminatorFactory { framer, masqueraders }
    }

    /// A fresh discriminator over this factory's framer and
    /// masqueraders.
    pub fn make(&self) -> (r: Discriminator)
        requires
            self.masqueraders@.len() > 0,
        ensures
            masqs_view(r.masqueraders@) == masqs_view(self.masqueraders@),
            r.masqueraders@.len() == self.masqueraders@.len(),
            match self.framer {
                Framer::Chunk { frames } => r.framer matches Framer::Chunk { frames: f2 }
                    && vecs_view(f2@) == vecs_view(frames@),
                Framer::LengthPrefixed { buffer } => r.framer matches Framer::LengthPrefixed {
                    buffer: b2,
                } && b2@ == buffer@,
            },
    {
        Discriminator {
            framer: self.framer.clone(),
            masqueraders: clone_masqueraders(&self.masqueraders),
        }
    }
}

impl Clone for DiscriminatorFactory {
    fn clone(&self) -> (r: DiscriminatorFactory)
        ensures
            masqs_view(r.masqueraders@) == masqs_view(self.masqueraders@),
            r.masqueraders@.len() == self.masqueraders@.len(),
            match self.framer {
                Framer::Chunk { frames } => r.framer matches Framer::Chunk { frames: f2 }
                    && vecs_view(f2@) == vecs_view(frames@),
                Framer::LengthPrefixed { buffer } => r.framer matches Framer::LengthPrefixed {
                    buffer: b2,
                } && b2@ == buffer@,
            },
    {
        DiscriminatorFactory {
            framer: self.framer.clone(),
            masqueraders: clone_masqueraders(&self.masqueraders),
        }
    }
}

/// Discriminator first-match: when the masqueraders before position `k`
/// all reject a frame and the one at `k` unmasks it as `x`, the first
/// match over the whole list is exactly `x` — masqueraders after `k`
/// cannot influence the result.
pub proof fn lemma_first_match(
    ms: Seq<MasqueraderV>,
    frame: Seq<u8>,
    k: int,
    x: (Component, Seq<u8>),
)
    requires
        0 <= k < ms.len(),
        forall|j: int| 0 <= j < k ==> try_unmask_spec(#[trigger] ms[j], frame) is None,
        try_unmask_spec(ms[k], frame) == Some(x),
    ensures
        first_match(ms, frame) == Some(x),
    decreases k,
{
    if k == 0 {
    } else {
        assert(try_unmask_spec(ms[0], frame) is None);
        let rest = ms.drop_first();
        assert(forall|j: int|
            0 <= j < k - 1 ==> try_unmask_spec(#[trigger] rest[j], frame) is None);
        assert(rest[k - 1] == ms[k]);
        lemma_first_match(rest, frame, k - 1, x);
    }
}

} // verus!
