//! Masqueraders: stateless codecs for obfuscated frames.
//!
//! A masquerader recognises frames bearing its signature and recovers
//! the component and payload hidden in them; `mask` is the reverse
//! direction.  Two implementations are provided as a closed sum: the
//! null masquerader, which accepts every frame unchanged for one fixed
//! component, and the table masquerader, which carries an explicit
//! dictionary of known frames.

use vstd::prelude::*;

use crate::bytes::bytes_eq;
use crate::bytes::copy_bytes;
use crate::dispatcher::Component;

verus! {

/// One row of a table masquerader's dictionary.
#[derive(PartialEq, Eq, Debug)]
pub struct MaskEntry {
    pub masked: Vec<u8>,
    pub component: Component,
    pub unmasked: Vec<u8>,
}

impl View for MaskEntry {
    type V = (Seq<u8>, Component, Seq<u8>);

    open spec fn view(&self) -> (Seq<u8>, Component, Seq<u8>) {
        (self.masked@, self.component, self.unmasked@)
    }
}

impl MaskEntry {
    /// A row mapping the wire frame `masked` to `component` and
    /// `unmasked`.
    pub fn new(masked: Vec<u8>, component: Component, unmasked: Vec<u8>) -> (r: MaskEntry)
        ensures
            r@ == (masked@, component, unmasked@),
    {
        MaskEntry { masked, component, unmasked }
    }
}

impl Clone for MaskEntry {
    fn clone(&self) -> (r: MaskEntry)
        ensures
            r@ == self@,
    {
        MaskEntry {
            masked: copy_bytes(&self.masked),
            component: self.component,
            unmasked: copy_bytes(&self.unmasked),
        }
    }
}

/// Why a mask call failed.
#[derive(Clone, Copy, PartialEq, Eq, Structural, Debug)]
pub enum MasqueradeError {
    NotRepresentable,
}

/// The model of a masquerader.
pub ghost enum MasqueraderV {
    Null { component: Component },
    Table { entries: Seq<(Seq<u8>, Component, Seq<u8>)> },
}

/// A stateless codec for obfuscated frames.
#[derive(PartialEq, Eq, Debug)]
pub enum Masquerader {
    /// Accepts every frame unchanged, for one fixed component.
    Null { component: Component },
    /// Carries an explicit dictionary of known frames.
    Table { entries: Vec<MaskEntry> },
}

impl View for Masquerader {
    type V = MasqueraderV;

    open spec fn view(&self) -> MasqueraderV {
        match self {
            Masquerader::Null { component } => MasqueraderV::Null { component: *component },
            Masquerader::Table { entries } => MasqueraderV::Table {
                entries: crate::views::entries_view(entries@),
            },
        }
    }
}

/// First dictionary row whose masked frame equals `frame`.
pub open spec fn table_lookup(
    entries: Seq<(Seq<u8>, Component, Seq<u8>)>,
    frame: Seq<u8>,
) -> Option<(Component, Seq<u8>)>
    decreases entries.len(),
{
    if entries.len() == 0 {
        None
    } else if entries[0].0 == frame {
        Some((entries[0].1, entries[0].2))
    } else {
        table_lookup(entries.drop_first(), frame)
    }
}

/// First dictionary row whose component and cleartext match.
pub open spec fn table_mask(
    entries: Seq<(Seq<u8>, Component, Seq<u8>)>,
    component: Component,
    data: Seq<u8>,
) -> Option<Seq<u8>>
    decreases entries.len(),
{
    if entries.len() == 0 {
        None
    } else if entries[0].1 == component && entries[0].2 == data {
        Some(entries[0].0)
    } else {
        table_mask(entries.drop_first(), component, data)
    }
}

/// Exactly what [`Masquerader::try_unmask`] reveals of a frame.
pub open spec fn try_unmask_spec(m: MasqueraderV, frame: Seq<u8>) -> Option<(Component, Seq<u8>)> {
    match m {
        MasqueraderV::Null { component } => Some((component, frame)),
        MasqueraderV::Table { entries } => table_lookup(entries, frame),
    }
}

/// Exactly what [`Masquerader::mask`] produces from a component and
/// cleartext.
pub open spec fn mask_spec(m: MasqueraderV, component: Component, data: Seq<u8>) -> Option<
    Seq<u8>,
> {
    match m {
        MasqueraderV::Null { component: _ } => Some(data),
        MasqueraderV::Table { entries } => table_mask(entries, component, data),
    }
}

impl Masquerader {
    /// Attempt to decode a frame; succeeds only when the frame bears
    /// this masquerader's signature.
    #[verifier::loop_isolation(false)]
    pub fn try_unmask(&self, item: &[u8]) -> (r: Option<(Component, Vec<u8>)>)
        ensures
            match try_unmask_spec(self@, item@) {
                Some(x) => r matches Some(y) && y.0 == x.0 && y.1@ == x.1,
                None => r is None,
            },
    {
        broadcast use crate::views::lemma_entries_view_len, crate::views::lemma_entries_view_index;

        match self {
            Masquerader::Null { component } => Some((*component, crate::bytes::copy_slice(item))),
            Masquerader::Table { entries } => {
                let ghost ev = crate::views::entries_view(entries@);
                let mut i: usize = 0;
                proof {
                    assert(ev.subrange(0, ev.len() as int) =~= ev);
                }
                while i < entries.len()
                    invariant
                        i <= entries@.len(),
                        table_lookup(ev, item@) == table_lookup(
                            ev.subrange(i as int, ev.len() as int),
                            item@,
                        ),
                    decreases entries@.len() - i,
                {
                    let ghost rest = ev.subrange(i as int, ev.len() as int);
                    if bytes_eq(entries[i].masked.as_slice(), item) {
                        proof {
                            assert(rest[0] == ev[i as int]);
                        }
                        return Some((entries[i].component, copy_bytes(&entries[i].unmasked)));
                    }
                    proof {
                        assert(rest[0] == ev[i as int]);
                        assert(rest.drop_first() =~= ev.subrange(i + 1, ev.len() as int));
                    }
                    i = i + 1;
                }
                proof {
                    assert(ev.subrange(i as int, ev.len() as int).len() == 0);
                }
                None
            },
        }
    }

    /// Encode a component and cleartext as an obfuscated frame.
    #[verifier::loop_isolation(false)]
    pub fn mask(&self, component: Component, data: &[u8]) -> (r: Result<Vec<u8>, MasqueradeError>)
        ensures
            match mask_spec(self@, component, data@) {
                Some(b) => r matches Ok(v) && v@ == b,
                None => r == Err::<Vec<u8>, MasqueradeError>(MasqueradeError::NotRepresentable),
            },
    {
        broadcast use crate::views::lemma_entries_view_len, crate::views::lemma_entries_view_index;

        match self {
            Masquerader::Null { component: _ } => Ok(crate::bytes::copy_slice(data)),
            Masquerader::Table { entries } => {
                let ghost ev = crate::views::entries_view(entries@);
                let mut i: usize = 0;
                proof {
                    assert(ev.subrange(0, ev.len() as int) =~= ev);
                }
                while i < entries.len()
                    invariant
                        i <= entries@.len(),
                        table_mask(ev, component, data@) == table_mask(
                            ev.subrange(i as int, ev.len() as int),
                            component,
                            data@,
                        ),
                    decreases entries@.len() - i,
                {
                    let ghost rest = ev.subrange(i as int, ev.len() as int);
                    if entries[i].component == component && bytes_eq(
                        entries[i].unmasked.as_slice(),
                        data,
                    ) {
                        proof {
                            assert(rest[0] == ev[i as int]);
                        }
                        return Ok(copy_bytes(&entries[i].masked));
                    }
                    proof {
                        assert(rest[0] == ev[i as int]);
                        assert(rest.drop_first() =~= ev.subrange(i + 1, ev.len() as int));
                    }
                    i = i + 1;
                }
                proof {
                    assert(ev.subrange(i as int, ev.len() as int).len() == 0);
                }
                Err(MasqueradeError::NotRepresentable)
            },
        }
    }
}

impl Clone for Masquerader {
    #[verifier::loop_isolation(false)]
    fn clone(&self) -> (r: Masquerader)
        ensures
            r@ == self@,
    {
        broadcast use crate::views::lemma_entries_view_len, crate::views::lemma_entries_view_index;

        match self {
            Masquerader::Null { component } => Masquerader::Null { component: *component },
            Masquerader::Table { entries } => {
                let mut out: Vec<MaskEntry> = Vec::new();
                let mut i: usize = 0;
                while i < entries.len()
                    invariant
                        i <= entries@.len(),
                        crate::views::entries_view(out@) == crate::views::entries_view(
                            entries@,
                        ).subrange(0, i as int),
                    decreases entries@.len() - i,
                {
                    out.push(entries[i].clone());
                    i = i + 1;
                    assert(crate::views::entries_view(out@) =~= crate::views::entries_view(
                        entries@,
                    ).subrange(0, i as int));
                }
                assert(crate::views::entries_view(out@) =~= crate::views::entries_view(entries@));
                Masquerader::Table { entries: out }
            },
        }
    }
}

} // verus!
