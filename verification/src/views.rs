//! Sequence views of the crate's byte-holding types, with ambient lemmas
//! that expose their length and elements to the prover.

use vstd::prelude::*;

use crate::cryptde::CryptData;
use crate::cryptde::Key;
use crate::dispatcher::Component;
use crate::hop::Hop;
use crate::masquerader::MaskEntry;
use crate::masquerader::Masquerader;
use crate::masquerader::MasqueraderV;
use crate::route::RouteSegment;

verus! {

/// The byte sequences of a sequence of byte vectors.
pub open spec fn vecs_view(frames: Seq<Vec<u8>>) -> Seq<Seq<u8>> {
    frames.map_values(|f: Vec<u8>| f@)
}

/// The models of a sequence of dictionary rows.
pub open spec fn entries_view(entries: Seq<MaskEntry>) -> Seq<(Seq<u8>, Component, Seq<u8>)> {
    entries.map_values(|e: MaskEntry| e@)
}

/// The models of a sequence of masqueraders.
pub open spec fn masqs_view(masqueraders: Seq<Masquerader>) -> Seq<MasqueraderV> {
    masqueraders.map_values(|m: Masquerader| m@)
}

pub broadcast proof fn lemma_vecs_view_len(frames: Seq<Vec<u8>>)
    ensures
        #[trigger] vecs_view(frames).len() == frames.len(),
{
}

pub broadcast proof fn lemma_vecs_view_index(frames: Seq<Vec<u8>>, i: int)
    requires
        0 <= i < frames.len(),
    ensures
        #[trigger] vecs_view(frames)[i] == frames[i]@,
{
}

pub broadcast proof fn lemma_entries_view_len(entries: Seq<MaskEntry>)
    ensures
        #[trigger] entries_view(entries).len() == entries.len(),
{
}

pub broadcast proof fn lemma_entries_view_index(entries: Seq<MaskEntry>, i: int)
    requires
        0 <= i < entries.len(),
    ensures
        #[trigger] entries_view(entries)[i] == entries[i]@,
{
}

pub broadcast proof fn lemma_masqs_view_len(masqueraders: Seq<Masquerader>)
    ensures
        #[trigger] masqs_view(masqueraders).len() == masqueraders.len(),
{
}

pub broadcast proof fn lemma_masqs_view_index(masqueraders: Seq<Masquerader>, i: int)
    requires
        0 <= i < masqueraders.len(),
    ensures
        #[trigger] masqs_view(masqueraders)[i] == masqueraders[i]@,
{
}

/// The byte sequences of a sequence of keys.
pub open spec fn keys_view(keys: Seq<Key>) -> Seq<Seq<u8>> {
    keys.map_values(|k: Key| k@)
}

/// The byte sequences of a sequence of encrypted hops.
pub open spec fn hops_view(hops: Seq<CryptData>) -> Seq<Seq<u8>> {
    hops.map_values(|h: CryptData| h@)
}

/// The models of a sequence of cleartext hops.
pub open spec fn stops_view(stops: Seq<Hop>) -> Seq<(Seq<u8>, Component)> {
    stops.map_values(|h: Hop| h@)
}

/// The models of a sequence of route segments.
pub open spec fn segs_view(segments: Seq<RouteSegment>) -> Seq<(Seq<Seq<u8>>, Component)> {
    segments.map_values(|s: RouteSegment| s@)
}

pub broadcast proof fn lemma_keys_view_len(keys: Seq<Key>)
    ensures
        #[trigger] keys_view(keys).len() == keys.len(),
{
}

pub broadcast proof fn lemma_keys_view_index(keys: Seq<Key>, i: int)
    requires
        0 <= i < keys.len(),
    ensures
        #[trigger] keys_view(keys)[i] == keys[i]@,
{
}

pub broadcast proof fn lemma_hops_view_len(hops: Seq<CryptData>)
    ensures
        #[trigger] hops_view(hops).len() == hops.len(),
{
}

pub broadcast proof fn lemma_hops_view_index(hops: Seq<CryptData>, i: int)
    requires
        0 <= i < hops.len(),
    ensures
        #[trigger] hops_view(hops)[i] == hops[i]@,
{
}

pub broadcast proof fn lemma_stops_view_len(stops: Seq<Hop>)
    ensures
        #[trigger] stops_view(stops).len() == stops.len(),
{
}

pub broadcast proof fn lemma_stops_view_index(stops: Seq<Hop>, i: int)
    requires
        0 <= i < stops.len(),
    ensures
        #[trigger] stops_view(stops)[i] == stops[i]@,
{
}

pub broadcast proof fn lemma_segs_view_len(segments: Seq<RouteSegment>)
    ensures
        #[trigger] segs_view(segments).len() == segments.len(),
{
}

pub broadcast proof fn lemma_segs_view_index(segments: Seq<RouteSegment>, i: int)
    requires
        0 <= i < segments.len(),
    ensures
        #[trigger] segs_view(segments)[i] == segments[i]@,
{
}

} // verus!
