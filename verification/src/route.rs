//! Onion source routes: ordered encrypted hops, their construction from
//! segments, and the shift operation a relay performs.
//!
//! A route built from segments visits a sequence of *stops*: every key of
//! every segment, with the junction key shared between two consecutive
//! segments counted once.  The stop at a segment's last key carries that
//! segment's terminal component; every other stop carries
//! [`Component::Hopper`].  The encrypted hop at stop `i` is addressed to
//! stop `i`'s key and names the key of stop `i + 1` (the last stop names
//! its own key), so each peer learns only its neighbours.

use vstd::prelude::*;

use crate::codec::pow256;
use crate::cryptde::decipher;
use crate::cryptde::garbage_bytes;
use crate::cryptde::null_cipher;
use crate::cryptde::CryptData;
use crate::cryptde::CryptDe;
use crate::cryptde::Key;
use crate::cryptde::PlainData;
use crate::dispatcher::Component;
use crate::hop::decode_hop;
use crate::hop::encode_hop;
use crate::hop::hop_bytes;
use crate::hop::parse_hop;
use crate::hop::Hop;
use crate::views::hops_view;
use crate::views::keys_view;
use crate::views::segs_view;
use crate::views::stops_view;

verus! {

/// One leg of a route: the keys it visits and the component addressed in
/// its terminal node.
pub struct RouteSegment {
    pub keys: Vec<Key>,
    pub component: Component,
}

impl View for RouteSegment {
    type V = (Seq<Seq<u8>>, Component);

    open spec fn view(&self) -> (Seq<Seq<u8>>, Component) {
        (keys_view(self.keys@), self.component)
    }
}

impl RouteSegment {
    /// A segment visiting `keys` and ending at `component`.
    pub fn new(keys: Vec<Key>, component: Component) -> (r: RouteSegment)
        ensures
            r@ == (keys_view(keys@), component),
    {
        RouteSegment { keys, component }
    }
}

/// Why a route operation failed.
#[derive(Clone, Copy, PartialEq, Eq, Structural, Debug)]
pub enum RouteError {
    InvalidSegments,
    EmptyKey,
    EmptyRoute,
    HopDecryptFailure,
    HopParseFailure,
}

/// The stops of one segment: each key, paired with `Hopper` except for
/// the last key, which carries the segment's terminal component.
pub open spec fn segment_stops(keys: Seq<Seq<u8>>, c: Component) -> Seq<(Seq<u8>, Component)> {
    Seq::new(
        keys.len(),
        |i: int|
            (
                keys[i],
                if i == keys.len() - 1 {
                    c
                } else {
                    Component::Hopper
                },
            ),
    )
}

/// The stops of a whole route: each segment contributes its stops, a
/// non-first segment dropping its first key, which repeats the junction
/// stop that the previous segment already contributed.
pub open spec fn stops_of(segs: Seq<(Seq<Seq<u8>>, Component)>) -> Seq<(Seq<u8>, Component)>
    decreases segs.len(),
{
    if segs.len() == 0 {
        Seq::empty()
    } else {
        let seg = segs.last();
        let full = segment_stops(seg.0, seg.1);
        let added = if segs.len() == 1 {
            full
        } else {
            full.subrange(1, full.len() as int)
        };
        stops_of(segs.drop_last()) + added
    }
}

/// The cleartext hop at stop `i`: the key of the following stop (the last
/// stop names its own key) and the component of stop `i`.
pub open spec fn hop_plain_at(stops: Seq<(Seq<u8>, Component)>, i: int) -> (Seq<u8>, Component) {
    (
        if i + 1 < stops.len() {
            stops[i + 1].0
        } else {
            stops[i].0
        },
        stops[i].1,
    )
}

/// The hops of a route after one shift: the head removed, a garbage hop
/// of the head's ciphertext length appended.
pub open spec fn shifted(hops: Seq<Seq<u8>>) -> Seq<Seq<u8>>
    recommends
        hops.len() > 0,
{
    hops.subrange(1, hops.len() as int).push(garbage_bytes(hops[0].len()))
}

/// The encrypted hops of a route over the given stops.
pub open spec fn route_cipher_hops(stops: Seq<(Seq<u8>, Component)>) -> Seq<Seq<u8>> {
    Seq::new(stops.len(), |i: int| null_cipher(stops[i].0, hop_bytes(hop_plain_at(stops, i))))
}

/// Every segment names at least two keys, and there is at least one
/// segment.
pub open spec fn segments_valid(segs: Seq<(Seq<Seq<u8>>, Component)>) -> bool {
    segs.len() > 0 && forall|j: int| 0 <= j < segs.len() ==> #[trigger] segs[j].0.len() >= 2
}

/// No segment names an empty key.
pub open spec fn segments_keys_nonempty(segs: Seq<(Seq<Seq<u8>>, Component)>) -> bool {
    forall|j: int, i: int|
        0 <= j < segs.len() && 0 <= i < segs[j].0.len() ==> #[trigger] segs[j].0[i].len() > 0
}

/// An ordered, non-empty list of encrypted hops.
#[derive(Debug)]
pub struct Route {
    pub hops: Vec<CryptData>,
}

impl View for Route {
    type V = Seq<Seq<u8>>;

    open spec fn view(&self) -> Seq<Seq<u8>> {
        hops_view(self.hops@)
    }
}

impl Clone for Route {
    #[verifier::loop_isolation(false)]
    fn clone(&self) -> (r: Route)
        ensures
            r@ == self@,
    {
        broadcast use
            crate::views::lemma_keys_view_len,
            crate::views::lemma_keys_view_index,
            crate::views::lemma_hops_view_len,
            crate::views::lemma_hops_view_index,
            crate::views::lemma_stops_view_len,
            crate::views::lemma_stops_view_index;

        let mut hops: Vec<CryptData> = Vec::new();
        let mut i: usize = 0;
        while i < self.hops.len()
            invariant
                i <= self.hops@.len(),
                hops_view(hops@) == hops_view(self.hops@).subrange(0, i as int),
            decreases self.hops@.len() - i,
        {
            hops.push(self.hops[i].clone());
            i = i + 1;
            proof {
                assert(hops_view(hops@).len() == hops@.len());
                assert(hops_view(self.hops@).len() == self.hops@.len());
            }
            assert(hops_view(hops@) =~= hops_view(self.hops@).subrange(0, i as int));
        }
        assert(hops_view(hops@) =~= hops_view(self.hops@));
        Route { hops }
    }
}

impl PartialEq for Route {
    #[verifier::loop_isolation(false)]
    fn eq(&self, other: &Route) -> (r: bool) {
        broadcast use
            crate::views::lemma_keys_view_len,
            crate::views::lemma_keys_view_index,
            crate::views::lemma_hops_view_len,
            crate::views::lemma_hops_view_index,
            crate::views::lemma_stops_view_len,
            crate::views::lemma_stops_view_index;

        if self.hops.len() != other.hops.len() {
            proof {
                assert(self@.len() != other@.len());
            }
            return false;
        }
        let mut i: usize = 0;
        while i < self.hops.len()
            invariant
                i <= self.hops@.len(),
                self.hops@.len() == other.hops@.len(),
                forall|j: int| 0 <= j < i ==> self@[j] == other@[j],
            decreases self.hops@.len() - i,
        {
            if !crate::bytes::bytes_eq(self.hops[i].data.as_slice(), other.hops[i].data.as_slice())
            {
                proof {
                    assert(self@[i as int] != other@[i as int]);
                }
                return false;
            }
            i = i + 1;
            assert(self@[i - 1] == other@[i - 1]);
        }
        assert(self@ =~= other@);
        true
    }
}

impl Eq for Route {
}

impl vstd::std_specs::cmp::PartialEqSpecImpl for Route {
    open spec fn obeys_eq_spec() -> bool {
        true
    }

    open spec fn eq_spec(&self, other: &Route) -> bool {
        self@ == other@
    }
}

/// Splitting a non-empty segment list at its last segment, as
/// [`stops_of`] does, commutes with taking a prefix.
proof fn lemma_stops_of_prefix(segs: Seq<(Seq<Seq<u8>>, Component)>, j: int)
    requires
        0 <= j < segs.len(),
    ensures
        stops_of(segs.subrange(0, j + 1)) == stops_of(segs.subrange(0, j)) + (if j == 0 {
            segment_stops(segs[j].0, segs[j].1)
        } else {
            segment_stops(segs[j].0, segs[j].1).subrange(1, segs[j].0.len() as int)
        }),
{
    let pre = segs.subrange(0, j + 1);
    assert(pre.drop_last() =~= segs.subrange(0, j));
    assert(pre.last() == segs[j]);
    assert(segment_stops(segs[j].0, segs[j].1).len() == segs[j].0.len());
}

impl Route {
    /// Build a route over the given segments, encrypting each hop to the
    /// key of its stop with `cryptde`'s scheme.
    ///
    /// Returns `Err(RouteError::InvalidSegments)` exactly when the
    /// segment list is empty or some segment names fewer than two keys,
    /// and otherwise `Err(RouteError::EmptyKey)` exactly when some key is
    /// empty; on success the hops are exactly
    /// `route_cipher_hops(stops_of(segments))`.
    #[verifier::loop_isolation(false)]
    pub fn construct(segments: &Vec<RouteSegment>, cryptde: &CryptDe) -> (r: Result<
        Route,
        RouteError,
    >)
        ensures
            ({
                let segs = segs_view(segments@);
                &&& (!segments_valid(segs) <==> r == Err::<Route, RouteError>(
                    RouteError::InvalidSegments,
                ))
                &&& (segments_valid(segs) && !segments_keys_nonempty(segs) <==> r == Err::<
                    Route,
                    RouteError,
                >(RouteError::EmptyKey))
                &&& (segments_valid(segs) && segments_keys_nonempty(segs) <==> (r matches Ok(route)
                    && route@ == route_cipher_hops(stops_of(segs))))
            }),
    {
        broadcast use
            crate::views::lemma_segs_view_len,
            crate::views::lemma_segs_view_index,
            crate::views::lemma_keys_view_len,
            crate::views::lemma_keys_view_index,
            crate::views::lemma_hops_view_len,
            crate::views::lemma_hops_view_index,
            crate::views::lemma_stops_view_len,
            crate::views::lemma_stops_view_index;

        let ghost segs = segs_view(segments@);
        if segments.len() == 0 {
            return Err(RouteError::InvalidSegments);
        }
        let mut j: usize = 0;
        while j < segments.len()
            invariant
                j <= segments@.len(),
                segs == segs_view(segments@),
                forall|t: int| 0 <= t < j ==> #[trigger] segs[t].0.len() >= 2,
            decreases segments@.len() - j,
        {
            if segments[j].keys.len() < 2 {
                assert(segs[j as int].0.len() < 2);
                return Err(RouteError::InvalidSegments);
            }
            proof {
                assert(segs[j as int] == segments@[j as int]@);
            }
            j = j + 1;
        }
        assert(segments_valid(segs));
        let mut j: usize = 0;
        while j < segments.len()
            invariant
                j <= segments@.len(),
                segs == segs_view(segments@),
                forall|t: int, i: int|
                    0 <= t < j && 0 <= i < segs[t].0.len() ==> #[trigger] segs[t].0[i].len() > 0,
            decreases segments@.len() - j,
        {
            let seg = &segments[j];
            proof {
                assert(segs[j as int] == segments@[j as int]@);
            }
            let mut i: usize = 0;
            while i < seg.keys.len()
                invariant
                    i <= seg.keys@.len(),
                    seg@ == segs[j as int],
                    0 <= j < segs.len(),
                    forall|t: int| 0 <= t < i ==> #[trigger] seg@.0[t].len() > 0,
                decreases seg.keys@.len() - i,
            {
                if seg.keys[i].data.len() == 0 {
                    assert(seg@.0[i as int] == seg.keys@[i as int]@);
                    assert(segs[j as int].0[i as int].len() == 0);
                    return Err(RouteError::EmptyKey);
                }
                proof {
                    assert(seg@.0[i as int] == seg.keys@[i as int]@);
                }
                i = i + 1;
            }
            assert(forall|i: int|
                0 <= i < segs[j as int].0.len() ==> #[trigger] segs[j as int].0[i].len() > 0);
            j = j + 1;
        }
        assert(segments_keys_nonempty(segs));

        // Gather the stops.
        let ghost all_stops = stops_of(segs);
        let mut stops: Vec<Hop> = Vec::new();
        let mut j: usize = 0;
        proof {
            assert(segs.subrange(0, 0) =~= Seq::<(Seq<Seq<u8>>, Component)>::empty());
            assert(stops_view(stops@) =~= stops_of(segs.subrange(0, 0)));
        }
        while j < segments.len()
            invariant
                j <= segments@.len(),
                segs == segs_view(segments@),
                segments_valid(segs),
                segments_keys_nonempty(segs),
                stops_view(stops@) == stops_of(segs.subrange(0, j as int)),
            decreases segments@.len() - j,
        {
            let seg = &segments[j];
            proof {
                assert(segs[j as int] == segments@[j as int]@);
            }
            let ghost full = segment_stops(seg@.0, seg@.1);
            let start: usize = if j == 0 {
                0
            } else {
                1
            };
            proof {
                assert(full.subrange(start as int, start as int) =~= Seq::<(
                    Seq<u8>,
                    Component,
                )>::empty());
                assert(stops_view(stops@) =~= stops_of(segs.subrange(0, j as int)) + full.subrange(
                    start as int,
                    start as int,
                ));
            }
            let mut i: usize = start;
            while i < seg.keys.len()
                invariant
                    start <= i <= seg.keys@.len(),
                    start == if j == 0 { 0int } else { 1int },
                    seg@ == segs[j as int],
                    0 <= j < segs.len(),
                    full == segment_stops(seg@.0, seg@.1),
                    seg.keys@.len() == seg@.0.len() >= 2,
                    stops_view(stops@) == stops_of(segs.subrange(0, j as int)) + full.subrange(
                        start as int,
                        i as int,
                    ),
                decreases seg.keys@.len() - i,
            {
                let component = if i == seg.keys.len() - 1 {
                    seg.component
                } else {
                    Component::Hopper
                };
                let stop = Hop { next_key: seg.keys[i].clone(), component };
                proof {
                    assert(seg@.0[i as int] == seg.keys@[i as int]@);
                    assert(stop@ == full[i as int]);
                }
                let ghost prev = stops@;
                stops.push(stop);
                i = i + 1;
                proof {
                    let pre = stops_of(segs.subrange(0, j as int));
                    let older = full.subrange(start as int, (i - 1) as int);
                    let newer = full.subrange(start as int, i as int);
                    assert(stops@ == prev.push(stop));
                    assert(stops_view(prev) == pre + older);
                    assert(prev.len() == pre.len() + older.len());
                    assert forall|t: int| 0 <= t < prev.len() implies stops_view(stops@)[t] == (
                    pre + newer)[t] by {
                        assert(stops@[t] == prev[t]);
                        assert(stops_view(stops@)[t] == stops_view(prev)[t]);
                        assert(stops_view(prev)[t] == (pre + older)[t]);
                        if t >= pre.len() {
                            assert((pre + older)[t] == older[t - pre.len()]);
                            assert(older[t - pre.len()] == full[start + t - pre.len()]);
                            assert((pre + newer)[t] == newer[t - pre.len()]);
                            assert(newer[t - pre.len()] == full[start + t - pre.len()]);
                        }
                    }
                    assert(stops_view(stops@)[prev.len() as int] == stop@);
                    assert((pre + newer)[prev.len() as int] == full[i - 1]);
                }
                assert(stops_view(stops@) =~= stops_of(segs.subrange(0, j as int)) + full.subrange(
                    start as int,
                    i as int,
                ));
            }
            proof {
                lemma_stops_of_prefix(segs, j as int);
                assert(full.subrange(start as int, seg.keys@.len() as int) =~= if j == 0 {
                    full
                } else {
                    full.subrange(1, seg@.0.len() as int)
                });
                assert(stops_view(stops@) == stops_of(segs.subrange(0, j + 1)));
            }
            j = j + 1;
        }
        proof {
            assert(segs.subrange(0, segs.len() as int) =~= segs);
        }
        assert(stops_view(stops@) == all_stops);

        // Encrypt one hop per stop.
        assert(all_stops.len() >= 2) by {
            lemma_stops_len_at_least(segs);
        }
        proof {
            lemma_stops_keys_nonempty(segs);
        }
        let mut hops: Vec<CryptData> = Vec::new();
        let mut i: usize = 0;
        proof {
            assert(hops_view(hops@) =~= route_cipher_hops(all_stops).subrange(0, 0));
        }
        while i < stops.len()
            invariant
                i <= stops@.len(),
                stops_view(stops@) == all_stops,
                forall|t: int| 0 <= t < all_stops.len() ==> #[trigger] all_stops[t].0.len() > 0,
                hops_view(hops@) == route_cipher_hops(all_stops).subrange(0, i as int),
            decreases stops@.len() - i,
        {
            let next_index: usize = if i + 1 < stops.len() {
                i + 1
            } else {
                i
            };
            proof {
                assert(stops@[i as int]@ == all_stops[i as int]);
                assert(stops@[next_index as int]@ == all_stops[next_index as int]);
            }
            let plain = Hop {
                next_key: stops[next_index].next_key.clone(),
                component: stops[i].component,
            };
            assert(plain@ == hop_plain_at(all_stops, i as int));
            let bytes = encode_hop(&plain);
            assert(bytes@.len() > 0) by {
                crate::codec::lemma_header_len(crate::codec::major_array(), 2);
            }
            let cipher = match cryptde.encode(&stops[i].next_key, &PlainData { data: bytes }) {
                Ok(c) => c,
                Err(_) => {
                    // Unreachable: the stop's key was checked non-empty and a
                    // hop encoding is never empty.
                    proof {
                        assert(stops@[i as int]@.0.len() > 0);
                        assert(false);
                    }
                    return Err(RouteError::EmptyKey);
                },
            };
            assert(cipher@ == null_cipher(all_stops[i as int].0, hop_bytes(hop_plain_at(
                all_stops,
                i as int,
            ))));
            hops.push(cipher);
            i = i + 1;
            assert(hops_view(hops@) =~= route_cipher_hops(all_stops).subrange(0, i as int));
        }
        assert(hops_view(hops@) =~= route_cipher_hops(all_stops));
        Ok(Route { hops })
    }

    /// Decrypt the leading hop without consuming it.
    pub fn first_hop(&self, cryptde: &CryptDe) -> (r: Result<Hop, RouteError>)
        ensures
            self@.len() == 0 ==> r == Err::<Hop, RouteError>(RouteError::EmptyRoute),
            self@.len() > 0 ==> match decipher(cryptde.key@, self@[0]) {
                None => r == Err::<Hop, RouteError>(RouteError::HopDecryptFailure),
                Some(plain) => match parse_hop(plain) {
                    None => r == Err::<Hop, RouteError>(RouteError::HopParseFailure),
                    Some(hv) => r matches Ok(h) && h@ == hv,
                },
            },
    {
        broadcast use
            crate::views::lemma_keys_view_len,
            crate::views::lemma_keys_view_index,
            crate::views::lemma_hops_view_len,
            crate::views::lemma_hops_view_index,
            crate::views::lemma_stops_view_len,
            crate::views::lemma_stops_view_index;

        if self.hops.len() == 0 {
            return Err(RouteError::EmptyRoute);
        }
        proof {
            assert(self@[0] == self.hops@[0]@);
        }
        let plain = match cryptde.decode(&self.hops[0]) {
            Ok(p) => p,
            Err(_) => {
                return Err(RouteError::HopDecryptFailure);
            },
        };
        match decode_hop(plain.data.as_slice()) {
            Some(h) => Ok(h),
            None => Err(RouteError::HopParseFailure),
        }
    }

    /// Decrypt and remove the leading hop, appending a garbage hop of the
    /// same ciphertext length, so the hop count and the per-position
    /// ciphertext lengths of a uniform route are preserved.
    pub fn shift(&mut self, cryptde: &CryptDe) -> (r: Result<Hop, RouteError>)
        ensures
            old(self)@.len() == 0 ==> r == Err::<Hop, RouteError>(RouteError::EmptyRoute)
                && final(self)@ == old(self)@,
            old(self)@.len() > 0 ==> match decipher(cryptde.key@, old(self)@[0]) {
                None => r == Err::<Hop, RouteError>(RouteError::HopDecryptFailure)
                    && final(self)@ == old(self)@,
                Some(plain) => match parse_hop(plain) {
                    None => r == Err::<Hop, RouteError>(RouteError::HopParseFailure)
                        && final(self)@ == old(self)@,
                    Some(hv) => r matches Ok(h) && h@ == hv && final(self)@ == shifted(
                        old(self)@,
                    ),
                },
            },
    {
        broadcast use
            crate::views::lemma_keys_view_len,
            crate::views::lemma_keys_view_index,
            crate::views::lemma_hops_view_len,
            crate::views::lemma_hops_view_index,
            crate::views::lemma_stops_view_len,
            crate::views::lemma_stops_view_index;

        if self.hops.len() == 0 {
            return Err(RouteError::EmptyRoute);
        }
        proof {
            assert(self@[0] == self.hops@[0]@);
        }
        let plain = match cryptde.decode(&self.hops[0]) {
            Ok(p) => p,
            Err(_) => {
                return Err(RouteError::HopDecryptFailure);
            },
        };
        let hop = match decode_hop(plain.data.as_slice()) {
            Some(h) => h,
            None => {
                return Err(RouteError::HopParseFailure);
            },
        };
        let head = self.hops.remove(0);
        let garbage = cryptde.garbage(head.data.len());
        self.hops.push(garbage);
        assert(self@ =~= old(self)@.subrange(1, old(self)@.len() as int).push(garbage_bytes(
            old(self)@[0].len(),
        )));
        Ok(hop)
    }
}

/// When no segment names an empty key, no stop holds one.
#[verifier::rlimit(50)]
pub proof fn lemma_stops_keys_nonempty(segs: Seq<(Seq<Seq<u8>>, Component)>)
    requires
        segments_keys_nonempty(segs),
        forall|j: int| 0 <= j < segs.len() ==> #[trigger] segs[j].0.len() >= 1,
    ensures
        forall|t: int| 0 <= t < stops_of(segs).len() ==> #[trigger] stops_of(segs)[t].0.len() > 0,
    decreases segs.len(),
{
    if segs.len() > 0 {
        assert(forall|j: int|
            0 <= j < segs.drop_last().len() ==> segs.drop_last()[j] == segs[j]);
        assert(segments_keys_nonempty(segs.drop_last()));
        lemma_stops_keys_nonempty(segs.drop_last());
        let seg = segs.last();
        assert(seg == segs[segs.len() - 1]);
        let full = segment_stops(seg.0, seg.1);
        let added = if segs.len() == 1 {
            full
        } else {
            full.subrange(1, full.len() as int)
        };
        let prefix = stops_of(segs.drop_last());
        assert(stops_of(segs) == prefix + added);
        assert(full.len() == seg.0.len());
        assert(stops_of(segs).len() == prefix.len() + added.len());
        assert forall|t: int| 0 <= t < stops_of(segs).len() implies #[trigger] stops_of(
            segs,
        )[t].0.len() > 0 by {
            if t < prefix.len() {
                assert(stops_of(segs)[t] == prefix[t]);
            } else {
                let x = t - prefix.len();
                assert(stops_of(segs)[t] == added[x]);
                if segs.len() == 1 {
                    assert(added[x] == full[x]);
                    assert(full[x].0 == seg.0[x]);
                    assert(segs[segs.len() - 1].0[x].len() > 0);
                } else {
                    assert(added[x] == full[x + 1]);
                    assert(full[x + 1].0 == seg.0[x + 1]);
                    assert(segs[segs.len() - 1].0[x + 1].len() > 0);
                }
            }
        }
    }
}

/// A route built over valid segments satisfies the route invariant:
/// it holds at least two encrypted hops.
pub proof fn lemma_constructed_route_len(segs: Seq<(Seq<Seq<u8>>, Component)>)
    requires
        segments_valid(segs),
    ensures
        route_cipher_hops(stops_of(segs)).len() >= 2,
{
    lemma_stops_len_at_least(segs);
}

/// Route length preservation: one shift keeps the hop count, and when
/// every hop ciphertext of a route has length `ln`, every position of
/// the shifted route still holds a ciphertext of length `ln`.
pub proof fn lemma_shift_preserves_length(hops: Seq<Seq<u8>>, ln: nat)
    requires
        hops.len() > 0,
        forall|t: int| 0 <= t < hops.len() ==> #[trigger] hops[t].len() == ln,
    ensures
        shifted(hops).len() == hops.len(),
        forall|t: int| 0 <= t < shifted(hops).len() ==> #[trigger] shifted(hops)[t].len() == ln,
{
    assert forall|t: int| 0 <= t < shifted(hops).len() implies #[trigger] shifted(hops)[t].len()
        == ln by {
        if t < hops.len() - 1 {
            assert(shifted(hops)[t] == hops[t + 1]);
        } else {
            assert(shifted(hops)[t] == garbage_bytes(hops[0].len()));
        }
    }
}

/// The hops of a route after `i` shifts.
pub open spec fn shifted_n(hops: Seq<Seq<u8>>, i: nat) -> Seq<Seq<u8>>
    decreases i,
{
    if i == 0 {
        hops
    } else {
        shifted(shifted_n(hops, (i - 1) as nat))
    }
}

/// After `i` shifts of a route of more than `i` hops, position `t` holds
/// what position `t + i` held.
pub proof fn lemma_shifted_n_index(hops: Seq<Seq<u8>>, i: nat)
    requires
        i < hops.len(),
    ensures
        shifted_n(hops, i).len() == hops.len(),
        forall|t: int| 0 <= t < hops.len() - i ==> #[trigger] shifted_n(hops, i)[t] == hops[t + i],
    decreases i,
{
    if i > 0 {
        lemma_shifted_n_index(hops, (i - 1) as nat);
        let prev = shifted_n(hops, (i - 1) as nat);
        assert(shifted_n(hops, i) == shifted(prev));
        assert forall|t: int| 0 <= t < hops.len() - i implies #[trigger] shifted_n(hops, i)[t]
            == hops[t + i] by {
            assert(shifted(prev)[t] == prev[t + 1]);
            assert(prev[t + 1] == hops[t + 1 + (i - 1)]);
        }
    }
}

/// A single-segment route's stops are just that segment's stops.
pub proof fn lemma_single_segment_stops(keys: Seq<Seq<u8>>, c: Component)
    ensures
        stops_of(seq![(keys, c)]) == segment_stops(keys, c),
{
    let segs = seq![(keys, c)];
    assert(segs.last() == (keys, c));
    assert(segs.drop_last() =~= Seq::<(Seq<Seq<u8>>, Component)>::empty());
    assert(stops_of(Seq::<(Seq<Seq<u8>>, Component)>::empty()) == Seq::<(
        Seq<u8>,
        Component,
    )>::empty());
    assert(Seq::<(Seq<u8>, Component)>::empty() + segment_stops(keys, c) =~= segment_stops(
        keys,
        c,
    ));
}

/// Onion round trip: on the route built from one segment over keys
/// `[k_0, …, k_n]` with terminal component `c`, after `i` shifts the
/// leading hop decrypts under `k_i`, to the hop naming `k_{i+1}` and
/// `Hopper` while `i < n`, and naming `k_n` and `c` at `i == n`.
pub proof fn lemma_onion_round_trip(keys: Seq<Seq<u8>>, c: Component, i: int)
    requires
        keys.len() >= 2,
        forall|t: int| 0 <= t < keys.len() ==> #[trigger] keys[t].len() < pow256(8),
        0 <= i < keys.len(),
    ensures
        ({
            let route = route_cipher_hops(stops_of(seq![(keys, c)]));
            let cur = shifted_n(route, i as nat);
            let expected: (Seq<u8>, Component) = if i < keys.len() - 1 {
                (keys[i + 1], Component::Hopper)
            } else {
                (keys[i], c)
            };
            &&& cur.len() == route.len() == keys.len()
            &&& decipher(keys[i], cur[0]) == Some(hop_bytes(expected))
            &&& parse_hop(hop_bytes(expected)) == Some(expected)
        }),
{
    lemma_single_segment_stops(keys, c);
    let stops = segment_stops(keys, c);
    let route = route_cipher_hops(stops);
    assert(route.len() == keys.len());
    lemma_shifted_n_index(route, i as nat);
    let cur = shifted_n(route, i as nat);
    assert(cur[0] == route[0 + i]);
    assert(route[i] == null_cipher(stops[i].0, hop_bytes(hop_plain_at(stops, i))));
    assert(stops[i].0 == keys[i]);
    let expected: (Seq<u8>, Component) = if i < keys.len() - 1 {
        (keys[i + 1], Component::Hopper)
    } else {
        (keys[i], c)
    };
    assert(hop_plain_at(stops, i) == expected);
    assert(hop_bytes(expected).len() > 0) by {
        crate::codec::lemma_header_len(crate::codec::major_array(), 2);
    }
    crate::cryptde::lemma_null_round_trip(keys[i], hop_bytes(expected));
    assert(null_cipher(keys[i], hop_bytes(expected)).len() > 0);
    crate::hop::lemma_parse_hop(expected);
}

/// A valid segment list yields at least two stops.
pub proof fn lemma_stops_len_at_least(segs: Seq<(Seq<Seq<u8>>, Component)>)
    requires
        segments_valid(segs),
    ensures
        stops_of(segs).len() >= 2,
        stops_of(segs).len() >= segs.last().0.len(),
    decreases segs.len(),
{
    if segs.len() == 1 {
        assert(segs.drop_last().len() == 0);
    } else {
        assert(segments_valid(segs.drop_last())) by {
            assert(forall|j: int|
                0 <= j < segs.drop_last().len() ==> segs.drop_last()[j] == segs[j]);
        }
        lemma_stops_len_at_least(segs.drop_last());
    }
}

} // verus!
