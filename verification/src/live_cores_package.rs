//! The cores package in its three forms, and the byte codec that puts
//! the on-the-wire form on the wire.
//!
//! A [`LiveCoresPackage`] is what travels between peers: a route and an
//! opaque encrypted payload.  An [`IncipientCoresPackage`] is the locally
//! originated form, still carrying the cleartext payload and its
//! destination key.  An [`ExpiredCoresPackage`] is what a local component
//! receives when a package terminates here.  The wire encoding is a
//! two-element array of the route (an array of byte-string hops) and the
//! payload (a byte string); the module proves that decoding inverts
//! encoding.

use vstd::prelude::*;

use crate::bytes::push_all;
use crate::codec::bstr;
use crate::codec::header;
use crate::codec::lemma_parse_bstr;
use crate::codec::lemma_parse_header;
use crate::codec::major_array;
use crate::codec::parse_bstr;
use crate::codec::parse_bstr_at;
use crate::codec::parse_header;
use crate::codec::parse_header_at;
use crate::codec::pow256;
use crate::codec::push_header;
use crate::cryptde::decipher;
use crate::cryptde::null_cipher;
use crate::cryptde::CryptData;
use crate::cryptde::CryptDe;
use crate::cryptde::CryptdecError;
use crate::cryptde::Key;
use crate::cryptde::PlainData;
use crate::dispatcher::IpAddress;
use crate::hop::parse_hop;
use crate::hop::Hop;
use crate::route::Route;
use crate::route::RouteError;
use crate::views::hops_view;

verus! {

/// Why a package conversion failed.
#[derive(Clone, Copy, PartialEq, Eq, Structural, Debug)]
pub enum LiveCoresPackageError {
    Encryption(CryptdecError),
    Route(RouteError),
}

/// The on-the-wire form: a route and a payload encrypted to the route's
/// terminal recipient.
#[derive(PartialEq, Eq, Debug)]
pub struct LiveCoresPackage {
    pub route: Route,
    pub payload: CryptData,
}

impl View for LiveCoresPackage {
    type V = (Seq<Seq<u8>>, Seq<u8>);

    open spec fn view(&self) -> (Seq<Seq<u8>>, Seq<u8>) {
        (self.route@, self.payload@)
    }
}

impl Clone for LiveCoresPackage {
    fn clone(&self) -> (r: LiveCoresPackage)
        ensures
            r@ == self@,
    {
        LiveCoresPackage { route: self.route.clone(), payload: self.payload.clone() }
    }
}

/// The locally originated form: the cleartext payload still beside the
/// key it must be encrypted to.
#[derive(PartialEq, Eq, Debug)]
pub struct IncipientCoresPackage {
    pub route: Route,
    pub payload: PlainData,
    pub payload_destination_key: Key,
}

impl IncipientCoresPackage {
    /// A package over `route` whose payload will be encrypted to
    /// `payload_destination_key`.
    pub fn new(route: Route, payload: PlainData, payload_destination_key: &Key) -> (r:
        IncipientCoresPackage)
        ensures
            r.route@ == route@,
            r.payload@ == payload@,
            r.payload_destination_key@ == payload_destination_key@,
    {
        IncipientCoresPackage {
            route,
            payload,
            payload_destination_key: payload_destination_key.clone(),
        }
    }
}

impl Clone for IncipientCoresPackage {
    fn clone(&self) -> (r: IncipientCoresPackage)
        ensures
            r.route@ == self.route@,
            r.payload@ == self.payload@,
            r.payload_destination_key@ == self.payload_destination_key@,
    {
        IncipientCoresPackage {
            route: self.route.clone(),
            payload: self.payload.clone(),
            payload_destination_key: self.payload_destination_key.clone(),
        }
    }
}

/// The locally delivered form: what a component receives when a package
/// terminates at this node.
#[derive(PartialEq, Eq, Debug)]
pub struct ExpiredCoresPackage {
    pub remaining_route: Route,
    pub payload: PlainData,
}

impl ExpiredCoresPackage {
    /// The decrypted payload.
    pub fn payload_data(&self) -> (r: PlainData)
        ensures
            r@ == self.payload@,
    {
        self.payload.clone()
    }
}

impl Clone for ExpiredCoresPackage {
    fn clone(&self) -> (r: ExpiredCoresPackage)
        ensures
            r.remaining_route@ == self.remaining_route@,
            r.payload@ == self.payload@,
    {
        ExpiredCoresPackage {
            remaining_route: self.remaining_route.clone(),
            payload: self.payload.clone(),
        }
    }
}

/// An expired package together with the address it arrived from, for the
/// neighborhood sink.
#[derive(PartialEq, Eq, Debug)]
pub struct ExpiredCoresPackagePackage {
    pub expired: ExpiredCoresPackage,
    pub sender_ip: IpAddress,
}

impl Clone for ExpiredCoresPackagePackage {
    fn clone(&self) -> (r: ExpiredCoresPackagePackage)
        ensures
            r.expired.remaining_route@ == self.expired.remaining_route@,
            r.expired.payload@ == self.expired.payload@,
            r.sender_ip == self.sender_ip,
    {
        ExpiredCoresPackagePackage { expired: self.expired.clone(), sender_ip: self.sender_ip }
    }
}

/// The concatenated byte-string items of a route's hops.
pub open spec fn hops_items(hops: Seq<Seq<u8>>) -> Seq<u8>
    decreases hops.len(),
{
    if hops.len() == 0 {
        Seq::empty()
    } else {
        bstr(hops[0]) + hops_items(hops.drop_first())
    }
}

/// The byte encoding of a route: an array of byte-string hops.
pub open spec fn route_bytes(hops: Seq<Seq<u8>>) -> Seq<u8> {
    header(major_array(), hops.len()) + hops_items(hops)
}

/// The byte encoding of a live package: a two-element array of the route
/// and the payload.
pub open spec fn lcp_bytes(l: (Seq<Seq<u8>>, Seq<u8>)) -> Seq<u8> {
    header(major_array(), 2) + route_bytes(l.0) + bstr(l.1)
}

/// Parse `count` byte-string items from the front of `s`: the items and
/// the number of input bytes consumed.
pub open spec fn parse_hops_items(s: Seq<u8>, count: nat) -> Option<(Seq<Seq<u8>>, nat)>
    decreases count,
{
    if count == 0 {
        Some((Seq::empty(), 0))
    } else {
        match parse_bstr(s) {
            Some((b, c)) => match parse_hops_items(
                s.subrange(c as int, s.len() as int),
                (count - 1) as nat,
            ) {
                Some((bs, c2)) => Some((seq![b] + bs, c + c2)),
                None => None,
            },
            None => None,
        }
    }
}

/// Parse a full live-package encoding; a route of fewer than two hops
/// and trailing bytes are refused.
pub open spec fn parse_lcp(s: Seq<u8>) -> Option<(Seq<Seq<u8>>, Seq<u8>)> {
    match parse_header(s) {
        Some((m1, n1, c1)) => {
            if m1 == major_array() && n1 == 2 {
                let s1 = s.subrange(c1 as int, s.len() as int);
                match parse_header(s1) {
                    Some((m2, n2, c2)) => {
                        if m2 == major_array() && n2 >= 2 {
                            let s2 = s1.subrange(c2 as int, s1.len() as int);
                            match parse_hops_items(s2, n2) {
                                Some((hops, c3)) => {
                                    let s3 = s2.subrange(c3 as int, s2.len() as int);
                                    match parse_bstr(s3) {
                                        Some((payload, c4)) => {
                                            if c4 == s3.len() {
                                                Some((hops, payload))
                                            } else {
                                                None
                                            }
                                        },
                                        None => None,
                                    }
                                },
                                None => None,
                            }
                        } else {
                            None
                        }
                    },
                    None => None,
                }
            } else {
                None
            }
        },
        None => None,
    }
}

/// Appending one hop appends its byte-string item.
pub proof fn lemma_hops_items_push(hops: Seq<Seq<u8>>, h: Seq<u8>)
    ensures
        hops_items(hops.push(h)) == hops_items(hops) + bstr(h),
    decreases hops.len(),
{
    if hops.len() == 0 {
        assert(hops.push(h).drop_first() =~= Seq::<Seq<u8>>::empty());
        assert(hops.push(h)[0] == h);
        assert(hops_items(Seq::<Seq<u8>>::empty()) == Seq::<u8>::empty());
        assert(hops_items(hops.push(h)) == bstr(h) + Seq::<u8>::empty());
        assert(hops_items(hops.push(h)) =~= hops_items(hops) + bstr(h));
    } else {
        assert(hops.push(h).drop_first() =~= hops.drop_first().push(h));
        lemma_hops_items_push(hops.drop_first(), h);
        assert(hops.push(h)[0] == hops[0]);
        assert(hops_items(hops.drop_first().push(h)) == hops_items(hops.drop_first()) + bstr(h));
        assert(hops_items(hops.push(h)) == bstr(hops[0]) + (hops_items(hops.drop_first()) + bstr(
            h,
        )));
        assert(hops_items(hops) == bstr(hops[0]) + hops_items(hops.drop_first()));
        assert(bstr(hops[0]) + (hops_items(hops.drop_first()) + bstr(h)) =~= (bstr(hops[0])
            + hops_items(hops.drop_first())) + bstr(h));
    }
}

/// Parsing inverts encoding for hop-item lists, whatever follows them.
pub proof fn lemma_parse_hops_items(hops: Seq<Seq<u8>>, rest: Seq<u8>)
    requires
        forall|i: int| 0 <= i < hops.len() ==> #[trigger] hops[i].len() < pow256(8),
    ensures
        parse_hops_items(hops_items(hops) + rest, hops.len()) == Some(
            (hops, hops_items(hops).len()),
        ),
    decreases hops.len(),
{
    if hops.len() == 0 {
        assert(hops =~= Seq::<Seq<u8>>::empty());
        assert(hops_items(hops) + rest =~= rest);
    } else {
        let h0 = hops[0];
        let tail = hops.drop_first();
        let s = hops_items(hops) + rest;
        assert(s =~= bstr(h0) + (hops_items(tail) + rest));
        lemma_parse_bstr(h0, hops_items(tail) + rest);
        let bl = bstr(h0).len();
        assert(parse_bstr(s) == Some((h0, bl)));
        assert(s.subrange(bl as int, s.len() as int) =~= hops_items(tail) + rest);
        assert(forall|i: int| 0 <= i < tail.len() ==> #[trigger] tail[i].len() < pow256(8));
        lemma_parse_hops_items(tail, rest);
        assert(seq![h0] + tail =~= hops);
        assert(hops_items(hops).len() == bl + hops_items(tail).len());
    }
}

/// Parsing inverts encoding for live packages.
pub proof fn lemma_parse_lcp(route: Seq<Seq<u8>>, payload: Seq<u8>)
    requires
        2 <= route.len() < pow256(8),
        forall|i: int| 0 <= i < route.len() ==> #[trigger] route[i].len() < pow256(8),
        payload.len() < pow256(8),
    ensures
        parse_lcp(lcp_bytes((route, payload))) == Some((route, payload)),
{
    let s = lcp_bytes((route, payload));
    let rb = route_bytes(route);
    let pb = bstr(payload);
    assert(s =~= header(major_array(), 2) + (rb + pb));
    lemma_parse_header(major_array(), 2, rb + pb);
    assert(header(major_array(), 2).len() == 1) by {
        crate::codec::lemma_header_len(major_array(), 2);
    }
    assert(parse_header(s) == Some((major_array(), 2nat, 1nat)));
    let s1 = s.subrange(1, s.len() as int);
    assert(s1 =~= rb + pb);
    assert(s1 =~= header(major_array(), route.len()) + (hops_items(route) + pb));
    lemma_parse_header(major_array(), route.len(), hops_items(route) + pb);
    let c2 = crate::codec::header_len(route.len());
    assert(parse_header(s1) == Some((major_array(), route.len(), c2)));
    let s2 = s1.subrange(c2 as int, s1.len() as int);
    assert(header(major_array(), route.len()).len() == c2) by {
        crate::codec::lemma_header_len(major_array(), route.len());
    }
    assert(s2 =~= hops_items(route) + pb);
    lemma_parse_hops_items(route, pb);
    assert(parse_hops_items(s2, route.len()) == Some((route, hops_items(route).len())));
    let c3 = hops_items(route).len();
    let s3 = s2.subrange(c3 as int, s2.len() as int);
    assert(s3 =~= pb);
    assert(pb =~= pb + Seq::<u8>::empty());
    lemma_parse_bstr(payload, Seq::<u8>::empty());
    assert(parse_bstr(s3) == Some((payload, pb.len())));
    assert(s3.len() == pb.len());
}

impl LiveCoresPackage {
    /// A package over `route` carrying `payload`.
    pub fn new(route: Route, payload: CryptData) -> (r: LiveCoresPackage)
        ensures
            r@ == (route@, payload@),
    {
        LiveCoresPackage { route, payload }
    }

    /// Transform a locally originated package into on-the-wire form:
    /// encrypt the payload to its destination key, shift the route past
    /// this node's own hop, and name the peer the result must go to.
    pub fn from_incipient(incipient: IncipientCoresPackage, cryptde: &CryptDe) -> (r: Result<
        (LiveCoresPackage, Key),
        LiveCoresPackageError,
    >)
        ensures
            ({
                let dkey = incipient.payload_destination_key@;
                let p = incipient.payload@;
                let r0 = incipient.route@;
                &&& dkey.len() == 0 ==> r == Err::<(LiveCoresPackage, Key), LiveCoresPackageError>(
                    LiveCoresPackageError::Encryption(CryptdecError::EmptyKey),
                )
                &&& dkey.len() > 0 && p.len() == 0 ==> r == Err::<
                    (LiveCoresPackage, Key),
                    LiveCoresPackageError,
                >(LiveCoresPackageError::Encryption(CryptdecError::EmptyData))
                &&& dkey.len() > 0 && p.len() > 0 ==> {
                    if r0.len() == 0 {
                        r == Err::<(LiveCoresPackage, Key), LiveCoresPackageError>(
                            LiveCoresPackageError::Route(RouteError::EmptyRoute),
                        )
                    } else {
                        match decipher(cryptde.key@, r0[0]) {
                            None => r == Err::<(LiveCoresPackage, Key), LiveCoresPackageError>(
                                LiveCoresPackageError::Route(RouteError::HopDecryptFailure),
                            ),
                            Some(plain) => match parse_hop(plain) {
                                None => r == Err::<(LiveCoresPackage, Key), LiveCoresPackageError>(
                                    LiveCoresPackageError::Route(RouteError::HopParseFailure),
                                ),
                                Some(hv) => r matches Ok((live, k)) && live@ == (
                                    crate::route::shifted(r0),
                                    null_cipher(dkey, p),
                                ) && k@ == hv.0,
                            },
                        }
                    }
                }
            }),
    {
        let enc = match cryptde.encode(&incipient.payload_destination_key, &incipient.payload) {
            Ok(c) => c,
            Err(e) => {
                return Err(LiveCoresPackageError::Encryption(e));
            },
        };
        let mut route = incipient.route;
        let hop = match route.shift(cryptde) {
            Ok(h) => h,
            Err(e) => {
                return Err(LiveCoresPackageError::Route(e));
            },
        };
        Ok((LiveCoresPackage { route, payload: enc }, hop.next_key))
    }

    /// Decrypt the leading hop without consuming it.
    pub fn next_hop(&self, cryptde: &CryptDe) -> (r: Result<Hop, RouteError>)
        ensures
            self.route@.len() == 0 ==> r == Err::<Hop, RouteError>(RouteError::EmptyRoute),
            self.route@.len() > 0 ==> match decipher(cryptde.key@, self.route@[0]) {
                None => r == Err::<Hop, RouteError>(RouteError::HopDecryptFailure),
                Some(plain) => match parse_hop(plain) {
                    None => r == Err::<Hop, RouteError>(RouteError::HopParseFailure),
                    Some(hv) => r matches Ok(h) && h@ == hv,
                },
            },
    {
        self.route.first_hop(cryptde)
    }

    /// Shift this package's route past the current hop, naming the peer
    /// the remainder must be relayed to.
    pub fn to_next_live(self, cryptde: &CryptDe) -> (r: Result<
        (Key, LiveCoresPackage),
        RouteError,
    >)
        ensures
            self.route@.len() == 0 ==> r == Err::<(Key, LiveCoresPackage), RouteError>(
                RouteError::EmptyRoute,
            ),
            self.route@.len() > 0 ==> match decipher(cryptde.key@, self.route@[0]) {
                None => r == Err::<(Key, LiveCoresPackage), RouteError>(
                    RouteError::HopDecryptFailure,
                ),
                Some(plain) => match parse_hop(plain) {
                    None => r == Err::<(Key, LiveCoresPackage), RouteError>(
                        RouteError::HopParseFailure,
                    ),
                    Some(hv) => r matches Ok((k, live)) && k@ == hv.0 && live@ == (
                        crate::route::shifted(self.route@),
                        self.payload@,
                    ),
                },
            },
    {
        let mut route = self.route;
        let hop = match route.shift(cryptde) {
            Ok(h) => h,
            Err(e) => {
                return Err(e);
            },
        };
        Ok((hop.next_key, LiveCoresPackage { route, payload: self.payload }))
    }

    /// Decrypt the payload with this node's key, turning the package into
    /// its locally delivered form.
    pub fn to_expired(self, cryptde: &CryptDe) -> (r: Result<ExpiredCoresPackage, CryptdecError>)
        ensures
            self.payload@.len() == 0 ==> r == Err::<ExpiredCoresPackage, CryptdecError>(
                CryptdecError::EmptyData,
            ),
            self.payload@.len() > 0 ==> match crate::cryptde::null_decipher(
                cryptde.key@,
                self.payload@,
            ) {
                Some(p) => r matches Ok(e) && e.remaining_route@ == self.route@ && e.payload@ == p,
                None => r == Err::<ExpiredCoresPackage, CryptdecError>(CryptdecError::InvalidKey),
            },
    {
        match cryptde.decode(&self.payload) {
            Ok(p) => Ok(ExpiredCoresPackage { remaining_route: self.route, payload: p }),
            Err(e) => Err(e),
        }
    }

    /// Encode this package for the wire.
    #[verifier::loop_isolation(false)]
    pub fn encode(&self) -> (r: Vec<u8>)
        ensures
            r@ == lcp_bytes(self@),
    {
        broadcast use crate::views::lemma_hops_view_len, crate::views::lemma_hops_view_index;

        let mut out: Vec<u8> = Vec::new();
        push_header(&mut out, 4, 2);
        push_header(&mut out, 4, self.route.hops.len());
        let ghost head = header(major_array(), 2) + header(major_array(), self.route@.len());
        assert(out@ =~= head);
        proof {
            assert(self.route@.subrange(0, 0) =~= Seq::<Seq<u8>>::empty());
            assert(out@ =~= head + hops_items(self.route@.subrange(0, 0)));
        }
        let mut i: usize = 0;
        while i < self.route.hops.len()
            invariant
                i <= self.route.hops@.len(),
                out@ == head + hops_items(self.route@.subrange(0, i as int)),
            decreases self.route.hops@.len() - i,
        {
            let hop = &self.route.hops[i];
            push_header(&mut out, 2, hop.data.len());
            push_all(&mut out, hop.data.as_slice());
            proof {
                let prefix = self.route@.subrange(0, i as int);
                assert(self.route@[i as int] == self.route.hops@[i as int]@);
                lemma_hops_items_push(prefix, self.route@[i as int]);
                assert(prefix.push(self.route@[i as int]) =~= self.route@.subrange(
                    0,
                    (i + 1) as int,
                ));
                assert(out@ =~= head + hops_items(self.route@.subrange(0, (i + 1) as int)));
            }
            i = i + 1;
        }
        proof {
            assert(self.route@.subrange(0, self.route@.len() as int) =~= self.route@);
        }
        push_header(&mut out, 2, self.payload.data.len());
        push_all(&mut out, self.payload.data.as_slice());
        assert(out@ =~= lcp_bytes(self@));
        out
    }

    /// Decode a package from the wire.
    #[verifier::loop_isolation(false)]
    #[verifier::rlimit(100)]
    pub fn decode(s: &[u8]) -> (r: Option<LiveCoresPackage>)
        ensures
            match parse_lcp(s@) {
                Some(l) => r matches Some(p) && p@ == l,
                None => r is None,
            },
    {
        broadcast use crate::views::lemma_hops_view_len, crate::views::lemma_hops_view_index;

        proof {
            assert(s@.subrange(0, s@.len() as int) =~= s@);
        }
        let (m1, n1, p1) = match parse_header_at(s, 0) {
            Some(t) => t,
            None => {
                return None;
            },
        };
        if m1 != 4 || n1 != 2 {
            return None;
        }
        let ghost s1 = s@.subrange(p1 as int, s@.len() as int);
        let (m2, n2, p2) = match parse_header_at(s, p1) {
            Some(t) => t,
            None => {
                return None;
            },
        };
        if m2 != 4 || n2 < 2 {
            return None;
        }
        let ghost s2 = s1.subrange((p2 - p1) as int, s1.len() as int);
        proof {
            assert(s2 =~= s@.subrange(p2 as int, s@.len() as int));
        }
        let mut hops: Vec<CryptData> = Vec::new();
        let mut pos: usize = p2;
        let mut k: u64 = 0;
        while k < n2
            invariant
                0 <= k <= n2,
                p2 <= pos <= s@.len(),
                hops@.len() == k,
                s2 == s@.subrange(p2 as int, s@.len() as int),
                parse_hops_items(s2, n2 as nat) == match parse_hops_items(
                    s@.subrange(pos as int, s@.len() as int),
                    (n2 - k) as nat,
                ) {
                    Some((tl, c)) => Some(
                        (hops_view(hops@) + tl, ((pos - p2) as nat + c) as nat),
                    ),
                    None => None::<(Seq<Seq<u8>>, nat)>,
                },
            decreases n2 - k,
        {
            let ghost suffix = s@.subrange(pos as int, s@.len() as int);
            let (b, newpos) = match parse_bstr_at(s, pos) {
                Some(t) => t,
                None => {
                    proof {
                        assert(parse_hops_items(suffix, (n2 - k) as nat) is None);
                        assert(parse_hops_items(s2, n2 as nat) is None);
                    }
                    return None;
                },
            };
            let ghost bc = (newpos - pos) as nat;
            proof {
                let nx = s@.subrange(newpos as int, s@.len() as int);
                assert(nx =~= suffix.subrange(bc as int, suffix.len() as int));
            }
            let ghost prev = hops@;
            hops.push(CryptData { data: b });
            k = k + 1;
            pos = newpos;
            proof {
                assert(hops@ == prev.push(CryptData { data: b }));
                let bv = parse_bstr(suffix).unwrap().0;
                assert(hops_view(hops@)[prev.len() as int] == bv);
                assert forall|t: int| 0 <= t < prev.len() implies hops_view(hops@)[t]
                    == hops_view(prev)[t] by {
                    assert(hops@[t] == prev[t]);
                }
                assert(hops_view(hops@) =~= hops_view(prev).push(bv));
                let nx = s@.subrange(pos as int, s@.len() as int);
                match parse_hops_items(nx, (n2 - k) as nat) {
                    Some((tl, c)) => {
                        assert(parse_hops_items(suffix, (n2 - (k - 1)) as nat) == Some(
                            (seq![bv] + tl, (bc + c) as nat),
                        ));
                        assert(hops_view(prev) + (seq![bv] + tl) =~= hops_view(hops@) + tl);
                    },
                    None => {
                        assert(parse_hops_items(suffix, (n2 - (k - 1)) as nat) is None);
                    },
                }
            }
        }
        proof {
            let suffix = s@.subrange(pos as int, s@.len() as int);
            assert(parse_hops_items(suffix, 0) == Some((Seq::<Seq<u8>>::empty(), 0nat)));
            assert(hops_view(hops@) + Seq::<Seq<u8>>::empty() =~= hops_view(hops@));
            assert(parse_hops_items(s2, n2 as nat) == Some(
                (hops_view(hops@), (pos - p2) as nat),
            ));
        }
        let (payload, p4) = match parse_bstr_at(s, pos) {
            Some(t) => t,
            None => {
                proof {
                    let c3 = (pos - p2) as nat;
                    let s3 = s2.subrange(c3 as int, s2.len() as int);
                    assert(s3 =~= s@.subrange(pos as int, s@.len() as int));
                }
                return None;
            },
        };
        proof {
            let c3 = (pos - p2) as nat;
            let s3 = s2.subrange(c3 as int, s2.len() as int);
            assert(s3 =~= s@.subrange(pos as int, s@.len() as int));
        }
        if p4 != s.len() {
            return None;
        }
        Some(LiveCoresPackage { route: Route { hops }, payload: CryptData { data: payload } })
    }
}

/// Codec determinism: encoding is a function of the value alone, decoding
/// inverts it, and so `encode(decode(encode(x))) == encode(x)` for the
/// on-the-wire package form.
pub proof fn lemma_codec_deterministic(route: Seq<Seq<u8>>, payload: Seq<u8>)
    requires
        2 <= route.len() < pow256(8),
        forall|i: int| 0 <= i < route.len() ==> #[trigger] route[i].len() < pow256(8),
        payload.len() < pow256(8),
    ensures
        parse_lcp(lcp_bytes((route, payload))) == Some((route, payload)),
        ({
            let e = lcp_bytes((route, payload));
            parse_lcp(e) matches Some(l) && lcp_bytes(l) == e
        }),
{
    lemma_parse_lcp(route, payload);
}

} // verus!
