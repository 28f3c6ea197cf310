//! One link of a source route, and its byte encoding.
//!
//! The cleartext form of a hop pairs the public key of the next peer with
//! the component addressed inside the terminal node.  On the wire a hop is
//! a two-element array: the key as a byte string, the component as an
//! unsigned-integer tag.  The ciphertext form is this encoding encrypted
//! to the peer that is meant to read it.

use vstd::prelude::*;

use crate::codec::bstr;
use crate::codec::header;
use crate::codec::header_len;
use crate::codec::lemma_parse_bstr;
use crate::codec::lemma_parse_header;
use crate::codec::major_array;
use crate::codec::major_uint;
use crate::codec::parse_bstr;
use crate::codec::parse_bstr_at;
use crate::codec::parse_header;
use crate::codec::parse_header_at;
use crate::codec::pow256;
use crate::codec::push_header;
use crate::bytes::push_all;
use crate::cryptde::Key;
use crate::dispatcher::Component;

verus! {

/// Cleartext form of one link in a source route.
#[derive(Debug)]
pub struct Hop {
    pub next_key: Key,
    pub component: Component,
}

impl View for Hop {
    type V = (Seq<u8>, Component);

    open spec fn view(&self) -> (Seq<u8>, Component) {
        (self.next_key@, self.component)
    }
}

impl Hop {
    /// A hop naming the given peer and component.
    pub fn new(next_key: &Key, component: Component) -> (r: Hop)
        ensures
            r@ == (next_key@, component),
    {
        Hop { next_key: next_key.clone(), component }
    }
}

impl Clone for Hop {
    fn clone(&self) -> (r: Hop)
        ensures
            r@ == self@,
    {
        Hop { next_key: self.next_key.clone(), component: self.component }
    }
}

impl PartialEq for Hop {
    fn eq(&self, other: &Hop) -> (r: bool) {
        self.next_key == other.next_key && self.component == other.component
    }
}

impl Eq for Hop {
}

impl vstd::std_specs::cmp::PartialEqSpecImpl for Hop {
    open spec fn obeys_eq_spec() -> bool {
        true
    }

    open spec fn eq_spec(&self, other: &Hop) -> bool {
        self@ == other@
    }
}

/// The wire tag of a component.
pub open spec fn component_tag_spec(c: Component) -> nat {
    match c {
        Component::ProxyServer => 0,
        Component::ProxyClient => 1,
        Component::Neighborhood => 2,
        Component::Hopper => 3,
    }
}

/// The component a wire tag denotes, if any.
pub open spec fn component_from_tag(t: nat) -> Option<Component> {
    if t == 0 {
        Some(Component::ProxyServer)
    } else if t == 1 {
        Some(Component::ProxyClient)
    } else if t == 2 {
        Some(Component::Neighborhood)
    } else if t == 3 {
        Some(Component::Hopper)
    } else {
        None
    }
}

/// The wire tag of a component.
pub fn component_tag(c: Component) -> (r: u8)
    ensures
        r as nat == component_tag_spec(c),
{
    match c {
        Component::ProxyServer => 0,
        Component::ProxyClient => 1,
        Component::Neighborhood => 2,
        Component::Hopper => 3,
    }
}

/// The byte encoding of a hop: a two-element array of the key and the
/// component tag.
pub open spec fn hop_bytes(h: (Seq<u8>, Component)) -> Seq<u8> {
    header(major_array(), 2) + bstr(h.0) + header(major_uint(), component_tag_spec(h.1))
}

/// Parse a full hop encoding; trailing bytes are refused.
pub open spec fn parse_hop(s: Seq<u8>) -> Option<(Seq<u8>, Component)> {
    match parse_header(s) {
        Some((m, n, c)) => {
            if m == major_array() && n == 2 {
                match parse_bstr(s.subrange(c as int, s.len() as int)) {
                    Some((key, c2)) => {
                        let after = s.subrange((c + c2) as int, s.len() as int);
                        match parse_header(after) {
                            Some((m3, tag, c3)) => {
                                if m3 == major_uint() && c + c2 + c3 == s.len() {
                                    match component_from_tag(tag) {
                                        Some(comp) => Some((key, comp)),
                                        None => None,
                                    }
                                } else {
                                    None
                                }
                            },
                            None => None,
                        }
                    },
                    None => None,
                }
            } else {
                None
            }
        },
        None => None,
    }
}

/// Parsing inverts encoding for hops.
pub proof fn lemma_parse_hop(h: (Seq<u8>, Component))
    requires
        h.0.len() < pow256(8),
    ensures
        parse_hop(hop_bytes(h)) == Some(h),
        hop_bytes(h).len() == 1 + header_len(h.0.len()) + h.0.len() + 1,
{
    let s = hop_bytes(h);
    let tag = component_tag_spec(h.1);
    let tail = bstr(h.0) + header(major_uint(), tag);
    assert(s =~= header(major_array(), 2) + tail);
    lemma_parse_header(major_array(), 2, tail);
    assert(parse_header(s) == Some((major_array(), 2nat, 1nat)));
    assert(s.subrange(1, s.len() as int) =~= tail);
    lemma_parse_bstr(h.0, header(major_uint(), tag));
    let c2 = bstr(h.0).len();
    assert(parse_bstr(tail) == Some((h.0, c2)));
    let after = s.subrange((1 + c2) as int, s.len() as int);
    assert(after =~= header(major_uint(), tag));
    lemma_parse_header(major_uint(), tag, Seq::<u8>::empty());
    assert(header(major_uint(), tag) + Seq::<u8>::empty() =~= header(major_uint(), tag));
    assert(parse_header(after) == Some((major_uint(), tag, 1nat)));
    assert(header(major_uint(), tag).len() == 1);
    assert(s.len() == 1 + c2 + 1);
    assert(component_from_tag(tag) == Some(h.1));
}

/// Encode a hop for encryption.
pub fn encode_hop(h: &Hop) -> (r: Vec<u8>)
    ensures
        r@ == hop_bytes(h@),
{
    let mut out: Vec<u8> = Vec::new();
    push_header(&mut out, 4, 2);
    push_header(&mut out, 2, h.next_key.data.len());
    push_all(&mut out, h.next_key.data.as_slice());
    push_header(&mut out, 0, component_tag(h.component) as usize);
    assert(out@ =~= hop_bytes(h@));
    out
}

/// Decode the cleartext of a hop.
pub fn decode_hop(s: &[u8]) -> (r: Option<Hop>)
    ensures
        match parse_hop(s@) {
            Some(hv) => r matches Some(h) && h@ == hv,
            None => r is None,
        },
{
    proof {
        assert(s@.subrange(0, s@.len() as int) =~= s@);
    }
    let (m, n, p) = match parse_header_at(s, 0) {
        Some(t) => t,
        None => {
            return None;
        },
    };
    if m != 4 || n != 2 {
        return None;
    }
    let (key_bytes, p2) = match parse_bstr_at(s, p) {
        Some(t) => t,
        None => {
            return None;
        },
    };
    let (m3, tag, p3) = match parse_header_at(s, p2) {
        Some(t) => t,
        None => {
            return None;
        },
    };
    if m3 != 0 || p3 != s.len() {
        return None;
    }
    let component = if tag == 0 {
        Component::ProxyServer
    } else if tag == 1 {
        Component::ProxyClient
    } else if tag == 2 {
        Component::Neighborhood
    } else if tag == 3 {
        Component::Hopper
    } else {
        return None;
    };
    Some(Hop { next_key: Key { data: key_bytes }, component })
}

} // verus!
