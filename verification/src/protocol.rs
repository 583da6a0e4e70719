//! Parsing raw bytes into a protocol frame.
//!
//! `spec_parse` is the denotation of the wire format: the frame a buffer
//! describes, or the typed failure.  `parser_trojan` computes exactly that
//! denotation.  Every failure is a signal for the caller to fall back to
//! opaque forwarding, never a hard error.

use crate::trojan::{
    addr_wire_bytes, be_bytes_of_u16, crlf, spec_serialize, u16_of_be, Address, AddressView,
    IpOctets, Trojan, TrojanView,
};
use crate::utility::{matches_at, search_u8_vec};
use vstd::prelude::*;
use vstd::slice::{slice_subrange, slice_to_vec};
use vstd::utf8::{
    decode_utf8, encode_utf8, encode_utf8_decode_utf8, encode_utf8_valid_utf8, valid_utf8,
};

verus! {

/// Why a buffer failed to parse as a protocol frame.
#[derive(Clone, Copy, Debug, PartialEq, Eq, Structural)]
pub enum FrameParseError {
    /// No CR LF anywhere: the buffer is not a protocol frame at all.
    NoDelimiter,
    /// The address-type byte is none of the three known values.
    UnknownAddressType,
    /// The domain-name bytes are not valid text.
    InvalidDomainEncoding,
    /// The buffer ends before the header it announces is complete.
    Truncated,
}

/// First index at or after `i` where the two bytes CR LF stand in `s`.
pub open spec fn find_crlf_from(s: Seq<u8>, i: int) -> Option<int>
    decreases s.len() - i,
{
    if i + 2 > s.len() {
        None
    } else if s[i] == 13 && s[i + 1] == 10 {
        Some(i)
    } else {
        find_crlf_from(s, i + 1)
    }
}

/// First index where CR LF stands in `s`.
pub open spec fn find_crlf(s: Seq<u8>) -> Option<int> {
    find_crlf_from(s, 0)
}

/// Reading the header that follows the credential delimiter: the command
/// byte, the destination address, and how many header bytes the address
/// part consumed (command and type bytes included).
pub open spec fn spec_parse_header(h: Seq<u8>) -> Result<(u8, AddressView, int), FrameParseError> {
    if h.len() < 2 {
        Err(FrameParseError::Truncated)
    } else {
        let cmd = h[0];
        let addr_type = h[1];
        if addr_type == Trojan::ADDR_TYPE_IPV4 {
            if h.len() < 8 {
                Err(FrameParseError::Truncated)
            } else {
                Ok((cmd, AddressView::V4(h.subrange(2, 6), u16_of_be(h[6], h[7])), 8))
            }
        } else if addr_type == Trojan::ADDR_TYPE_IPV6 {
            if h.len() < 20 {
                Err(FrameParseError::Truncated)
            } else {
                Ok((cmd, AddressView::V6(h.subrange(2, 18), u16_of_be(h[18], h[19])), 20))
            }
        } else if addr_type == Trojan::ADDR_TYPE_DOMAIN_NAME {
            if h.len() < 3 {
                Err(FrameParseError::Truncated)
            } else {
                let l = h[2] as int;
                if h.len() < 5 + l {
                    Err(FrameParseError::Truncated)
                } else if !valid_utf8(h.subrange(3, 3 + l)) {
                    Err(FrameParseError::InvalidDomainEncoding)
                } else {
                    Ok(
                        (
                            cmd,
                            AddressView::Domain(
                                decode_utf8(h.subrange(3, 3 + l)),
                                u16_of_be(h[3 + l], h[4 + l]),
                            ),
                            5 + l,
                        ),
                    )
                }
            }
        } else {
            Err(FrameParseError::UnknownAddressType)
        }
    }
}

/// The frame a buffer describes: credential up to the first CR LF, then
/// the header, then - when at least one byte follows the trailing CR LF -
/// the inline payload.
pub open spec fn spec_parse(s: Seq<u8>) -> Result<TrojanView, FrameParseError> {
    match find_crlf(s) {
        None => Err(FrameParseError::NoDelimiter),
        Some(p) => {
            let pwd = s.subrange(0, p);
            let header = s.subrange(p + 2, s.len() as int);
            match spec_parse_header(header) {
                Err(e) => Err(e),
                Ok((cmd, address, consumed)) => Ok(
                    TrojanView {
                        pwd,
                        cmd,
                        address,
                        payload: if header.len() > consumed + 2 {
                            header.subrange(consumed + 2, header.len() as int)
                        } else {
                            Seq::empty()
                        },
                    },
                ),
            }
        },
    }
}

/// A parse outcome with the frame replaced by its mathematical form.
pub open spec fn parse_view(r: Result<Trojan, FrameParseError>) -> Result<
    TrojanView,
    FrameParseError,
> {
    match r {
        Ok(t) => Ok(t@),
        Err(e) => Err(e),
    }
}

/// CR LF matches at `j` exactly when the two bytes stand there.
proof fn lemma_matches_crlf(s: Seq<u8>, j: int)
    ensures
        matches_at(s, crlf(), j) <==> (0 <= j && j + 2 <= s.len() && s[j] == 13 && s[j + 1] == 10),
{
    if 0 <= j && j + 2 <= s.len() && s[j] == 13 && s[j + 1] == 10 {
        assert forall|k: int| 0 <= k < crlf().len() implies s[j + k] == crlf()[k] by {
            if k == 0 {
                assert(s[j + 0] == 13);
            } else {
                assert(s[j + 1] == 10);
            }
        }
    }
    if matches_at(s, crlf(), j) {
        assert(s[j + 0] == crlf()[0]);
        assert(s[j + 1] == crlf()[1]);
    }
}

/// What `find_crlf_from` answers: the first CR LF at or after `i`, or
/// `None` when none stands there.
proof fn lemma_find_crlf_from(s: Seq<u8>, i: int)
    requires
        0 <= i,
    ensures
        match find_crlf_from(s, i) {
            Some(p) => {
                &&& i <= p
                &&& matches_at(s, crlf(), p)
                &&& forall|j: int| i <= j < p ==> !matches_at(s, crlf(), j)
            },
            None => forall|j: int| i <= j ==> !matches_at(s, crlf(), j),
        },
    decreases s.len() - i,
{
    lemma_matches_crlf(s, i);
    if i + 2 > s.len() {
        assert forall|j: int| i <= j implies !matches_at(s, crlf(), j) by {
            lemma_matches_crlf(s, j);
        }
    } else if s[i] == 13 && s[i + 1] == 10 {
    } else {
        lemma_find_crlf_from(s, i + 1);
        match find_crlf_from(s, i + 1) {
            Some(p) => {
                assert forall|j: int| i <= j < p implies !matches_at(s, crlf(), j) by {
                    lemma_matches_crlf(s, j);
                }
            },
            None => {
                assert forall|j: int| i <= j implies !matches_at(s, crlf(), j) by {
                    lemma_matches_crlf(s, j);
                }
            },
        }
    }
}

/// When CR LF stands at `p` and nowhere earlier, `find_crlf` answers `p`.
pub proof fn lemma_find_crlf_at(s: Seq<u8>, p: int)
    requires
        matches_at(s, crlf(), p),
        forall|j: int| 0 <= j < p ==> !matches_at(s, crlf(), j),
    ensures
        find_crlf(s) == Some(p),
{
    lemma_find_crlf_from(s, 0);
    lemma_matches_crlf(s, p);
    match find_crlf(s) {
        Some(q) => {
            if q < p {
                assert(!matches_at(s, crlf(), q));
            }
            if p < q {
                assert(!matches_at(s, crlf(), p));
            }
        },
        None => {
            assert(!matches_at(s, crlf(), p));
        },
    }
}

/// When CR LF stands nowhere, `find_crlf` answers `None`.
pub proof fn lemma_find_crlf_none(s: Seq<u8>)
    requires
        forall|j: int| !matches_at(s, crlf(), j),
    ensures
        find_crlf(s) == None::<int>,
{
    lemma_find_crlf_from(s, 0);
    match find_crlf(s) {
        Some(p) => {
            lemma_matches_crlf(s, p);
        },
        None => {},
    }
}

/// No CR LF stands anywhere inside `s`.
pub open spec fn crlf_free(s: Seq<u8>) -> bool {
    forall|i: int| 0 <= i && i + 2 <= s.len() ==> !(#[trigger] s[i] == 13 && s[i + 1] == 10)
}

/// A buffer with no CR LF anywhere is no frame: it parses to
/// `NoDelimiter`, the signal to fall back to opaque forwarding.
pub proof fn lemma_no_delimiter(s: Seq<u8>)
    requires
        crlf_free(s),
    ensures
        spec_parse(s) == Err::<TrojanView, FrameParseError>(FrameParseError::NoDelimiter),
{
    assert forall|j: int| !matches_at(s, crlf(), j) by {
        lemma_matches_crlf(s, j);
    }
    lemma_find_crlf_none(s);
}

/// Serializing a frame and appending a payload parses back to the same
/// credential, command and address, and to exactly that payload, whatever
/// its length.
pub proof fn lemma_parse_serialize_payload(pwd: Seq<u8>, cmd: u8, a: AddressView, payload: Seq<u8>)
    requires
        pwd.len() > 0,
        crlf_free(pwd),
        a.wf(),
    ensures
        spec_parse(spec_serialize(pwd, cmd, a) + payload) == Ok::<TrojanView, FrameParseError>(
            TrojanView { pwd, cmd, address: a, payload },
        ),
{
    let s = spec_serialize(pwd, cmd, a) + payload;
    let m = pwd.len() as int;
    let wire = addr_wire_bytes(a);
    let header = seq![cmd] + wire + crlf() + payload;
    assert(s =~= pwd + crlf() + header);
    assert(crlf().len() == 2 && crlf()[0] == 13 && crlf()[1] == 10);

    assert(s[m] == 13 && s[m + 1] == 10);
    lemma_matches_crlf(s, m);
    assert forall|j: int| 0 <= j < m implies !matches_at(s, crlf(), j) by {
        lemma_matches_crlf(s, j);
        if j + 2 <= m {
            assert(s[j] == pwd[j] && s[j + 1] == pwd[j + 1]);
        } else {
            assert(s[j + 1] == 13);
        }
    }
    lemma_find_crlf_at(s, m);
    assert(s.subrange(0, m) =~= pwd);
    assert(s.subrange(m + 2, s.len() as int) =~= header);

    match a {
        AddressView::V4(octets, port) => {
            assert(wire =~= seq![Trojan::ADDR_TYPE_IPV4] + octets + be_bytes_of_u16(port));
            assert(header.len() == 10 + payload.len());
            assert(header[1] == Trojan::ADDR_TYPE_IPV4);
            assert(header.subrange(2, 6) =~= octets);
            assert(header[6] == (port / 256) as u8 && header[7] == (port % 256) as u8);
            assert(u16_of_be((port / 256) as u8, (port % 256) as u8) == port);
            if payload.len() > 0 {
                assert(header.subrange(10, header.len() as int) =~= payload);
            }
            assert(spec_parse(s) matches Ok(v) && v =~= (TrojanView {
                pwd,
                cmd,
                address: a,
                payload,
            }));
        },
        AddressView::V6(octets, port) => {
            assert(wire =~= seq![Trojan::ADDR_TYPE_IPV6] + octets + be_bytes_of_u16(port));
            assert(header.len() == 22 + payload.len());
            assert(header[1] == Trojan::ADDR_TYPE_IPV6);
            assert(header.subrange(2, 18) =~= octets);
            assert(header[18] == (port / 256) as u8 && header[19] == (port % 256) as u8);
            assert(u16_of_be((port / 256) as u8, (port % 256) as u8) == port);
            if payload.len() > 0 {
                assert(header.subrange(22, header.len() as int) =~= payload);
            }
            assert(spec_parse(s) matches Ok(v) && v =~= (TrojanView {
                pwd,
                cmd,
                address: a,
                payload,
            }));
        },
        AddressView::Domain(name, port) => {
            let nb = encode_utf8(name);
            let l = nb.len() as int;
            assert(wire =~= seq![Trojan::ADDR_TYPE_DOMAIN_NAME, nb.len() as u8] + nb
                + be_bytes_of_u16(port));
            assert(header.len() == 7 + l + payload.len());
            assert(header[1] == Trojan::ADDR_TYPE_DOMAIN_NAME);
            assert(header[2] == nb.len() as u8);
            assert(header[2] as int == l);
            assert(header.subrange(3, 3 + l) =~= nb);
            encode_utf8_valid_utf8(name);
            encode_utf8_decode_utf8(name);
            assert(header[3 + l] == (port / 256) as u8 && header[4 + l] == (port % 256) as u8);
            assert(u16_of_be((port / 256) as u8, (port % 256) as u8) == port);
            if payload.len() > 0 {
                assert(header.subrange(7 + l, header.len() as int) =~= payload);
            }
            assert(spec_parse(s) matches Ok(v) && v =~= (TrojanView {
                pwd,
                cmd,
                address: a,
                payload,
            }));
        },
    }
}

/// Round trip: a serialized frame parses back to the same credential,
/// command and address, with an empty payload, for every address variant.
pub proof fn lemma_round_trip(pwd: Seq<u8>, cmd: u8, a: AddressView)
    requires
        pwd.len() > 0,
        crlf_free(pwd),
        a.wf(),
    ensures
        spec_parse(spec_serialize(pwd, cmd, a)) == Ok::<TrojanView, FrameParseError>(
            TrojanView { pwd, cmd, address: a, payload: Seq::empty() },
        ),
{
    assert(spec_serialize(pwd, cmd, a) + Seq::<u8>::empty() =~= spec_serialize(pwd, cmd, a));
    lemma_parse_serialize_payload(pwd, cmd, a, Seq::empty());
}

/// Relies on `String::from_utf8`: it succeeds exactly on valid UTF-8
/// input, and the bytes of the string it returns are the input bytes.
#[verifier::external_body]
fn bytes_to_string(v: Vec<u8>) -> (r: Option<String>)
    ensures
        r is Some <==> valid_utf8(v@),
        r matches Some(s) ==> encode_utf8(s@) == v@,
{
    String::from_utf8(v).ok()
}

/// The 16-bit value read from two big-endian bytes.
pub fn be_port(hi: u8, lo: u8) -> (r: u16)
    ensures
        r == u16_of_be(hi, lo),
{
    (hi as u16) * 256 + (lo as u16)
}

/// Parses a raw buffer into a frame: exactly the denotation `spec_parse`
/// gives it.  A parsed frame always carries a well-formed address.
pub fn parser_trojan(buf: Vec<u8>) -> (r: Result<Trojan, FrameParseError>)
    ensures
        parse_view(r) == spec_parse(buf@),
        r matches Ok(t) ==> t@.address.wf(),
{
    let crlf_vec: Vec<u8> = vec![13u8, 10u8];
    proof {
        assert(crlf_vec@ =~= crlf());
    }
    let pos = search_u8_vec(&buf, &crlf_vec);
    let p = match pos {
        None => {
            proof {
                if buf@.len() == 0 {
                    assert forall|j: int| !matches_at(buf@, crlf(), j) by {
                        lemma_matches_crlf(buf@, j);
                    }
                }
                lemma_find_crlf_none(buf@);
            }
            return Err(FrameParseError::NoDelimiter);
        },
        Some(p) => p,
    };
    proof {
        lemma_find_crlf_at(buf@, p as int);
        assert(crlf().len() == 2);
    }

    let n = buf.len();
    let pwd = slice_to_vec(slice_subrange(buf.as_slice(), 0, p));
    let header = slice_to_vec(slice_subrange(buf.as_slice(), p + 2, n));
    let ghost h = header@;

    if header.len() < 2 {
        return Err(FrameParseError::Truncated);
    }
    let cmd = header[0];
    let addr_type = header[1];

    let (address, consumed): (Address, usize) = if addr_type == Trojan::ADDR_TYPE_IPV4 {
        if header.len() < 8 {
            return Err(FrameParseError::Truncated);
        }
        let octets = slice_to_vec(slice_subrange(header.as_slice(), 2, 6));
        let port = be_port(header[6], header[7]);
        (Address::SocketAddress(IpOctets::V4(octets), port), 8)
    } else if addr_type == Trojan::ADDR_TYPE_IPV6 {
        if header.len() < 20 {
            return Err(FrameParseError::Truncated);
        }
        let octets = slice_to_vec(slice_subrange(header.as_slice(), 2, 18));
        let port = be_port(header[18], header[19]);
        (Address::SocketAddress(IpOctets::V6(octets), port), 20)
    } else if addr_type == Trojan::ADDR_TYPE_DOMAIN_NAME {
        if header.len() < 3 {
            return Err(FrameParseError::Truncated);
        }
        let l = header[2] as usize;
        if header.len() < 5 + l {
            return Err(FrameParseError::Truncated);
        }
        let name_bytes = slice_to_vec(slice_subrange(header.as_slice(), 3, 3 + l));
        match bytes_to_string(name_bytes) {
            None => {
                return Err(FrameParseError::InvalidDomainEncoding);
            },
            Some(name) => {
                proof {
                    encode_utf8_decode_utf8(name@);
                    assert(decode_utf8(h.subrange(3, 3 + l as int)) == name@);
                }
                let port = be_port(header[3 + l], header[4 + l]);
                (Address::DomainNameAddress(name, port), 5 + l)
            },
        }
    } else {
        return Err(FrameParseError::UnknownAddressType);
    };

    proof {
        assert(spec_parse_header(h) matches Ok((c, a, n))
            && c == cmd && a == address@ && n == consumed as int);
        assert(address@.wf()) by {
            if address@ is Domain {
                encode_utf8_valid_utf8(decode_utf8(h.subrange(3, 3 + h[2] as int)));
            }
        }
    }

    let mut tro = Trojan::new(pwd, cmd, address);
    if header.len() > consumed + 2 {
        let payload = slice_to_vec(
            slice_subrange(header.as_slice(), consumed + 2, header.len()),
        );
        tro.add_payload(payload);
    }
    proof {
        assert(parse_view(Ok(tro)) matches Ok(v) && spec_parse(buf@) matches Ok(w) && v =~= w);
    }
    Ok(tro)
}

} // verus!
