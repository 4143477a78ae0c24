//! Server Name Indication (SNI) extraction from a raw TLS ClientHello.
//!
//! The transparent interceptor peeks at the first bytes a client sends and
//! reads the hostname out of the ClientHello without consuming the stream.
//! Every offset advance is bounds-checked; the walk mirrors the TLS record
//! layout: record header, handshake header, fixed hello fields, the three
//! variable-length vectors (session id, cipher suites, compression methods),
//! then the extension list, scanned for the `server_name` extension.

use vstd::prelude::*;

verus! {

use vstd::slice::{slice_subrange, slice_to_vec};
use vstd::utf8::valid_utf8;
use crate::text::utf8_string;

/// Why no hostname could be read.
#[derive(Clone, Copy, PartialEq, Eq, Structural, Debug)]
pub enum SniError {
    /// The bytes do not begin a TLS handshake record, or the record does not
    /// hold a ClientHello.
    NotTlsHandshake,
    /// The buffer ends before the record or the hello body does.
    IncompleteHello,
    /// The hello is well formed but carries no `server_name` extension.
    NoSniExtension,
    /// A length field contradicts the bytes that are actually there, or the
    /// name is not UTF-8.
    MalformedExtension,
}

/// Big-endian 16-bit value at offset `i`.
pub open spec fn u16_be(s: Seq<u8>, i: int) -> int
    recommends
        0 <= i && i + 2 <= s.len(),
{
    s[i] * 256 + s[i + 1]
}

/// Big-endian 24-bit value at offset `i`.
pub open spec fn u24_be(s: Seq<u8>, i: int) -> int
    recommends
        0 <= i && i + 3 <= s.len(),
{
    s[i] * 65536 + s[i + 1] * 256 + s[i + 2]
}

/// Scan of the extension records in `hello[pos..]`, header reads bounded by
/// `e`, looking for extension type 0 (`server_name`).  Walks records of
/// `{type: u16, len: u16, data: len}`; a skip that would overrun stops the
/// scan at `e`.
pub open spec fn spec_find_sni(hello: Seq<u8>, pos: int, e: int) -> Result<Seq<u8>, SniError>
    decreases e - pos,
{
    if !(0 <= pos && pos + 4 <= e) {
        Err(SniError::NoSniExtension)
    } else {
        let ext_type = u16_be(hello, pos);
        let data_len = u16_be(hello, pos + 2);
        let p = pos + 4;
        if ext_type == 0 {
            if p + data_len > hello.len() {
                Err(SniError::MalformedExtension)
            } else {
                let sni = hello.subrange(p, p + data_len);
                if sni.len() < 5 {
                    Err(SniError::MalformedExtension)
                } else {
                    let name_len = u16_be(sni, 3);
                    if sni.len() < 5 + name_len {
                        Err(SniError::MalformedExtension)
                    } else {
                        let name = sni.subrange(5, 5 + name_len);
                        if valid_utf8(name) {
                            Ok(name)
                        } else {
                            Err(SniError::MalformedExtension)
                        }
                    }
                }
            }
        } else {
            let next = if p + data_len > e {
                e
            } else {
                p + data_len
            };
            spec_find_sni(hello, next, e)
        }
    }
}

/// What SNI parsing of a peeked buffer yields.
pub open spec fn spec_parse_sni(buf: Seq<u8>) -> Result<Seq<u8>, SniError> {
    if buf.len() < 5 {
        Err(SniError::IncompleteHello)
    } else if buf[0] != 0x16 {
        Err(SniError::NotTlsHandshake)
    } else if buf.len() < 5 + u16_be(buf, 3) {
        Err(SniError::IncompleteHello)
    } else {
        let hs = buf.skip(5);
        if hs.len() == 0 || hs[0] != 0x01 {
            Err(SniError::NotTlsHandshake)
        } else if hs.len() < 4 {
            Err(SniError::IncompleteHello)
        } else if hs.len() < 4 + u24_be(hs, 1) {
            Err(SniError::IncompleteHello)
        } else {
            let hello = hs.skip(4);
            if hello.len() <= 34 {
                Err(SniError::MalformedExtension)
            } else {
                let ses = 35 + hello[34];
                if ses + 2 > hello.len() {
                    Err(SniError::MalformedExtension)
                } else {
                    let cip = ses + 2 + u16_be(hello, ses);
                    if cip >= hello.len() {
                        Err(SniError::MalformedExtension)
                    } else {
                        let cmp = cip + 1 + hello[cip];
                        if cmp + 2 > hello.len() {
                            Err(SniError::MalformedExtension)
                        } else {
                            let exts = cmp + 2;
                            let ext_end = exts + u16_be(hello, cmp);
                            let e = if ext_end <= hello.len() {
                                ext_end
                            } else {
                                hello.len() as int
                            };
                            spec_find_sni(hello, exts, e)
                        }
                    }
                }
            }
        }
    }
}

/// The SNI parse is a pure function of the peeked bytes: equal buffers parse
/// equally.  (The parser borrows the buffer and cannot consume the stream it
/// was peeked from.)
pub proof fn lemma_sni_parse_pure(a: Seq<u8>, b: Seq<u8>)
    requires
        a == b,
    ensures
        spec_parse_sni(a) == spec_parse_sni(b),
{
}

/// Read the `server_name` hostname out of a peeked ClientHello.
pub fn parse_sni(buf: &[u8]) -> (r: Result<Vec<u8>, SniError>)
    ensures
        (r is Ok) == (spec_parse_sni(buf@) is Ok),
        r matches Ok(v) ==> spec_parse_sni(buf@) == Ok::<Seq<u8>, SniError>(v@),
        r matches Err(err) ==> spec_parse_sni(buf@) == Err::<Seq<u8>, SniError>(err),
{
    if buf.len() < 5 {
        return Err(SniError::IncompleteHello);
    }
    if buf[0] != 0x16 {
        return Err(SniError::NotTlsHandshake);
    }
    let record_len: usize = (buf[3] as usize) * 256 + (buf[4] as usize);
    if buf.len() - 5 < record_len {
        return Err(SniError::IncompleteHello);
    }
    let hs = slice_subrange(buf, 5, buf.len());
    assert(hs@ =~= buf@.skip(5));
    if hs.len() == 0 || hs[0] != 0x01 {
        return Err(SniError::NotTlsHandshake);
    }
    if hs.len() < 4 {
        return Err(SniError::IncompleteHello);
    }
    let hello_len: usize = (hs[1] as usize) * 65536 + (hs[2] as usize) * 256 + (hs[3] as usize);
    if hs.len() - 4 < hello_len {
        return Err(SniError::IncompleteHello);
    }
    let hello = slice_subrange(hs, 4, hs.len());
    assert(hello@ =~= hs@.skip(4));
    let n = hello.len();
    if n <= 34 {
        return Err(SniError::MalformedExtension);
    }
    let ses: usize = 35 + (hello[34] as usize);
    if ses + 2 > n {
        return Err(SniError::MalformedExtension);
    }
    let cip: usize = ses + 2 + (hello[ses] as usize) * 256 + (hello[ses + 1] as usize);
    if cip >= n {
        return Err(SniError::MalformedExtension);
    }
    let cmp: usize = cip + 1 + (hello[cip] as usize);
    if cmp + 2 > n {
        return Err(SniError::MalformedExtension);
    }
    let exts: usize = cmp + 2;
    let ext_end: usize = exts + (hello[cmp] as usize) * 256 + (hello[cmp + 1] as usize);
    let e: usize = if ext_end <= n {
        ext_end
    } else {
        n
    };
    let mut pos: usize = exts;
    while pos + 4 <= e
        invariant
            exts <= pos <= e,
            e <= n == hello@.len(),
            e <= 140000,
            spec_parse_sni(buf@) == spec_find_sni(hello@, exts as int, e as int),
            spec_find_sni(hello@, pos as int, e as int) == spec_find_sni(
                hello@,
                exts as int,
                e as int,
            ),
        decreases e - pos,
    {
        let ext_type: usize = (hello[pos] as usize) * 256 + (hello[pos + 1] as usize);
        let data_len: usize = (hello[pos + 2] as usize) * 256 + (hello[pos + 3] as usize);
        let p: usize = pos + 4;
        if ext_type == 0 {
            if data_len > n - p {
                return Err(SniError::MalformedExtension);
            }
            let sni = slice_subrange(hello, p, p + data_len);
            assert(sni@ =~= hello@.subrange(p as int, p + data_len));
            if sni.len() < 5 {
                return Err(SniError::MalformedExtension);
            }
            let name_len: usize = (sni[3] as usize) * 256 + (sni[4] as usize);
            if sni.len() - 5 < name_len {
                return Err(SniError::MalformedExtension);
            }
            let name = slice_subrange(sni, 5, 5 + name_len);
            assert(name@ =~= sni@.subrange(5, 5 + name_len));
            match utf8_string(name) {
                Some(_) => {
                    return Ok(slice_to_vec(name));
                },
                None => {
                    return Err(SniError::MalformedExtension);
                },
            }
        }
        let next: usize = if data_len > e - p {
            e
        } else {
            p + data_len
        };
        proof {
            assert(spec_find_sni(hello@, pos as int, e as int) == spec_find_sni(
                hello@,
                next as int,
                e as int,
            ));
        }
        pos = next;
    }
    Err(SniError::NoSniExtension)
}

} // verus!
