use vstd::prelude::*;

use crate::codes::{DnsOpcode, DnsRcode};
use crate::error::{DnsError, DnsPart};
use crate::wire::{be16, push_u16, read_u16, u16_bytes};

verus! {

/// The two bytes of bit-packed flags in the header.
#[derive(Debug, PartialEq, Eq, Structural, Clone, Copy)]
pub struct DnsFlags {
    /// A one bit field that specifies whether this message is a query (0), or a response (1).
    pub qr: u8,
    /// A four bit field that specifies kind of query in this message.
    pub opcode: DnsOpcode,
    /// Authoritative Answer: the responding name server is an authority for the domain name.
    pub aa: u8,
    /// TrunCation: the message was truncated.
    pub tc: u8,
    /// Recursion Desired: may be set in a query and is copied into the response.
    pub rd: u8,
    /// Recursion Available: set or cleared in a response.
    pub ra: u8,
    /// Reserved for future use: always written as zero.
    pub z: u8,
    /// Authentic Data.
    pub ad: u8,
    /// Checking Disabled.
    pub cd: u8,
    /// Response code: the low four bits of it.
    pub rcode: DnsRcode,
}

/// The flags that two wire bytes hold.
pub open spec fn spec_flags_of(b0: u8, b1: u8) -> DnsFlags {
    DnsFlags {
        qr: b0 / 128,
        opcode: DnsOpcode::spec_from_u8((b0 / 8) % 16),
        aa: (b0 / 4) % 2,
        tc: (b0 / 2) % 2,
        rd: b0 % 2,
        ra: b1 / 128,
        z: (b1 / 64) % 2,
        ad: (b1 / 32) % 2,
        cd: (b1 / 16) % 2,
        rcode: DnsRcode::spec_from_u8(b1),
    }
}

impl DnsFlags {
    /// Decoding the two bytes at `offset`; `None` where fewer than two remain.
    pub open spec fn spec_decode(data: Seq<u8>, offset: int) -> Option<DnsFlags> {
        if 0 <= offset && offset + 2 <= data.len() {
            Some(spec_flags_of(data[offset], data[offset + 1]))
        } else {
            None
        }
    }

    /// Every one-bit field holds 0 or 1 and the response code fits in four bits.
    pub open spec fn is_encodable(self) -> bool {
        &&& self.qr <= 1
        &&& self.aa <= 1
        &&& self.tc <= 1
        &&& self.rd <= 1
        &&& self.ra <= 1
        &&& self.ad <= 1
        &&& self.cd <= 1
        &&& self.rcode.spec_to_u8() <= 15
    }

    /// Encodable, with `z` clear and a response code that the header form names.
    pub open spec fn is_canonical(self) -> bool {
        &&& self.is_encodable()
        &&& self.z == 0
        &&& DnsRcode::spec_from_u8(self.rcode.spec_to_u8()) == self.rcode
    }

    /// The two wire bytes; `z` is always written as zero.
    pub open spec fn spec_encode(self) -> Option<Seq<u8>> {
        if self.is_encodable() {
            Some(
                seq![
                    (self.qr * 128 + self.opcode.spec_to_u8() * 8 + self.aa * 4 + self.tc * 2
                        + self.rd) as u8,
                    (self.ra * 128 + self.ad * 32 + self.cd * 16
                        + self.rcode.spec_to_u8()) as u8,
                ],
            )
        } else {
            None
        }
    }

    /// The flags of a fresh query: recursion desired, everything else clear.
    pub open spec fn spec_default() -> DnsFlags {
        DnsFlags {
            qr: 0,
            opcode: DnsOpcode::Query,
            aa: 0,
            tc: 0,
            rd: 1,
            ra: 0,
            z: 0,
            ad: 0,
            cd: 0,
            rcode: DnsRcode::NoError,
        }
    }

    pub fn from_bytes(data: &[u8], offset: usize) -> (r: Result<DnsFlags, DnsError>)
        ensures
            match r {
                Ok(f) => Self::spec_decode(data@, offset as int) == Some(f),
                Err(e) => Self::spec_decode(data@, offset as int) is None && e
                    == (DnsError::FormatError { part: DnsPart::Flags, offset }),
            },
    {
        if offset > data.len() || data.len() - offset < 2 {
            return Err(DnsError::FormatError { part: DnsPart::Flags, offset });
        }
        let b0 = data[offset];
        let b1 = data[offset + 1];
        Ok(
            DnsFlags {
                qr: b0 / 128,
                opcode: DnsOpcode::from_u8((b0 / 8) % 16),
                aa: (b0 / 4) % 2,
                tc: (b0 / 2) % 2,
                rd: b0 % 2,
                ra: b1 / 128,
                z: (b1 / 64) % 2,
                ad: (b1 / 32) % 2,
                cd: (b1 / 16) % 2,
                rcode: DnsRcode::from_u8(b1),
            },
        )
    }

    pub fn to_bytes(&self) -> (r: Result<Vec<u8>, DnsError>)
        ensures
            match r {
                Ok(v) => self.spec_encode() == Some(v@),
                Err(e) => self.spec_encode() is None && e
                    == (DnsError::SerializationError { part: DnsPart::Flags }),
            },
    {
        let rcode = self.rcode.to_u8();
        if self.qr > 1 || self.aa > 1 || self.tc > 1 || self.rd > 1 || self.ra > 1 || self.ad > 1
            || self.cd > 1 || rcode > 15 {
            return Err(DnsError::SerializationError { part: DnsPart::Flags });
        }
        let mut v: Vec<u8> = Vec::new();
        v.push(self.qr * 128 + self.opcode.to_u8() * 8 + self.aa * 4 + self.tc * 2 + self.rd);
        v.push(self.ra * 128 + self.ad * 32 + self.cd * 16 + rcode);
        assert(self.spec_encode() == Some(v@)) by {
            assert(v@ =~= self.spec_encode()->0);
        }
        Ok(v)
    }
}

impl Default for DnsFlags {
    fn default() -> (r: DnsFlags)
        ensures
            r == DnsFlags::spec_default(),
    {
        DnsFlags {
            qr: 0,
            opcode: DnsOpcode::Query,
            aa: 0,
            tc: 0,
            rd: 1,
            ra: 0,
            z: 0,
            ad: 0,
            cd: 0,
            rcode: DnsRcode::NoError,
        }
    }
}

/// Canonical flags survive an encode followed by a decode.
pub proof fn lemma_flags_round_trip(f: DnsFlags)
    requires
        f.is_canonical(),
    ensures
        f.spec_encode() is Some,
        DnsFlags::spec_decode(f.spec_encode()->0, 0) == Some(f),
{
    let b = f.spec_encode()->0;
    let op = f.opcode.spec_to_u8();
    let rc = f.rcode.spec_to_u8();
    assert(b[0] / 128 == f.qr && (b[0] / 8) % 16 == op && (b[0] / 4) % 2 == f.aa && (b[0] / 2) % 2
        == f.tc && b[0] % 2 == f.rd) by (nonlinear_arith)
        requires
            b[0] == f.qr * 128 + op * 8 + f.aa * 4 + f.tc * 2 + f.rd,
            f.qr <= 1,
            op <= 7,
            f.aa <= 1,
            f.tc <= 1,
            f.rd <= 1,
    ;
    assert(b[1] / 128 == f.ra && (b[1] / 64) % 2 == 0 && (b[1] / 32) % 2 == f.ad && (b[1] / 16)
        % 2 == f.cd && b[1] % 16 == rc) by (nonlinear_arith)
        requires
            b[1] == f.ra * 128 + f.ad * 32 + f.cd * 16 + rc,
            f.ra <= 1,
            f.ad <= 1,
            f.cd <= 1,
            rc <= 15,
    ;
    assert(DnsOpcode::spec_from_u8(op) == f.opcode);
    assert(DnsRcode::spec_from_u8(b[1]) == DnsRcode::spec_from_u8(rc));
}

/// The fixed twelve-byte header of a message.
#[derive(Debug, PartialEq, Eq, Structural, Clone, Copy)]
pub struct DnsHeader {
    /// A 16 bit identifier assigned by the program that generates any kind of query.
    pub id: u16,
    pub flags: DnsFlags,
    /// The number of entries in the question section.
    pub qdcount: u16,
    /// The number of resource records in the answer section.
    pub ancount: u16,
    /// The number of name server resource records in the authority records section.
    pub nscount: u16,
    /// The number of resource records in the additional records section.
    pub arcount: u16,
}

impl DnsHeader {
    /// Decoding the twelve bytes at `offset`; `None` where fewer than twelve remain.
    pub open spec fn spec_decode(data: Seq<u8>, offset: int) -> Option<DnsHeader> {
        if 0 <= offset && offset + 12 <= data.len() {
            Some(
                DnsHeader {
                    id: be16(data[offset], data[offset + 1]),
                    flags: spec_flags_of(data[offset + 2], data[offset + 3]),
                    qdcount: be16(data[offset + 4], data[offset + 5]),
                    ancount: be16(data[offset + 6], data[offset + 7]),
                    nscount: be16(data[offset + 8], data[offset + 9]),
                    arcount: be16(data[offset + 10], data[offset + 11]),
                },
            )
        } else {
            None
        }
    }

    /// The twelve wire bytes, where the flags can be written.
    pub open spec fn spec_encode(self) -> Option<Seq<u8>> {
        match self.flags.spec_encode() {
            Some(f) => Some(
                u16_bytes(self.id) + f + u16_bytes(self.qdcount) + u16_bytes(self.ancount)
                    + u16_bytes(self.nscount) + u16_bytes(self.arcount),
            ),
            None => None,
        }
    }

    /// A header of zero id and counts, with the flags of a fresh query.
    pub open spec fn spec_default() -> DnsHeader {
        DnsHeader {
            id: 0,
            flags: DnsFlags::spec_default(),
            qdcount: 0,
            ancount: 0,
            nscount: 0,
            arcount: 0,
        }
    }

    pub fn from_bytes(data: &[u8], offset: usize) -> (r: Result<DnsHeader, DnsError>)
        ensures
            match r {
                Ok(h) => Self::spec_decode(data@, offset as int) == Some(h),
                Err(e) => Self::spec_decode(data@, offset as int) is None && e
                    == (DnsError::FormatError { part: DnsPart::Header, offset }),
            },
    {
        if offset > data.len() || data.len() - offset < 12 {
            return Err(DnsError::FormatError { part: DnsPart::Header, offset });
        }
        let flags = match DnsFlags::from_bytes(data, offset + 2) {
            Ok(f) => f,
            Err(_) => {
                return Err(DnsError::FormatError { part: DnsPart::Header, offset });
            },
        };
        Ok(
            DnsHeader {
                id: read_u16(data, offset),
                flags,
                qdcount: read_u16(data, offset + 4),
                ancount: read_u16(data, offset + 6),
                nscount: read_u16(data, offset + 8),
                arcount: read_u16(data, offset + 10),
            },
        )
    }

    pub fn to_bytes(&self) -> (r: Result<Vec<u8>, DnsError>)
        ensures
            match r {
                Ok(v) => self.spec_encode() == Some(v@),
                Err(e) => self.spec_encode() is None && e
                    == (DnsError::SerializationError { part: DnsPart::Flags }),
            },
    {
        let flags = match self.flags.to_bytes() {
            Ok(f) => f,
            Err(e) => {
                return Err(e);
            },
        };
        let mut v: Vec<u8> = Vec::new();
        push_u16(&mut v, self.id);
        v.push(flags[0]);
        v.push(flags[1]);
        push_u16(&mut v, self.qdcount);
        push_u16(&mut v, self.ancount);
        push_u16(&mut v, self.nscount);
        push_u16(&mut v, self.arcount);
        assert(v@ =~= self.spec_encode()->0);
        Ok(v)
    }
}

impl Default for DnsHeader {
    fn default() -> (r: DnsHeader)
        ensures
            r == DnsHeader::spec_default(),
    {
        DnsHeader { id: 0, flags: DnsFlags::default(), qdcount: 0, ancount: 0, nscount: 0, arcount: 0 }
    }
}

/// A header whose flags are canonical survives an encode followed by a decode, and its
/// bytes survive a decode followed by an encode.
pub proof fn lemma_header_round_trip(h: DnsHeader)
    requires
        h.flags.is_canonical(),
    ensures
        h.spec_encode() is Some,
        h.spec_encode()->0.len() == 12,
        DnsHeader::spec_decode(h.spec_encode()->0, 0) == Some(h),
{
    lemma_flags_round_trip(h.flags);
    let b = h.spec_encode()->0;
    let f = h.flags.spec_encode()->0;
    assert(b[2] == f[0] && b[3] == f[1]);
    crate::wire::lemma_be16_of_bytes(h.id);
    crate::wire::lemma_be16_of_bytes(h.qdcount);
    crate::wire::lemma_be16_of_bytes(h.ancount);
    crate::wire::lemma_be16_of_bytes(h.nscount);
    crate::wire::lemma_be16_of_bytes(h.arcount);
    assert(DnsFlags::spec_decode(f, 0) == Some(h.flags));
}

} // verus!
