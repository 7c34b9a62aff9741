use vstd::prelude::*;

verus! {

/// The kind of query carried in the header (four bits on the wire).
#[derive(Debug, Default, PartialEq, Eq, Structural, Clone, Copy)]
pub enum DnsOpcode {
    /// A standard query (QUERY)
    #[default]
    Query,
    /// An inverse query (IQUERY)
    IQuery,
    /// A server status request (STATUS)
    Status,
    /// Reserved for future use
    Reserved,
    /// A notification of a zone change (NOTIFY)
    Notify,
    /// Dynamic update request (UPDATE)
    Update,
    /// DNS Stateful Operations (DSO)
    DynamicStatefulOperations,
    /// Any other value
    Unassigned,
}

impl DnsOpcode {
    /// The variant that a wire value stands for.
    pub open spec fn spec_from_u8(opcode: u8) -> DnsOpcode {
        match opcode {
            0 => DnsOpcode::Query,
            1 => DnsOpcode::IQuery,
            2 => DnsOpcode::Status,
            3 => DnsOpcode::Reserved,
            4 => DnsOpcode::Notify,
            5 => DnsOpcode::Update,
            6 => DnsOpcode::DynamicStatefulOperations,
            _ => DnsOpcode::Unassigned,
        }
    }

    /// The wire value of a variant.
    pub open spec fn spec_to_u8(self) -> u8 {
        match self {
            DnsOpcode::Query => 0,
            DnsOpcode::IQuery => 1,
            DnsOpcode::Status => 2,
            DnsOpcode::Reserved => 3,
            DnsOpcode::Notify => 4,
            DnsOpcode::Update => 5,
            DnsOpcode::DynamicStatefulOperations => 6,
            DnsOpcode::Unassigned => 7,
        }
    }

    pub fn from_u8(opcode: u8) -> (r: DnsOpcode)
        ensures
            r == Self::spec_from_u8(opcode),
    {
        match opcode {
            0 => DnsOpcode::Query,
            1 => DnsOpcode::IQuery,
            2 => DnsOpcode::Status,
            3 => DnsOpcode::Reserved,
            4 => DnsOpcode::Notify,
            5 => DnsOpcode::Update,
            6 => DnsOpcode::DynamicStatefulOperations,
            _ => DnsOpcode::Unassigned,
        }
    }

    pub fn to_u8(&self) -> (r: u8)
        ensures
            r == self.spec_to_u8(),
    {
        match self {
            DnsOpcode::Query => 0,
            DnsOpcode::IQuery => 1,
            DnsOpcode::Status => 2,
            DnsOpcode::Reserved => 3,
            DnsOpcode::Notify => 4,
            DnsOpcode::Update => 5,
            DnsOpcode::DynamicStatefulOperations => 6,
            DnsOpcode::Unassigned => 7,
        }
    }
}

/// Every opcode value decodes; a value that names a variant is given back by `to_u8`,
/// and any other value decodes to `Unassigned`.
pub proof fn lemma_opcode_total(n: u8)
    ensures
        DnsOpcode::spec_from_u8(n) != DnsOpcode::Unassigned ==> DnsOpcode::spec_from_u8(
            n,
        ).spec_to_u8() == n,
        n > 6 ==> DnsOpcode::spec_from_u8(n) == DnsOpcode::Unassigned,
        n == 7 ==> DnsOpcode::spec_from_u8(n).spec_to_u8() == n,
{
}

/// A response code. The header carries its low four bits; an OPT record carries
/// eight more bits, which together form the twelve-bit extended code.
#[derive(Debug, Default, PartialEq, Eq, Structural, Clone, Copy)]
pub enum DnsRcode {
    /// No error condition
    #[default]
    NoError,
    /// Format error - The name server was unable to interpret the query.
    FormatError,
    /// Server failure - The name server was unable to process this query.
    ServerFailure,
    /// Name Error - The domain name referenced in the query does not exist.
    NameError,
    /// Not Implemented - The name server does not support the requested kind of query.
    NotImplemented,
    /// Refused - The name server refuses to perform the specified operation.
    Refused,
    /// YXDomain - Name Exists when it should not.
    YXDomain,
    /// YXRRSet - RR Set Exists when it should not.
    YXRRSet,
    /// NXRRSet - RR Set that should exist does not.
    NXRRSet,
    /// NotAuth - Server Not Authoritative for zone.
    NotAuth,
    /// NotZone - Name not contained in zone.
    NotZone,
    /// Bad OPT Version
    BadOptVersion,
    /// Bad Signature - TSIG Signature Failure
    BadSignature,
    /// Bad Key - Key not recognized
    BadKey,
    /// Bad Timestamp - Signature out of time window
    BadTimestamp,
    /// Bad Mode - Bad TKEY Mode
    BadMode,
    /// Bad Name - Duplicate key name
    BadName,
    /// Bad Alg - Algorithm not supported
    BadAlg,
    /// Bad Truncation - Bad truncation
    BadTruncation,
    /// Unassigned
    Unassigned,
    /// Reserved
    Reserved,
}

impl DnsRcode {
    /// The variant that the low four bits of a header value stand for.
    pub open spec fn spec_from_u8(rcode: u8) -> DnsRcode {
        match rcode % 16 {
            0 => DnsRcode::NoError,
            1 => DnsRcode::FormatError,
            2 => DnsRcode::ServerFailure,
            3 => DnsRcode::NameError,
            4 => DnsRcode::NotImplemented,
            5 => DnsRcode::Refused,
            6 => DnsRcode::YXDomain,
            7 => DnsRcode::YXRRSet,
            8 => DnsRcode::NXRRSet,
            9 => DnsRcode::NotAuth,
            10 => DnsRcode::NotZone,
            _ => DnsRcode::Unassigned,
        }
    }

    /// The variant that an extended value stands for.
    pub open spec fn spec_from_u16(rcode: u16) -> DnsRcode {
        if rcode <= 10 {
            Self::spec_from_u8(rcode as u8)
        } else if rcode <= 15 {
            DnsRcode::Unassigned
        } else if rcode == 16 {
            DnsRcode::BadSignature
        } else if rcode == 17 {
            DnsRcode::BadKey
        } else if rcode == 18 {
            DnsRcode::BadTimestamp
        } else if rcode == 19 {
            DnsRcode::BadMode
        } else if rcode == 20 {
            DnsRcode::BadName
        } else if rcode == 21 {
            DnsRcode::BadAlg
        } else if rcode == 22 {
            DnsRcode::BadTruncation
        } else if rcode <= 3840 {
            DnsRcode::Unassigned
        } else if rcode <= 4095 {
            DnsRcode::Reserved
        } else if rcode <= 65534 {
            DnsRcode::Unassigned
        } else {
            DnsRcode::Reserved
        }
    }

    /// The value written for a variant in the header: its code for `NoError` to `NotZone`,
    /// 16 for `BadOptVersion`, 0 for every other variant. 16 does not fit in the header's
    /// four bits, so `DnsFlags::to_bytes` refuses a header that holds `BadOptVersion`.
    pub open spec fn spec_to_u8(self) -> u8 {
        match self {
            DnsRcode::NoError => 0,
            DnsRcode::FormatError => 1,
            DnsRcode::ServerFailure => 2,
            DnsRcode::NameError => 3,
            DnsRcode::NotImplemented => 4,
            DnsRcode::Refused => 5,
            DnsRcode::YXDomain => 6,
            DnsRcode::YXRRSet => 7,
            DnsRcode::NXRRSet => 8,
            DnsRcode::NotAuth => 9,
            DnsRcode::NotZone => 10,
            DnsRcode::BadOptVersion => 16,
            _ => 0,
        }
    }

    /// The extended value of a variant (0 where the variant has none).
    pub open spec fn spec_to_u16(self) -> u16 {
        match self {
            DnsRcode::NoError => 0,
            DnsRcode::FormatError => 1,
            DnsRcode::ServerFailure => 2,
            DnsRcode::NameError => 3,
            DnsRcode::NotImplemented => 4,
            DnsRcode::Refused => 5,
            DnsRcode::YXDomain => 6,
            DnsRcode::YXRRSet => 7,
            DnsRcode::NXRRSet => 8,
            DnsRcode::NotAuth => 9,
            DnsRcode::NotZone => 10,
            DnsRcode::BadSignature => 16,
            DnsRcode::BadKey => 17,
            DnsRcode::BadTimestamp => 18,
            DnsRcode::BadMode => 19,
            DnsRcode::BadName => 20,
            DnsRcode::BadAlg => 21,
            DnsRcode::BadTruncation => 22,
            _ => 0,
        }
    }

    /// Whether the variant is one of those that name a value.
    pub open spec fn is_named(self) -> bool {
        self != DnsRcode::Unassigned && self != DnsRcode::Reserved
    }

    pub fn from_u8(rcode: u8) -> (r: DnsRcode)
        ensures
            r == Self::spec_from_u8(rcode),
    {
        let rcode: u8 = rcode % 16;
        match rcode {
            0 => DnsRcode::NoError,
            1 => DnsRcode::FormatError,
            2 => DnsRcode::ServerFailure,
            3 => DnsRcode::NameError,
            4 => DnsRcode::NotImplemented,
            5 => DnsRcode::Refused,
            6 => DnsRcode::YXDomain,
            7 => DnsRcode::YXRRSet,
            8 => DnsRcode::NXRRSet,
            9 => DnsRcode::NotAuth,
            10 => DnsRcode::NotZone,
            _ => DnsRcode::Unassigned,
        }
    }

    pub fn from_u16(rcode: u16) -> (r: DnsRcode)
        ensures
            r == Self::spec_from_u16(rcode),
    {
        match rcode {
            0 => DnsRcode::NoError,
            1 => DnsRcode::FormatError,
            2 => DnsRcode::ServerFailure,
            3 => DnsRcode::NameError,
            4 => DnsRcode::NotImplemented,
            5 => DnsRcode::Refused,
            6 => DnsRcode::YXDomain,
            7 => DnsRcode::YXRRSet,
            8 => DnsRcode::NXRRSet,
            9 => DnsRcode::NotAuth,
            10 => DnsRcode::NotZone,
            11..=15 => DnsRcode::Unassigned,
            16 => DnsRcode::BadSignature,
            17 => DnsRcode::BadKey,
            18 => DnsRcode::BadTimestamp,
            19 => DnsRcode::BadMode,
            20 => DnsRcode::BadName,
            21 => DnsRcode::BadAlg,
            22 => DnsRcode::BadTruncation,
            23..=3840 => DnsRcode::Unassigned,
            3841..=4095 => DnsRcode::Reserved,
            4096..=65534 => DnsRcode::Unassigned,
            65535 => DnsRcode::Reserved,
        }
    }

    /// The value written for the variant in the header (16 for `BadOptVersion`, which the
    /// header cannot hold; 0 for a variant without a header value).
    pub fn to_u8(&self) -> (r: u8)
        ensures
            r == self.spec_to_u8(),
    {
        match self {
            DnsRcode::NoError => 0,
            DnsRcode::FormatError => 1,
            DnsRcode::ServerFailure => 2,
            DnsRcode::NameError => 3,
            DnsRcode::NotImplemented => 4,
            DnsRcode::Refused => 5,
            DnsRcode::YXDomain => 6,
            DnsRcode::YXRRSet => 7,
            DnsRcode::NXRRSet => 8,
            DnsRcode::NotAuth => 9,
            DnsRcode::NotZone => 10,
            DnsRcode::BadOptVersion => 16,
            _ => 0,
        }
    }

    pub fn to_u16(&self) -> (r: u16)
        ensures
            r == self.spec_to_u16(),
    {
        match self {
            DnsRcode::NoError => 0,
            DnsRcode::FormatError => 1,
            DnsRcode::ServerFailure => 2,
            DnsRcode::NameError => 3,
            DnsRcode::NotImplemented => 4,
            DnsRcode::Refused => 5,
            DnsRcode::YXDomain => 6,
            DnsRcode::YXRRSet => 7,
            DnsRcode::NXRRSet => 8,
            DnsRcode::NotAuth => 9,
            DnsRcode::NotZone => 10,
            DnsRcode::BadSignature => 16,
            DnsRcode::BadKey => 17,
            DnsRcode::BadTimestamp => 18,
            DnsRcode::BadMode => 19,
            DnsRcode::BadName => 20,
            DnsRcode::BadAlg => 21,
            DnsRcode::BadTruncation => 22,
            _ => 0,
        }
    }
}

/// Every four-bit header value decodes; one that names a variant is given back by
/// `to_u8`, any other decodes to `Unassigned`. Bits above the low four are ignored.
pub proof fn lemma_rcode_header_total(n: u8)
    ensures
        n < 16 && DnsRcode::spec_from_u8(n).is_named() ==> DnsRcode::spec_from_u8(n).spec_to_u8()
            == n,
        n < 16 && !DnsRcode::spec_from_u8(n).is_named() ==> DnsRcode::spec_from_u8(n)
            == DnsRcode::Unassigned,
        DnsRcode::spec_from_u8(n) == DnsRcode::spec_from_u8(n % 16),
{
}

/// Every extended value decodes; one that names a variant is given back by `to_u16`,
/// any other decodes to `Unassigned` or `Reserved`.
pub proof fn lemma_rcode_extended_total(n: u16)
    ensures
        DnsRcode::spec_from_u16(n).is_named() ==> DnsRcode::spec_from_u16(n).spec_to_u16() == n,
        !DnsRcode::spec_from_u16(n).is_named() ==> (DnsRcode::spec_from_u16(n)
            == DnsRcode::Unassigned || DnsRcode::spec_from_u16(n) == DnsRcode::Reserved),
{
}

/// The type of a question or of a resource record.
#[derive(Debug, Default, PartialEq, Eq, Structural, Clone, Copy)]
pub enum DnsQType {
    #[default]
    A,
    NS,
    MD,
    MF,
    CNAME,
    SOA,
    MB,
    MG,
    MR,
    NULL,
    WKS,
    PTR,
    HINFO,
    MINFO,
    MX,
    TXT,
    RP,
    AFSDB,
    X25,
    ISDN,
    RT,
    NSAP,
    NsapPtr,
    SIG,
    KEY,
    PX,
    GPOS,
    AAAA,
    LOC,
    NXT,
    EID,
    NIMLOC,
    SRV,
    ATMA,
    NAPTR,
    KX,
    CERT,
    A6,
    DNAME,
    SINK,
    OPT,
    APL,
    DS,
    SSHFP,
    IPSECKEY,
    RRSIG,
    NSEC,
    DNSKEY,
    DHCID,
    NSEC3,
    NSEC3PARAM,
    TLSA,
    SMIMEA,
    HIP,
    NINFO,
    RKEY,
    TALINK,
    CDS,
    CDNSKEY,
    OPENPGPKEY,
    CSYNC,
    ZONEMD,
    SVCB,
    HTTPS,
    SPF,
    UINFO,
    UID,
    GID,
    UNSPEC,
    NID,
    L32,
    L64,
    LP,
    EUI48,
    EUI64,
    TKEY,
    TSIG,
    IXFR,
    AXFR,
    MAILB,
    MAILA,
    ALL,
    URI,
    CAA,
    AVC,
    DOA,
    AMTRELAY,
    TA,
    DLV,
    Unassigned,
}

impl DnsQType {
    /// The variant that a wire value stands for.
    pub open spec fn spec_from_u16(qtype: u16) -> DnsQType {
        match qtype {
            1 => DnsQType::A,
            2 => DnsQType::NS,
            3 => DnsQType::MD,
            4 => DnsQType::MF,
            5 => DnsQType::CNAME,
            6 => DnsQType::SOA,
            7 => DnsQType::MB,
            8 => DnsQType::MG,
            9 => DnsQType::MR,
            10 => DnsQType::NULL,
            11 => DnsQType::WKS,
            12 => DnsQType::PTR,
            13 => DnsQType::HINFO,
            14 => DnsQType::MINFO,
            15 => DnsQType::MX,
            16 => DnsQType::TXT,
            17 => DnsQType::RP,
            18 => DnsQType::AFSDB,
            19 => DnsQType::X25,
            20 => DnsQType::ISDN,
            21 => DnsQType::RT,
            22 => DnsQType::NSAP,
            23 => DnsQType::NsapPtr,
            24 => DnsQType::SIG,
            25 => DnsQType::KEY,
            26 => DnsQType::PX,
            27 => DnsQType::GPOS,
            28 => DnsQType::AAAA,
            29 => DnsQType::LOC,
            30 => DnsQType::NXT,
            31 => DnsQType::EID,
            32 => DnsQType::NIMLOC,
            33 => DnsQType::SRV,
            34 => DnsQType::ATMA,
            35 => DnsQType::NAPTR,
            36 => DnsQType::KX,
            37 => DnsQType::CERT,
            38 => DnsQType::A6,
            39 => DnsQType::DNAME,
            40 => DnsQType::SINK,
            41 => DnsQType::OPT,
            42 => DnsQType::APL,
            43 => DnsQType::DS,
            44 => DnsQType::SSHFP,
            45 => DnsQType::IPSECKEY,
            46 => DnsQType::RRSIG,
            47 => DnsQType::NSEC,
            48 => DnsQType::DNSKEY,
            49 => DnsQType::DHCID,
            50 => DnsQType::NSEC3,
            51 => DnsQType::NSEC3PARAM,
            52 => DnsQType::TLSA,
            53 => DnsQType::SMIMEA,
            55 => DnsQType::HIP,
            56 => DnsQType::NINFO,
            57 => DnsQType::RKEY,
            58 => DnsQType::TALINK,
            59 => DnsQType::CDS,
            60 => DnsQType::CDNSKEY,
            61 => DnsQType::OPENPGPKEY,
            62 => DnsQType::CSYNC,
            63 => DnsQType::ZONEMD,
            64 => DnsQType::SVCB,
            65 => DnsQType::HTTPS,
            99 => DnsQType::SPF,
            100 => DnsQType::UINFO,
            101 => DnsQType::UID,
            102 => DnsQType::GID,
            103 => DnsQType::UNSPEC,
            104 => DnsQType::NID,
            105 => DnsQType::L32,
            106 => DnsQType::L64,
            107 => DnsQType::LP,
            108 => DnsQType::EUI48,
            109 => DnsQType::EUI64,
            249 => DnsQType::TKEY,
            250 => DnsQType::TSIG,
            251 => DnsQType::IXFR,
            252 => DnsQType::AXFR,
            253 => DnsQType::MAILB,
            254 => DnsQType::MAILA,
            255 => DnsQType::ALL,
            256 => DnsQType::URI,
            257 => DnsQType::CAA,
            258 => DnsQType::AVC,
            259 => DnsQType::DOA,
            260 => DnsQType::AMTRELAY,
            32768 => DnsQType::TA,
            32769 => DnsQType::DLV,
            _ => DnsQType::Unassigned,
        }
    }

    /// The wire value of a variant (0 for `Unassigned`).
    pub open spec fn spec_to_u16(self) -> u16 {
        match self {
            DnsQType::A => 1,
            DnsQType::NS => 2,
            DnsQType::MD => 3,
            DnsQType::MF => 4,
            DnsQType::CNAME => 5,
            DnsQType::SOA => 6,
            DnsQType::MB => 7,
            DnsQType::MG => 8,
            DnsQType::MR => 9,
            DnsQType::NULL => 10,
            DnsQType::WKS => 11,
            DnsQType::PTR => 12,
            DnsQType::HINFO => 13,
            DnsQType::MINFO => 14,
            DnsQType::MX => 15,
            DnsQType::TXT => 16,
            DnsQType::RP => 17,
            DnsQType::AFSDB => 18,
            DnsQType::X25 => 19,
            DnsQType::ISDN => 20,
            DnsQType::RT => 21,
            DnsQType::NSAP => 22,
            DnsQType::NsapPtr => 23,
            DnsQType::SIG => 24,
            DnsQType::KEY => 25,
            DnsQType::PX => 26,
            DnsQType::GPOS => 27,
            DnsQType::AAAA => 28,
            DnsQType::LOC => 29,
            DnsQType::NXT => 30,
            DnsQType::EID => 31,
            DnsQType::NIMLOC => 32,
            DnsQType::SRV => 33,
            DnsQType::ATMA => 34,
            DnsQType::NAPTR => 35,
            DnsQType::KX => 36,
            DnsQType::CERT => 37,
            DnsQType::A6 => 38,
            DnsQType::DNAME => 39,
            DnsQType::SINK => 40,
            DnsQType::OPT => 41,
            DnsQType::APL => 42,
            DnsQType::DS => 43,
            DnsQType::SSHFP => 44,
            DnsQType::IPSECKEY => 45,
            DnsQType::RRSIG => 46,
            DnsQType::NSEC => 47,
            DnsQType::DNSKEY => 48,
            DnsQType::DHCID => 49,
            DnsQType::NSEC3 => 50,
            DnsQType::NSEC3PARAM => 51,
            DnsQType::TLSA => 52,
            DnsQType::SMIMEA => 53,
            DnsQType::HIP => 55,
            DnsQType::NINFO => 56,
            DnsQType::RKEY => 57,
            DnsQType::TALINK => 58,
            DnsQType::CDS => 59,
            DnsQType::CDNSKEY => 60,
            DnsQType::OPENPGPKEY => 61,
            DnsQType::CSYNC => 62,
            DnsQType::ZONEMD => 63,
            DnsQType::SVCB => 64,
            DnsQType::HTTPS => 65,
            DnsQType::SPF => 99,
            DnsQType::UINFO => 100,
            DnsQType::UID => 101,
            DnsQType::GID => 102,
            DnsQType::UNSPEC => 103,
            DnsQType::NID => 104,
            DnsQType::L32 => 105,
            DnsQType::L64 => 106,
            DnsQType::LP => 107,
            DnsQType::EUI48 => 108,
            DnsQType::EUI64 => 109,
            DnsQType::TKEY => 249,
            DnsQType::TSIG => 250,
            DnsQType::IXFR => 251,
            DnsQType::AXFR => 252,
            DnsQType::MAILB => 253,
            DnsQType::MAILA => 254,
            DnsQType::ALL => 255,
            DnsQType::URI => 256,
            DnsQType::CAA => 257,
            DnsQType::AVC => 258,
            DnsQType::DOA => 259,
            DnsQType::AMTRELAY => 260,
            DnsQType::TA => 32768,
            DnsQType::DLV => 32769,
            DnsQType::Unassigned => 0,
        }
    }

    pub fn from_u16(qtype: u16) -> (r: DnsQType)
        ensures
            r == Self::spec_from_u16(qtype),
    {
        match qtype {
            1 => DnsQType::A,
            2 => DnsQType::NS,
            3 => DnsQType::MD,
            4 => DnsQType::MF,
            5 => DnsQType::CNAME,
            6 => DnsQType::SOA,
            7 => DnsQType::MB,
            8 => DnsQType::MG,
            9 => DnsQType::MR,
            10 => DnsQType::NULL,
            11 => DnsQType::WKS,
            12 => DnsQType::PTR,
            13 => DnsQType::HINFO,
            14 => DnsQType::MINFO,
            15 => DnsQType::MX,
            16 => DnsQType::TXT,
            17 => DnsQType::RP,
            18 => DnsQType::AFSDB,
            19 => DnsQType::X25,
            20 => DnsQType::ISDN,
            21 => DnsQType::RT,
            22 => DnsQType::NSAP,
            23 => DnsQType::NsapPtr,
            24 => DnsQType::SIG,
            25 => DnsQType::KEY,
            26 => DnsQType::PX,
            27 => DnsQType::GPOS,
            28 => DnsQType::AAAA,
            29 => DnsQType::LOC,
            30 => DnsQType::NXT,
            31 => DnsQType::EID,
            32 => DnsQType::NIMLOC,
            33 => DnsQType::SRV,
            34 => DnsQType::ATMA,
            35 => DnsQType::NAPTR,
            36 => DnsQType::KX,
            37 => DnsQType::CERT,
            38 => DnsQType::A6,
            39 => DnsQType::DNAME,
            40 => DnsQType::SINK,
            41 => DnsQType::OPT,
            42 => DnsQType::APL,
            43 => DnsQType::DS,
            44 => DnsQType::SSHFP,
            45 => DnsQType::IPSECKEY,
            46 => DnsQType::RRSIG,
            47 => DnsQType::NSEC,
            48 => DnsQType::DNSKEY,
            49 => DnsQType::DHCID,
            50 => DnsQType::NSEC3,
            51 => DnsQType::NSEC3PARAM,
            52 => DnsQType::TLSA,
            53 => DnsQType::SMIMEA,
            55 => DnsQType::HIP,
            56 => DnsQType::NINFO,
            57 => DnsQType::RKEY,
            58 => DnsQType::TALINK,
            59 => DnsQType::CDS,
            60 => DnsQType::CDNSKEY,
            61 => DnsQType::OPENPGPKEY,
            62 => DnsQType::CSYNC,
            63 => DnsQType::ZONEMD,
            64 => DnsQType::SVCB,
            65 => DnsQType::HTTPS,
            99 => DnsQType::SPF,
            100 => DnsQType::UINFO,
            101 => DnsQType::UID,
            102 => DnsQType::GID,
            103 => DnsQType::UNSPEC,
            104 => DnsQType::NID,
            105 => DnsQType::L32,
            106 => DnsQType::L64,
            107 => DnsQType::LP,
            108 => DnsQType::EUI48,
            109 => DnsQType::EUI64,
            249 => DnsQType::TKEY,
            250 => DnsQType::TSIG,
            251 => DnsQType::IXFR,
            252 => DnsQType::AXFR,
            253 => DnsQType::MAILB,
            254 => DnsQType::MAILA,
            255 => DnsQType::ALL,
            256 => DnsQType::URI,
            257 => DnsQType::CAA,
            258 => DnsQType::AVC,
            259 => DnsQType::DOA,
            260 => DnsQType::AMTRELAY,
            32768 => DnsQType::TA,
            32769 => DnsQType::DLV,
            _ => DnsQType::Unassigned,
        }
    }

    pub fn to_u16(&self) -> (r: u16)
        ensures
            r == self.spec_to_u16(),
    {
        match self {
            DnsQType::A => 1,
            DnsQType::NS => 2,
            DnsQType::MD => 3,
            DnsQType::MF => 4,
            DnsQType::CNAME => 5,
            DnsQType::SOA => 6,
            DnsQType::MB => 7,
            DnsQType::MG => 8,
            DnsQType::MR => 9,
            DnsQType::NULL => 10,
            DnsQType::WKS => 11,
            DnsQType::PTR => 12,
            DnsQType::HINFO => 13,
            DnsQType::MINFO => 14,
            DnsQType::MX => 15,
            DnsQType::TXT => 16,
            DnsQType::RP => 17,
            DnsQType::AFSDB => 18,
            DnsQType::X25 => 19,
            DnsQType::ISDN => 20,
            DnsQType::RT => 21,
            DnsQType::NSAP => 22,
            DnsQType::NsapPtr => 23,
            DnsQType::SIG => 24,
            DnsQType::KEY => 25,
            DnsQType::PX => 26,
            DnsQType::GPOS => 27,
            DnsQType::AAAA => 28,
            DnsQType::LOC => 29,
            DnsQType::NXT => 30,
            DnsQType::EID => 31,
            DnsQType::NIMLOC => 32,
            DnsQType::SRV => 33,
            DnsQType::ATMA => 34,
            DnsQType::NAPTR => 35,
            DnsQType::KX => 36,
            DnsQType::CERT => 37,
            DnsQType::A6 => 38,
            DnsQType::DNAME => 39,
            DnsQType::SINK => 40,
            DnsQType::OPT => 41,
            DnsQType::APL => 42,
            DnsQType::DS => 43,
            DnsQType::SSHFP => 44,
            DnsQType::IPSECKEY => 45,
            DnsQType::RRSIG => 46,
            DnsQType::NSEC => 47,
            DnsQType::DNSKEY => 48,
            DnsQType::DHCID => 49,
            DnsQType::NSEC3 => 50,
            DnsQType::NSEC3PARAM => 51,
            DnsQType::TLSA => 52,
            DnsQType::SMIMEA => 53,
            DnsQType::HIP => 55,
            DnsQType::NINFO => 56,
            DnsQType::RKEY => 57,
            DnsQType::TALINK => 58,
            DnsQType::CDS => 59,
            DnsQType::CDNSKEY => 60,
            DnsQType::OPENPGPKEY => 61,
            DnsQType::CSYNC => 62,
            DnsQType::ZONEMD => 63,
            DnsQType::SVCB => 64,
            DnsQType::HTTPS => 65,
            DnsQType::SPF => 99,
            DnsQType::UINFO => 100,
            DnsQType::UID => 101,
            DnsQType::GID => 102,
            DnsQType::UNSPEC => 103,
            DnsQType::NID => 104,
            DnsQType::L32 => 105,
            DnsQType::L64 => 106,
            DnsQType::LP => 107,
            DnsQType::EUI48 => 108,
            DnsQType::EUI64 => 109,
            DnsQType::TKEY => 249,
            DnsQType::TSIG => 250,
            DnsQType::IXFR => 251,
            DnsQType::AXFR => 252,
            DnsQType::MAILB => 253,
            DnsQType::MAILA => 254,
            DnsQType::ALL => 255,
            DnsQType::URI => 256,
            DnsQType::CAA => 257,
            DnsQType::AVC => 258,
            DnsQType::DOA => 259,
            DnsQType::AMTRELAY => 260,
            DnsQType::TA => 32768,
            DnsQType::DLV => 32769,
            DnsQType::Unassigned => 0,
        }
    }
}

/// Every type value decodes; one that names a variant is given back by `to_u16`,
/// any other decodes to `Unassigned`.
#[verifier::rlimit(50)]
pub proof fn lemma_qtype_total(n: u16)
    ensures
        DnsQType::spec_from_u16(n) != DnsQType::Unassigned ==> DnsQType::spec_from_u16(
            n,
        ).spec_to_u16() == n,
        DnsQType::spec_from_u16(DnsQType::Unassigned.spec_to_u16()) == DnsQType::Unassigned,
{
}

/// Every type variant is given back by decoding its own code.
pub proof fn lemma_qtype_code_inverse(t: DnsQType)
    ensures
        DnsQType::spec_from_u16(t.spec_to_u16()) == t,
{
}

/// The class of a question or of a resource record.
#[derive(Debug, Default, PartialEq, Eq, Structural, Clone, Copy)]
pub enum DnsClass {
    #[default]
    IN,
    CS,
    CH,
    HS,
    NONE,
    ANY,
    Unassigned,
    Reserved,
}

impl DnsClass {
    /// The variant that a wire value stands for.
    pub open spec fn spec_from_u16(rclass: u16) -> DnsClass {
        if rclass == 1 {
            DnsClass::IN
        } else if rclass == 2 {
            DnsClass::CS
        } else if rclass == 3 {
            DnsClass::CH
        } else if rclass == 4 {
            DnsClass::HS
        } else if rclass == 254 {
            DnsClass::NONE
        } else if rclass == 255 {
            DnsClass::ANY
        } else if rclass == 0 || rclass >= 65280 {
            DnsClass::Reserved
        } else {
            DnsClass::Unassigned
        }
    }

    /// The wire value of a variant (0 for `Unassigned` and `Reserved`).
    pub open spec fn spec_to_u16(self) -> u16 {
        match self {
            DnsClass::IN => 1,
            DnsClass::CS => 2,
            DnsClass::CH => 3,
            DnsClass::HS => 4,
            DnsClass::NONE => 254,
            DnsClass::ANY => 255,
            DnsClass::Reserved => 0,
            DnsClass::Unassigned => 0,
        }
    }

    /// Whether the variant is one of those that name a value.
    pub open spec fn is_named(self) -> bool {
        self != DnsClass::Unassigned && self != DnsClass::Reserved
    }

    pub fn from_u16(rclass: u16) -> (r: DnsClass)
        ensures
            r == Self::spec_from_u16(rclass),
    {
        match rclass {
            1 => DnsClass::IN,
            2 => DnsClass::CS,
            3 => DnsClass::CH,
            4 => DnsClass::HS,
            254 => DnsClass::NONE,
            255 => DnsClass::ANY,
            0 => DnsClass::Reserved,
            5..=253 => DnsClass::Unassigned,
            65280..=65535 => DnsClass::Reserved,
            _ => DnsClass::Unassigned,
        }
    }

    pub fn to_u16(&self) -> (r: u16)
        ensures
            r == self.spec_to_u16(),
    {
        match self {
            DnsClass::IN => 1,
            DnsClass::CS => 2,
            DnsClass::CH => 3,
            DnsClass::HS => 4,
            DnsClass::NONE => 254,
            DnsClass::ANY => 255,
            DnsClass::Reserved => 0,
            DnsClass::Unassigned => 0,
        }
    }
}

/// Every class value decodes; one that names a variant is given back by `to_u16`,
/// any other decodes to `Unassigned` or `Reserved`.
pub proof fn lemma_class_total(n: u16)
    ensures
        DnsClass::spec_from_u16(n).is_named() ==> DnsClass::spec_from_u16(n).spec_to_u16() == n,
        !DnsClass::spec_from_u16(n).is_named() ==> (DnsClass::spec_from_u16(n)
            == DnsClass::Unassigned || DnsClass::spec_from_u16(n) == DnsClass::Reserved),
{
}

} // verus!
