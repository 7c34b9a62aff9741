use vstd::prelude::*;

use crate::codes::{DnsClass, DnsQType};
use crate::error::{DnsError, DnsPart};
use crate::name::{opt_view, DnsName, NameView};
use crate::wire::{be16, be32, copy_range, push_all, push_u16, push_u32, read_u16, read_u32, u16_bytes, u32_bytes};

verus! {

/// A question as the codec sees it.
pub ghost struct QuestionView {
    pub qname: NameView,
    pub qtype: DnsQType,
    pub qclass: DnsClass,
}

/// A question: the name asked about, with the type and class of the query.
#[derive(Debug, Default, Clone)]
pub struct DnsQuestion {
    /// The domain name asked about.
    pub qname: DnsName,
    /// A two octet code which specifies the type of the query.
    pub qtype: DnsQType,
    /// A two octet code that specifies the class of the query.
    pub qclass: DnsClass,
}

impl View for DnsQuestion {
    type V = QuestionView;

    open spec fn view(&self) -> QuestionView {
        QuestionView { qname: self.qname@, qtype: self.qtype, qclass: self.qclass }
    }
}

impl QuestionView {
    /// The wire bytes: the name, then type and class as big-endian 16-bit values.
    pub open spec fn spec_encode(self) -> Option<Seq<u8>> {
        match self.qname.spec_encode() {
            Some(n) => Some(n + u16_bytes(self.qtype.spec_to_u16()) + u16_bytes(
                self.qclass.spec_to_u16(),
            )),
            None => None,
        }
    }
}

impl DnsQuestion {
    /// Decoding a question at `offset`, its name resolved against `target`: the question
    /// and the bytes it took.
    pub open spec fn spec_decode(data: Seq<u8>, offset: int, target: Option<NameView>) -> Option<
        (QuestionView, int),
    > {
        match DnsName::spec_decode(data, offset, target) {
            Some((qname, used)) => {
                let i = offset + used;
                if i + 4 <= data.len() {
                    Some(
                        (
                            QuestionView {
                                qname,
                                qtype: DnsQType::spec_from_u16(be16(data[i], data[i + 1])),
                                qclass: DnsClass::spec_from_u16(be16(data[i + 2], data[i + 3])),
                            },
                            used + 4,
                        ),
                    )
                } else {
                    None
                }
            },
            None => None,
        }
    }

    /// The error of a question that does not decode at `offset`: in its name, or in the
    /// type and class after it.
    pub open spec fn spec_error(data: Seq<u8>, offset: int, target: Option<NameView>) -> DnsError {
        DnsError::FormatError {
            part: if DnsName::spec_decode(data, offset, target) is None {
                DnsPart::Name
            } else {
                DnsPart::Question
            },
            offset: offset as usize,
        }
    }

    /// Decodes the question at `offset`, its name resolved against `target`; returns it and
    /// the bytes it took.
    pub fn decode_at(data: &[u8], offset: usize, target: Option<&DnsName>) -> (r: Result<
        (DnsQuestion, usize),
        DnsError,
    >)
        ensures
            match r {
                Ok((q, used)) => Self::spec_decode(data@, offset as int, opt_view(target)) == Some(
                    (q@, used as int),
                ) && offset + used <= data@.len(),
                Err(e) => Self::spec_decode(data@, offset as int, opt_view(target)) is None && e
                    == Self::spec_error(data@, offset as int, opt_view(target)),
            },
    {
        let (qname, used) = match DnsName::decode_at(data, offset, target) {
            Ok(r) => r,
            Err(e) => {
                return Err(e);
            },
        };
        let total = data.len();
        let i = offset + used;
        if total - i < 4 {
            return Err(DnsError::FormatError { part: DnsPart::Question, offset });
        }
        let qtype = DnsQType::from_u16(read_u16(data, i));
        let qclass = DnsClass::from_u16(read_u16(data, i + 2));
        Ok((DnsQuestion { qname, qtype, qclass }, used + 4))
    }

    /// Decodes the question at `offset` of a message that starts at the buffer's first
    /// byte; a pointer resolves against the question's name at offset 12, as for any name.
    pub fn from_bytes(data: &[u8], offset: usize) -> (r: Result<DnsQuestion, DnsError>)
        ensures
            match r {
                Ok(q) => Self::spec_decode(data@, offset as int, DnsName::spec_question_name(data@))
                    matches Some((v, _)) && v == q@,
                Err(e) => Self::spec_decode(
                    data@,
                    offset as int,
                    DnsName::spec_question_name(data@),
                ) is None && e == Self::spec_error(
                    data@,
                    offset as int,
                    DnsName::spec_question_name(data@),
                ),
            },
    {
        let question = match DnsName::decode_at(data, 12, None) {
            Ok((q, _)) => Some(q),
            Err(_) => None,
        };
        let target = match &question {
            Some(q) => Some(q),
            None => None,
        };
        match Self::decode_at(data, offset, target) {
            Ok((q, _)) => Ok(q),
            Err(e) => Err(e),
        }
    }

    pub fn to_bytes(&self) -> (r: Result<Vec<u8>, DnsError>)
        ensures
            match r {
                Ok(v) => self@.spec_encode() == Some(v@),
                Err(e) => self@.spec_encode() is None && e is SerializationError,
            },
    {
        let mut data = match self.qname.to_bytes() {
            Ok(d) => d,
            Err(e) => {
                return Err(e);
            },
        };
        push_u16(&mut data, self.qtype.to_u16());
        push_u16(&mut data, self.qclass.to_u16());
        Ok(data)
    }

    /// A copy of the question.
    pub fn duplicate(&self) -> (r: DnsQuestion)
        ensures
            r@ == self@,
    {
        DnsQuestion { qname: self.qname.duplicate(), qtype: self.qtype, qclass: self.qclass }
    }
}

/// A resource record as the codec sees it.
pub ghost struct RecordView {
    pub name: NameView,
    pub rtype: DnsQType,
    pub rclass: DnsClass,
    pub ttl: u32,
    pub rdlength: u16,
    pub rdata: Seq<u8>,
}

/// A resource record. An OPT record (type 41) keeps everything after its type as `rdata`.
#[derive(Debug)]
pub struct DnsResourceRecord {
    /// A domain name to which this resource record pertains.
    pub name: DnsName,
    /// A two octet code which specifies the type of the record.
    pub rtype: DnsQType,
    /// A two octet code that specifies the class of the record.
    pub rclass: DnsClass,
    /// The time interval (in seconds) that the resource record may be cached.
    pub ttl: u32,
    /// The length in octets of the RDATA field.
    pub rdlength: u16,
    /// A variable length string of octets that describes the resource.
    pub rdata: Vec<u8>,
}

impl View for DnsResourceRecord {
    type V = RecordView;

    open spec fn view(&self) -> RecordView {
        RecordView {
            name: self.name@,
            rtype: self.rtype,
            rclass: self.rclass,
            ttl: self.ttl,
            rdlength: self.rdlength,
            rdata: self.rdata@,
        }
    }
}

/// The wire code of the OPT pseudo-record type.
pub const OPT_CODE: u16 = 41;

impl RecordView {
    /// The wire bytes: name and type, then for an OPT record its data as it stands, and
    /// for any other class, ttl, length and data. `None` where the name cannot be written,
    /// or the data of a record other than OPT is not `rdlength` bytes long.
    pub open spec fn spec_encode(self) -> Option<Seq<u8>> {
        match self.name.spec_encode() {
            Some(n) => if self.rtype == DnsQType::OPT {
                Some(n + u16_bytes(self.rtype.spec_to_u16()) + self.rdata)
            } else if self.rdata.len() == self.rdlength {
                Some(
                    n + u16_bytes(self.rtype.spec_to_u16()) + u16_bytes(self.rclass.spec_to_u16())
                        + u32_bytes(self.ttl) + u16_bytes(self.rdlength) + self.rdata,
                )
            } else {
                None
            },
            None => None,
        }
    }

    /// The record of the default value: type A, class IN, ttl 300, no data.
    pub open spec fn spec_default() -> RecordView {
        RecordView {
            name: NameView { labels: Seq::empty(), offset: 0, pointer: 0 },
            rtype: DnsQType::A,
            rclass: DnsClass::IN,
            ttl: 300,
            rdlength: 0,
            rdata: Seq::empty(),
        }
    }
}

impl DnsResourceRecord {
    /// Decoding a record at `offset`, its name resolved against `target`: the record and
    /// the bytes it took. An OPT record takes every byte to the end of the buffer as its
    /// data (at most 65535 of them), with class IN and ttl 0.
    pub open spec fn spec_decode(data: Seq<u8>, offset: int, target: Option<NameView>) -> Option<
        (RecordView, int),
    > {
        match DnsName::spec_decode(data, offset, target) {
            Some((name, used)) => {
                let i = offset + used;
                if i + 2 > data.len() {
                    None
                } else if be16(data[i], data[i + 1]) == OPT_CODE {
                    let rdata = data.subrange(i + 2, data.len() as int);
                    if rdata.len() > 65535 {
                        None
                    } else {
                        Some(
                            (
                                RecordView {
                                    name,
                                    rtype: DnsQType::OPT,
                                    rclass: DnsClass::IN,
                                    ttl: 0,
                                    rdlength: rdata.len() as u16,
                                    rdata,
                                },
                                data.len() - offset,
                            ),
                        )
                    }
                } else if i + 10 > data.len() {
                    None
                } else {
                    let rdlength = be16(data[i + 8], data[i + 9]);
                    if i + 10 + rdlength > data.len() {
                        None
                    } else {
                        Some(
                            (
                                RecordView {
                                    name,
                                    rtype: DnsQType::spec_from_u16(be16(data[i], data[i + 1])),
                                    rclass: DnsClass::spec_from_u16(be16(data[i + 2], data[i + 3])),
                                    ttl: be32(data[i + 4], data[i + 5], data[i + 6], data[i + 7]),
                                    rdlength,
                                    rdata: data.subrange(i + 10, i + 10 + rdlength),
                                },
                                used + 10 + rdlength,
                            ),
                        )
                    }
                }
            },
            None => None,
        }
    }

    /// The error of a record that does not decode at `offset`: in its name, or in what
    /// follows it.
    pub open spec fn spec_error(data: Seq<u8>, offset: int, target: Option<NameView>) -> DnsError {
        DnsError::FormatError {
            part: if DnsName::spec_decode(data, offset, target) is None {
                DnsPart::Name
            } else {
                DnsPart::Record
            },
            offset: offset as usize,
        }
    }

    /// Decodes the record at `offset`, its name resolved against `target`, the question's
    /// name; returns the record and the bytes it took.
    pub fn decode_at(data: &[u8], offset: usize, target: Option<&DnsName>) -> (r: Result<
        (DnsResourceRecord, usize),
        DnsError,
    >)
        ensures
            match r {
                Ok((rr, used)) => Self::spec_decode(data@, offset as int, opt_view(target)) == Some(
                    (rr@, used as int),
                ) && offset + used <= data@.len(),
                Err(e) => Self::spec_decode(data@, offset as int, opt_view(target)) is None && e
                    == Self::spec_error(data@, offset as int, opt_view(target)),
            },
    {
        let (name, used) = match DnsName::decode_at(data, offset, target) {
            Ok(r) => r,
            Err(e) => {
                return Err(e);
            },
        };
        let err = DnsError::FormatError { part: DnsPart::Record, offset };
        let total = data.len();
        let i = offset + used;
        if total - i < 2 {
            return Err(err);
        }
        let code = read_u16(data, i);
        if code == OPT_CODE {
            let rest = data.len() - (i + 2);
            if rest > 65535 {
                return Err(err);
            }
            let rdata = copy_range(data, i + 2, data.len());
            return Ok(
                (
                    DnsResourceRecord {
                        name,
                        rtype: DnsQType::OPT,
                        rclass: DnsClass::IN,
                        ttl: 0,
                        rdlength: rest as u16,
                        rdata,
                    },
                    data.len() - offset,
                ),
            );
        }
        if data.len() - i < 10 {
            return Err(err);
        }
        let rdlength = read_u16(data, i + 8);
        if data.len() - (i + 10) < rdlength as usize {
            return Err(err);
        }
        let rdata = copy_range(data, i + 10, i + 10 + rdlength as usize);
        Ok(
            (
                DnsResourceRecord {
                    name,
                    rtype: DnsQType::from_u16(code),
                    rclass: DnsClass::from_u16(read_u16(data, i + 2)),
                    ttl: read_u32(data, i + 4),
                    rdlength,
                    rdata,
                },
                used + 10 + rdlength as usize,
            ),
        )
    }

    /// Decodes the record at `offset` of a message that starts at the buffer's first byte;
    /// a pointer resolves against the question's name at offset 12.
    pub fn from_bytes(data: &[u8], offset: usize) -> (r: Result<DnsResourceRecord, DnsError>)
        ensures
            match r {
                Ok(rr) => Self::spec_decode(
                    data@,
                    offset as int,
                    DnsName::spec_question_name(data@),
                ) matches Some((v, _)) && v == rr@,
                Err(e) => Self::spec_decode(
                    data@,
                    offset as int,
                    DnsName::spec_question_name(data@),
                ) is None && e == Self::spec_error(
                    data@,
                    offset as int,
                    DnsName::spec_question_name(data@),
                ),
            },
    {
        let question = match DnsName::decode_at(data, 12, None) {
            Ok((q, _)) => Some(q),
            Err(_) => None,
        };
        let target = match &question {
            Some(q) => Some(q),
            None => None,
        };
        match Self::decode_at(data, offset, target) {
            Ok((rr, _)) => Ok(rr),
            Err(e) => Err(e),
        }
    }

    pub fn to_bytes(&self) -> (r: Result<Vec<u8>, DnsError>)
        ensures
            match r {
                Ok(v) => self@.spec_encode() == Some(v@),
                Err(e) => self@.spec_encode() is None && e is SerializationError,
            },
    {
        let mut data = match self.name.to_bytes() {
            Ok(d) => d,
            Err(e) => {
                return Err(e);
            },
        };
        push_u16(&mut data, self.rtype.to_u16());
        if self.rtype == DnsQType::OPT {
            push_all(&mut data, self.rdata.as_slice());
        } else {
            if self.rdata.len() != self.rdlength as usize {
                return Err(DnsError::SerializationError { part: DnsPart::Record });
            }
            push_u16(&mut data, self.rclass.to_u16());
            push_u32(&mut data, self.ttl);
            push_u16(&mut data, self.rdlength);
            push_all(&mut data, self.rdata.as_slice());
        }
        Ok(data)
    }
}

impl Default for DnsResourceRecord {
    fn default() -> (r: DnsResourceRecord)
        ensures
            r@ == RecordView::spec_default(),
    {
        let r = DnsResourceRecord {
            name: DnsName { labels: Vec::new(), offset: 0, pointer: 0 },
            rtype: DnsQType::A,
            rclass: DnsClass::IN,
            ttl: 300,
            rdlength: 0,
            rdata: Vec::new(),
        };
        assert(r@.name.labels =~= Seq::<Seq<u8>>::empty());
        r
    }
}

impl QuestionView {
    /// The question reads back as itself when written at `pos`: its name is written in
    /// full there and its class survives its own code.
    pub open spec fn fits_at(self, pos: int) -> bool {
        &&& self.qname.pointer == 0
        &&& self.qname.fits_at(pos, None)
        &&& DnsClass::spec_from_u16(self.qclass.spec_to_u16()) == self.qclass
    }
}

impl RecordView {
    /// The record reads back as itself when written at `pos` of a message whose question's
    /// name is `target`. An OPT record also needs class IN, ttl 0 and a length that is
    /// that of its data; any other record a class that survives its own code and data of
    /// `rdlength` bytes.
    pub open spec fn fits_at(self, pos: int, target: Option<NameView>) -> bool {
        &&& self.name.fits_at(pos, target)
        &&& if self.rtype == DnsQType::OPT {
            &&& self.rclass == DnsClass::IN
            &&& self.ttl == 0
            &&& self.rdlength == self.rdata.len()
        } else {
            &&& self.rdata.len() == self.rdlength
            &&& DnsClass::spec_from_u16(self.rclass.spec_to_u16()) == self.rclass
        }
    }
}

/// A question that fits where it is written reads back as itself from its wire bytes,
/// whatever precedes and follows.
pub proof fn lemma_question_read_back(pre: Seq<u8>, q: QuestionView, post: Seq<u8>)
    requires
        q.fits_at(pre.len() as int),
    ensures
        q.spec_encode() is Some,
        q.spec_encode()->0.len() == q.qname.spec_length() + 4,
        DnsQuestion::spec_decode(pre + q.spec_encode()->0 + post, pre.len() as int, None) == Some(
            (q, q.spec_encode()->0.len() as int),
        ),
{
    let tail = u16_bytes(q.qtype.spec_to_u16()) + u16_bytes(q.qclass.spec_to_u16()) + post;
    crate::name::lemma_name_read_back(pre, q.qname, tail, None);
    let n = q.qname.spec_encode()->0;
    let data = pre + q.spec_encode()->0 + post;
    assert(data =~= pre + n + tail);
    let i: int = (pre.len() + n.len()) as int;
    assert(data[i] == u16_bytes(q.qtype.spec_to_u16())[0]);
    assert(data[i + 1] == u16_bytes(q.qtype.spec_to_u16())[1]);
    assert(data[i + 2] == u16_bytes(q.qclass.spec_to_u16())[0]);
    assert(data[i + 3] == u16_bytes(q.qclass.spec_to_u16())[1]);
    crate::wire::lemma_be16_of_bytes(q.qtype.spec_to_u16());
    crate::wire::lemma_be16_of_bytes(q.qclass.spec_to_u16());
    crate::codes::lemma_qtype_code_inverse(q.qtype);
}

/// A record that fits where it is written reads back as itself from its wire bytes. An
/// OPT record must end the buffer.
pub proof fn lemma_record_read_back(
    pre: Seq<u8>,
    r: RecordView,
    post: Seq<u8>,
    target: Option<NameView>,
)
    requires
        r.fits_at(pre.len() as int, target),
        r.rtype == DnsQType::OPT ==> post.len() == 0,
    ensures
        r.spec_encode() is Some,
        DnsResourceRecord::spec_decode(pre + r.spec_encode()->0 + post, pre.len() as int, target)
            == Some((r, r.spec_encode()->0.len() as int)),
{
    if r.rtype == DnsQType::OPT {
        lemma_opt_record_read_back(pre, r, target);
        assert(pre + r.spec_encode()->0 + post =~= pre + r.spec_encode()->0);
    } else {
        lemma_plain_record_read_back(pre, r, post, target);
    }
}

#[verifier::rlimit(30)]
proof fn lemma_opt_record_read_back(pre: Seq<u8>, r: RecordView, target: Option<NameView>)
    requires
        r.fits_at(pre.len() as int, target),
        r.rtype == DnsQType::OPT,
    ensures
        r.spec_encode() is Some,
        DnsResourceRecord::spec_decode(pre + r.spec_encode()->0, pre.len() as int, target)
            == Some((r, r.spec_encode()->0.len() as int)),
{
    let code = r.rtype.spec_to_u16();
    assert(code == OPT_CODE);
    crate::wire::lemma_be16_of_bytes(code);
    let tail = u16_bytes(code) + r.rdata;
    crate::name::lemma_name_read_back(pre, r.name, tail, target);
    let n = r.name.spec_encode()->0;
    let data = pre + r.spec_encode()->0;
    assert(data =~= pre + n + tail);
    let i: int = (pre.len() + n.len()) as int;
    assert(data[i] == u16_bytes(code)[0]);
    assert(data[i + 1] == u16_bytes(code)[1]);
    assert(data.subrange(i + 2, data.len() as int) =~= r.rdata);
}

#[verifier::rlimit(30)]
proof fn lemma_plain_record_read_back(
    pre: Seq<u8>,
    r: RecordView,
    post: Seq<u8>,
    target: Option<NameView>,
)
    requires
        r.fits_at(pre.len() as int, target),
        r.rtype != DnsQType::OPT,
    ensures
        r.spec_encode() is Some,
        DnsResourceRecord::spec_decode(pre + r.spec_encode()->0 + post, pre.len() as int, target)
            == Some((r, r.spec_encode()->0.len() as int)),
{
    let code = r.rtype.spec_to_u16();
    assert(code != OPT_CODE && DnsQType::spec_from_u16(code) == r.rtype) by {
        crate::codes::lemma_qtype_code_inverse(r.rtype);
    }
    crate::wire::lemma_be16_of_bytes(code);
    let tail = u16_bytes(code) + u16_bytes(r.rclass.spec_to_u16()) + u32_bytes(r.ttl) + u16_bytes(
        r.rdlength,
    ) + r.rdata + post;
    crate::name::lemma_name_read_back(pre, r.name, tail, target);
    let n = r.name.spec_encode()->0;
    let data = pre + r.spec_encode()->0 + post;
    assert(data =~= pre + n + tail);
    let i: int = (pre.len() + n.len()) as int;
    assert(data[i] == u16_bytes(code)[0]);
    assert(data[i + 1] == u16_bytes(code)[1]);
    assert(data[i + 2] == u16_bytes(r.rclass.spec_to_u16())[0]);
    assert(data[i + 3] == u16_bytes(r.rclass.spec_to_u16())[1]);
    assert(data[i + 4] == u32_bytes(r.ttl)[0]);
    assert(data[i + 5] == u32_bytes(r.ttl)[1]);
    assert(data[i + 6] == u32_bytes(r.ttl)[2]);
    assert(data[i + 7] == u32_bytes(r.ttl)[3]);
    assert(data[i + 8] == u16_bytes(r.rdlength)[0]);
    assert(data[i + 9] == u16_bytes(r.rdlength)[1]);
    crate::wire::lemma_be16_of_bytes(r.rclass.spec_to_u16());
    crate::wire::lemma_be16_of_bytes(r.rdlength);
    crate::wire::lemma_be32_of_bytes(r.ttl);
    assert(data.subrange(i + 10, i + 10 + r.rdlength) =~= r.rdata);
}

} // verus!
