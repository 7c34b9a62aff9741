use vstd::prelude::*;

use crate::codes::{DnsClass, DnsOpcode, DnsQType, DnsRcode};
use crate::error::{DnsError, DnsPart};
use crate::header::{lemma_header_round_trip, DnsFlags, DnsHeader};
use crate::name::{DnsName, NameView};
use crate::record::{
    lemma_question_read_back, lemma_record_read_back, DnsQuestion, DnsResourceRecord,
    QuestionView, RecordView,
};
use crate::wire::push_all;

verus! {

/// A part of a message that can be read from and written to its wire bytes.
pub trait DnsPacketData: Sized {
    fn from_bytes(data: &[u8], offset: usize) -> Result<Self, DnsError>;

    fn to_bytes(&self) -> Result<Vec<u8>, DnsError>;
}

/// The views of a sequence of records.
pub open spec fn records_view(v: Seq<DnsResourceRecord>) -> Seq<RecordView> {
    v.map_values(|r: DnsResourceRecord| r@)
}

/// The view of an optional list of records.
pub open spec fn opt_records_view(v: Option<Vec<DnsResourceRecord>>) -> Option<Seq<RecordView>> {
    match v {
        Some(v) => Some(records_view(v@)),
        None => None,
    }
}

/// Decoding `count` records one after another from `pos`, names resolved against `target`.
pub open spec fn spec_decode_records(
    data: Seq<u8>,
    pos: int,
    count: nat,
    target: Option<NameView>,
) -> Option<Seq<RecordView>>
    decreases count,
{
    if count == 0 {
        Some(Seq::empty())
    } else {
        match DnsResourceRecord::spec_decode(data, pos, target) {
            Some((r, used)) => match spec_decode_records(data, pos + used, (count - 1) as nat, target) {
                Some(rest) => Some(seq![r] + rest),
                None => None,
            },
            None => None,
        }
    }
}

/// The error of the first of `count` records from `pos` that does not decode, where one
/// does not.
pub open spec fn spec_records_error(
    data: Seq<u8>,
    pos: int,
    count: nat,
    target: Option<NameView>,
) -> DnsError
    decreases count,
{
    if count == 0 {
        DnsError::FormatError { part: DnsPart::Record, offset: pos as usize }
    } else {
        match DnsResourceRecord::spec_decode(data, pos, target) {
            Some((_, used)) => spec_records_error(data, pos + used, (count - 1) as nat, target),
            None => DnsResourceRecord::spec_error(data, pos, target),
        }
    }
}

/// The wire bytes of records one after another; `None` where one cannot be written.
pub open spec fn spec_encode_records(rs: Seq<RecordView>) -> Option<Seq<u8>>
    decreases rs.len(),
{
    if rs.len() == 0 {
        Some(Seq::empty())
    } else {
        match (rs[0].spec_encode(), spec_encode_records(rs.drop_first())) {
            (Some(a), Some(b)) => Some(a + b),
            _ => None,
        }
    }
}

/// The records of `acc` followed by those of a read.
pub open spec fn prepend_records(acc: Seq<RecordView>, r: Option<Seq<RecordView>>) -> Option<
    Seq<RecordView>,
> {
    match r {
        Some(rs) => Some(acc + rs),
        None => None,
    }
}

/// The bytes of `acc` followed by those of an encoding.
pub open spec fn append_bytes(acc: Option<Seq<u8>>, more: Option<Seq<u8>>) -> Option<Seq<u8>> {
    match (acc, more) {
        (Some(a), Some(b)) => Some(a + b),
        _ => None,
    }
}

/// Decodes `count` records from `start`, names resolved against `target`.
fn decode_records(data: &[u8], start: usize, count: u16, target: &DnsName) -> (r: Result<
    Vec<DnsResourceRecord>,
    DnsError,
>)
    ensures
        match r {
            Ok(v) => spec_decode_records(data@, start as int, count as nat, Some(target@)) == Some(
                records_view(v@),
            ),
            Err(e) => spec_decode_records(data@, start as int, count as nat, Some(target@)) is None
                && e == spec_records_error(data@, start as int, count as nat, Some(target@)),
        },
{
    let mut records: Vec<DnsResourceRecord> = Vec::new();
    let mut index: usize = start;
    let mut k: u16 = 0;
    let total = data.len();
    while k < count
        invariant
            k <= count,
            total == data@.len(),
            spec_decode_records(data@, start as int, count as nat, Some(target@)) == prepend_records(
                records_view(records@),
                spec_decode_records(data@, index as int, (count - k) as nat, Some(target@)),
            ),
            spec_records_error(data@, start as int, count as nat, Some(target@))
                == spec_records_error(data@, index as int, (count - k) as nat, Some(target@)),
        decreases count - k,
    {
        let (record, used) = match DnsResourceRecord::decode_at(data, index, Some(target)) {
            Ok(r) => r,
            Err(e) => {
                return Err(e);
            },
        };
        let ghost before = records@;
        records.push(record);
        proof {
            assert(records_view(records@) =~= records_view(before).push(record@));
            match spec_decode_records(data@, index + used, (count - k - 1) as nat, Some(target@)) {
                Some(rest) => {
                    assert(records_view(before) + (seq![record@] + rest) =~= records_view(records@)
                        + rest);
                },
                None => {},
            }
        }
        index = index + used;
        k = k + 1;
    }
    assert(records_view(records@) + Seq::empty() =~= records_view(records@));
    Ok(records)
}

/// Appends the wire bytes of each record.
fn encode_records(out: &mut Vec<u8>, records: &Vec<DnsResourceRecord>) -> (r: Result<(), DnsError>)
    ensures
        match r {
            Ok(()) => append_bytes(Some(old(out)@), spec_encode_records(records_view(records@)))
                == Some(final(out)@),
            Err(e) => spec_encode_records(records_view(records@)) is None && e is SerializationError,
        },
{
    let ghost start = out@;
    let ghost rs = records_view(records@);
    let mut i: usize = 0;
    while i < records.len()
        invariant
            i <= records@.len(),
            rs == records_view(records@),
            spec_encode_records(rs.take(i as int)) == Some(out@.subrange(start.len() as int, out@.len() as int)),
            out@.subrange(0, start.len() as int) == start,
            start.len() <= out@.len(),
        decreases records@.len() - i,
    {
        let bytes = match records[i].to_bytes() {
            Ok(b) => b,
            Err(e) => {
                proof {
                    assert(rs[i as int] == records@[i as int]@);
                    lemma_encode_records_push(rs.take(i as int), rs[i as int]);
                    assert(rs.take(i as int).push(rs[i as int]) =~= rs.take(i + 1));
                    lemma_encode_records_none(rs, i as int);
                }
                return Err(e);
            },
        };
        let ghost before = out@;
        push_all(out, bytes.as_slice());
        proof {
            assert(rs[i as int] == records@[i as int]@);
            lemma_encode_records_push(rs.take(i as int), rs[i as int]);
            assert(rs.take(i as int).push(rs[i as int]) =~= rs.take(i + 1));
            assert(out@.subrange(start.len() as int, out@.len() as int) =~= before.subrange(
                start.len() as int,
                before.len() as int,
            ) + bytes@);
            assert(out@.subrange(0, start.len() as int) =~= before.subrange(0, start.len() as int));
        }
        i = i + 1;
    }
    assert(rs.take(i as int) =~= rs);
    assert(start + out@.subrange(start.len() as int, out@.len() as int) =~= out@);
    Ok(())
}

/// Appending a record to a list appends its bytes to the list's bytes.
proof fn lemma_encode_records_push(rs: Seq<RecordView>, r: RecordView)
    ensures
        spec_encode_records(rs.push(r)) == append_bytes(spec_encode_records(rs), r.spec_encode()),
    decreases rs.len(),
{
    if rs.len() > 0 {
        assert(rs.push(r).drop_first() =~= rs.drop_first().push(r));
        assert(rs.push(r)[0] == rs[0]);
        lemma_encode_records_push(rs.drop_first(), r);
        match (rs[0].spec_encode(), spec_encode_records(rs.drop_first()), r.spec_encode()) {
            (Some(a), Some(b), Some(c)) => {
                assert(a + (b + c) =~= (a + b) + c);
            },
            _ => {},
        }
    } else {
        assert(rs.push(r).drop_first() =~= Seq::<RecordView>::empty());
        assert(rs.push(r)[0] == r);
        assert(spec_encode_records(rs.push(r).drop_first()) == Some(Seq::<u8>::empty()));
        match r.spec_encode() {
            Some(c) => {
                assert(c + Seq::<u8>::empty() =~= c);
                assert(Seq::<u8>::empty() + c =~= c);
            },
            None => {},
        }
    }
}

/// Where a prefix of a list, extended by the next record, cannot be written, neither can the
/// whole list.
proof fn lemma_encode_records_none(rs: Seq<RecordView>, i: int)
    requires
        0 <= i < rs.len(),
        spec_encode_records(rs.take(i + 1)) is None,
    ensures
        spec_encode_records(rs) is None,
    decreases rs.len(),
{
    assert(rs.take(i + 1)[0] == rs[0]);
    if rs[0].spec_encode() is Some {
        if i > 0 {
            assert(rs.take(i + 1).drop_first() =~= rs.drop_first().take(i));
            lemma_encode_records_none(rs.drop_first(), i - 1);
        } else {
            assert(rs.take(1).drop_first() =~= Seq::<RecordView>::empty());
            assert(spec_encode_records(rs.take(1).drop_first()) == Some(Seq::<u8>::empty()));
        }
    }
}

/// A request as the codec sees it.
pub ghost struct RequestView {
    pub header: DnsHeader,
    pub question: QuestionView,
    pub additional: Option<Seq<RecordView>>,
}

/// A query: header, one question and, where `arcount` is not zero, that many additional
/// records.
#[derive(Debug, Default)]
pub struct DnsRequest {
    pub header: DnsHeader,
    pub question: DnsQuestion,
    pub additional: Option<Vec<DnsResourceRecord>>,
}

impl View for DnsRequest {
    type V = RequestView;

    open spec fn view(&self) -> RequestView {
        RequestView {
            header: self.header,
            question: self.question@,
            additional: opt_records_view(self.additional),
        }
    }
}

/// The bytes of an optional list of records; none for an absent list.
pub open spec fn spec_encode_opt_records(rs: Option<Seq<RecordView>>) -> Option<Seq<u8>> {
    match rs {
        Some(rs) => spec_encode_records(rs),
        None => Some(Seq::empty()),
    }
}

/// Decoding the header and question of a message at `offset`, then `count(header)` records
/// after the question; records are absent where that count is zero.
pub open spec fn spec_decode_message(
    data: Seq<u8>,
    offset: int,
    use_additional: bool,
) -> Option<(DnsHeader, QuestionView, Option<Seq<RecordView>>)> {
    match DnsHeader::spec_decode(data, offset) {
        Some(header) => match DnsQuestion::spec_decode(data, offset + 12, None) {
            Some((question, used)) => {
                let count = if use_additional {
                    header.arcount
                } else {
                    header.ancount
                };
                if count == 0 {
                    Some((header, question, None))
                } else {
                    match spec_decode_records(
                        data,
                        offset + 12 + used,
                        count as nat,
                        Some(question.qname),
                    ) {
                        Some(rs) => Some((header, question, Some(rs))),
                        None => None,
                    }
                }
            },
            None => None,
        },
        None => None,
    }
}

/// The error of a message that does not decode at `offset`: the header's, the question's,
/// or that of the first record that does not decode.
pub open spec fn spec_message_error(data: Seq<u8>, offset: int, use_additional: bool) -> DnsError {
    match DnsHeader::spec_decode(data, offset) {
        Some(header) => match DnsQuestion::spec_decode(data, offset + 12, None) {
            Some((question, used)) => spec_records_error(
                data,
                offset + 12 + used,
                (if use_additional {
                    header.arcount
                } else {
                    header.ancount
                }) as nat,
                Some(question.qname),
            ),
            None => DnsQuestion::spec_error(data, offset + 12, None),
        },
        None => DnsError::FormatError { part: DnsPart::Header, offset: offset as usize },
    }
}

/// The bytes of a message: header, question, then the records.
pub open spec fn spec_encode_message(
    header: DnsHeader,
    question: QuestionView,
    records: Option<Seq<RecordView>>,
) -> Option<Seq<u8>> {
    append_bytes(
        append_bytes(header.spec_encode(), question.spec_encode()),
        spec_encode_opt_records(records),
    )
}

impl RequestView {
    pub open spec fn spec_encode(self) -> Option<Seq<u8>> {
        spec_encode_message(self.header, self.question, self.additional)
    }
}

impl DnsRequest {
    /// Decoding a request at `offset`: header, question, and `arcount` additional records.
    pub open spec fn spec_decode(data: Seq<u8>, offset: int) -> Option<RequestView> {
        match spec_decode_message(data, offset, true) {
            Some((header, question, additional)) => Some(
                RequestView { header, question, additional },
            ),
            None => None,
        }
    }

    pub fn from_bytes(data: &[u8], offset: usize) -> (r: Result<DnsRequest, DnsError>)
        ensures
            match r {
                Ok(m) => Self::spec_decode(data@, offset as int) == Some(m@),
                Err(e) => Self::spec_decode(data@, offset as int) is None && e
                    == spec_message_error(data@, offset as int, true),
            },
    {
        match decode_message(data, offset, true) {
            Ok((header, question, additional)) => Ok(DnsRequest { header, question, additional }),
            Err(e) => Err(e),
        }
    }

    pub fn to_bytes(&self) -> (r: Result<Vec<u8>, DnsError>)
        ensures
            match r {
                Ok(v) => self@.spec_encode() == Some(v@),
                Err(e) => self@.spec_encode() is None && e is SerializationError,
            },
    {
        encode_message(&self.header, &self.question, &self.additional)
    }
}

/// A response as the codec sees it.
pub ghost struct ResponseView {
    pub header: DnsHeader,
    pub question: QuestionView,
    pub answers: Option<Seq<RecordView>>,
}

/// A response: header, one question and, where `ancount` is not zero, that many answers.
#[derive(Debug, Default)]
pub struct DnsResponse {
    pub header: DnsHeader,
    pub question: DnsQuestion,
    pub answers: Option<Vec<DnsResourceRecord>>,
}

impl View for DnsResponse {
    type V = ResponseView;

    open spec fn view(&self) -> ResponseView {
        ResponseView {
            header: self.header,
            question: self.question@,
            answers: opt_records_view(self.answers),
        }
    }
}

impl ResponseView {
    pub open spec fn spec_encode(self) -> Option<Seq<u8>> {
        spec_encode_message(self.header, self.question, self.answers)
    }
}

/// The question of an empty message: the root name, type A, class IN.
pub open spec fn spec_empty_question() -> QuestionView {
    QuestionView {
        qname: NameView { labels: Seq::empty(), offset: 0, pointer: 0 },
        qtype: DnsQType::A,
        qclass: DnsClass::IN,
    }
}

/// The header of a response to a request with header `req`: the same id and question count,
/// QR and RA set, RD copied, every other flag clear, `ancount` answers and no other records.
pub open spec fn spec_response_header(req: DnsHeader, ancount: u16) -> DnsHeader {
    DnsHeader {
        id: req.id,
        flags: DnsFlags {
            qr: 1,
            opcode: DnsOpcode::Query,
            aa: 0,
            tc: 0,
            rd: req.flags.rd,
            ra: 1,
            z: 0,
            ad: 0,
            cd: 0,
            rcode: DnsRcode::NoError,
        },
        qdcount: req.qdcount,
        ancount,
        nscount: 0,
        arcount: 0,
    }
}

/// The answer that the loopback policy gives to a question: an A record for its name,
/// ttl 300, address 127.0.0.1.
pub open spec fn spec_loopback_answer(q: QuestionView) -> RecordView {
    RecordView {
        name: q.qname,
        rtype: DnsQType::A,
        rclass: q.qclass,
        ttl: 300,
        rdlength: 4,
        rdata: seq![127u8, 0u8, 0u8, 1u8],
    }
}

impl DnsResponse {
    /// Decoding a response at `offset`: header, question, and `ancount` answers.
    pub open spec fn spec_decode(data: Seq<u8>, offset: int) -> Option<ResponseView> {
        match spec_decode_message(data, offset, false) {
            Some((header, question, answers)) => Some(ResponseView { header, question, answers }),
            None => None,
        }
    }

    /// An empty response: default header, empty question, no answers.
    pub fn new() -> (r: DnsResponse)
        ensures
            r@ == (ResponseView {
                header: DnsHeader::spec_default(),
                question: spec_empty_question(),
                answers: None,
            }),
    {
        let r = DnsResponse {
            header: DnsHeader::default(),
            question: DnsQuestion {
                qname: DnsName { labels: Vec::new(), offset: 0, pointer: 0 },
                qtype: DnsQType::A,
                qclass: DnsClass::IN,
            },
            answers: None,
        };
        assert(r@.question.qname.labels =~= Seq::<Seq<u8>>::empty());
        r
    }

    /// The response to `request` that carries `answers`, as chosen by a resolution policy.
    pub fn from_request_with(request: &DnsRequest, answers: Vec<DnsResourceRecord>) -> (r:
        DnsResponse)
        requires
            answers@.len() <= 65535,
        ensures
            r@ == (ResponseView {
                header: spec_response_header(request@.header, answers@.len() as u16),
                question: request@.question,
                answers: if answers@.len() == 0 {
                    None
                } else {
                    Some(records_view(answers@))
                },
            }),
    {
        let mut response = DnsResponse::new();
        let ancount = answers.len() as u16;
        response.header.id = request.header.id;
        response.header.flags.qr = 1;
        response.header.flags.rd = request.header.flags.rd;
        response.header.flags.ra = 1;
        response.header.qdcount = request.header.qdcount;
        response.header.ancount = ancount;
        response.header.nscount = 0;
        response.header.arcount = 0;
        response.question = request.question.duplicate();
        response.answers = if answers.len() == 0 {
            None
        } else {
            Some(answers)
        };
        response
    }

    /// The loopback policy: one A record for the question's name pointing at 127.0.0.1.
    pub fn loopback_answers(question: &DnsQuestion) -> (r: Vec<DnsResourceRecord>)
        ensures
            r@.len() == 1,
            records_view(r@) == seq![spec_loopback_answer(question@)],
    {
        let mut rdata: Vec<u8> = Vec::new();
        rdata.push(127);
        rdata.push(0);
        rdata.push(0);
        rdata.push(1);
        let record = DnsResourceRecord {
            name: question.qname.duplicate(),
            rtype: DnsQType::A,
            rclass: question.qclass,
            ttl: 300,
            rdlength: 4,
            rdata,
        };
        assert(record@.rdata =~= seq![127u8, 0u8, 0u8, 1u8]);
        assert(record@ == spec_loopback_answer(question@));
        let mut r: Vec<DnsResourceRecord> = Vec::new();
        r.push(record);
        assert(r@.len() == 1 && r@[0]@ == spec_loopback_answer(question@));
        assert(records_view(r@) =~= seq![spec_loopback_answer(question@)]);
        r
    }

    /// The response to `request` under the loopback policy.
    pub fn from_request(request: &DnsRequest) -> (r: DnsResponse)
        ensures
            r@ == (ResponseView {
                header: spec_response_header(request@.header, 1),
                question: request@.question,
                answers: Some(seq![spec_loopback_answer(request@.question)]),
            }),
    {
        let answers = Self::loopback_answers(&request.question);
        Self::from_request_with(request, answers)
    }

    pub fn from_bytes(data: &[u8], offset: usize) -> (r: Result<DnsResponse, DnsError>)
        ensures
            match r {
                Ok(m) => Self::spec_decode(data@, offset as int) == Some(m@),
                Err(e) => Self::spec_decode(data@, offset as int) is None && e
                    == spec_message_error(data@, offset as int, false),
            },
    {
        match decode_message(data, offset, false) {
            Ok((header, question, answers)) => Ok(DnsResponse { header, question, answers }),
            Err(e) => Err(e),
        }
    }

    pub fn to_bytes(&self) -> (r: Result<Vec<u8>, DnsError>)
        ensures
            match r {
                Ok(v) => self@.spec_encode() == Some(v@),
                Err(e) => self@.spec_encode() is None && e is SerializationError,
            },
    {
        encode_message(&self.header, &self.question, &self.answers)
    }
}

/// Decodes header, question and the records that the header counts: additional records
/// where `use_additional`, else answers.
fn decode_message(data: &[u8], offset: usize, use_additional: bool) -> (r: Result<
    (DnsHeader, DnsQuestion, Option<Vec<DnsResourceRecord>>),
    DnsError,
>)
    ensures
        match r {
            Ok((h, q, rs)) => spec_decode_message(data@, offset as int, use_additional) == Some(
                (h, q@, opt_records_view(rs)),
            ),
            Err(e) => spec_decode_message(data@, offset as int, use_additional) is None && e
                == spec_message_error(data@, offset as int, use_additional),
        },
{
    let total = data.len();
    let header = match DnsHeader::from_bytes(data, offset) {
        Ok(h) => h,
        Err(e) => {
            return Err(e);
        },
    };
    let (question, used) = match DnsQuestion::decode_at(data, offset + 12, None) {
        Ok(r) => r,
        Err(e) => {
            return Err(e);
        },
    };
    let count = if use_additional {
        header.arcount
    } else {
        header.ancount
    };
    if count == 0 {
        return Ok((header, question, None));
    }
    match decode_records(data, offset + 12 + used, count, &question.qname) {
        Ok(rs) => Ok((header, question, Some(rs))),
        Err(e) => Err(e),
    }
}

/// Writes header, question, then the records where there are any.
fn encode_message(
    header: &DnsHeader,
    question: &DnsQuestion,
    records: &Option<Vec<DnsResourceRecord>>,
) -> (r: Result<Vec<u8>, DnsError>)
    ensures
        match r {
            Ok(v) => spec_encode_message(*header, question@, opt_records_view(*records)) == Some(
                v@,
            ),
            Err(e) => spec_encode_message(*header, question@, opt_records_view(*records)) is None
                && e is SerializationError,
        },
{
    let mut data = match header.to_bytes() {
        Ok(d) => d,
        Err(e) => {
            return Err(e);
        },
    };
    let q = match question.to_bytes() {
        Ok(q) => q,
        Err(e) => {
            return Err(e);
        },
    };
    push_all(&mut data, q.as_slice());
    match records {
        Some(rs) => {
            match encode_records(&mut data, rs) {
                Ok(()) => {},
                Err(e) => {
                    return Err(e);
                },
            }
        },
        None => {
            assert(data@ + Seq::<u8>::empty() =~= data@);
        },
    }
    Ok(data)
}

impl DnsPacketData for DnsRequest {
    fn from_bytes(data: &[u8], offset: usize) -> Result<DnsRequest, DnsError> {
        DnsRequest::from_bytes(data, offset)
    }

    fn to_bytes(&self) -> Result<Vec<u8>, DnsError> {
        DnsRequest::to_bytes(self)
    }
}

impl DnsPacketData for DnsResponse {
    fn from_bytes(data: &[u8], offset: usize) -> Result<DnsResponse, DnsError> {
        DnsResponse::from_bytes(data, offset)
    }

    fn to_bytes(&self) -> Result<Vec<u8>, DnsError> {
        DnsResponse::to_bytes(self)
    }
}

impl DnsPacketData for DnsHeader {
    fn from_bytes(data: &[u8], offset: usize) -> Result<DnsHeader, DnsError> {
        DnsHeader::from_bytes(data, offset)
    }

    fn to_bytes(&self) -> Result<Vec<u8>, DnsError> {
        DnsHeader::to_bytes(self)
    }
}

impl DnsPacketData for DnsFlags {
    fn from_bytes(data: &[u8], offset: usize) -> Result<DnsFlags, DnsError> {
        DnsFlags::from_bytes(data, offset)
    }

    fn to_bytes(&self) -> Result<Vec<u8>, DnsError> {
        DnsFlags::to_bytes(self)
    }
}

impl DnsPacketData for DnsQuestion {
    fn from_bytes(data: &[u8], offset: usize) -> Result<DnsQuestion, DnsError> {
        DnsQuestion::from_bytes(data, offset)
    }

    fn to_bytes(&self) -> Result<Vec<u8>, DnsError> {
        DnsQuestion::to_bytes(self)
    }
}

impl DnsPacketData for DnsResourceRecord {
    fn from_bytes(data: &[u8], offset: usize) -> Result<DnsResourceRecord, DnsError> {
        DnsResourceRecord::from_bytes(data, offset)
    }

    fn to_bytes(&self) -> Result<Vec<u8>, DnsError> {
        DnsResourceRecord::to_bytes(self)
    }
}

impl DnsPacketData for DnsName {
    fn from_bytes(data: &[u8], offset: usize) -> Result<DnsName, DnsError> {
        DnsName::from_bytes(data, offset)
    }

    fn to_bytes(&self) -> Result<Vec<u8>, DnsError> {
        DnsName::to_bytes(self)
    }
}

/// The records read back as themselves when written one after another from `pos` in a
/// message whose question's name is `target`; an OPT record comes only last.
pub open spec fn records_fit(rs: Seq<RecordView>, pos: int, target: Option<NameView>) -> bool
    decreases rs.len(),
{
    if rs.len() == 0 {
        true
    } else {
        &&& rs[0].fits_at(pos, target)
        &&& rs[0].rtype == DnsQType::OPT ==> rs.len() == 1
        &&& match rs[0].spec_encode() {
            Some(b) => records_fit(rs.drop_first(), pos + b.len(), target),
            None => false,
        }
    }
}

/// Records that fit where they are written read back as themselves from the end of a buffer.
#[verifier::rlimit(40)]
proof fn lemma_records_read_back(pre: Seq<u8>, rs: Seq<RecordView>, target: Option<NameView>)
    requires
        records_fit(rs, pre.len() as int, target),
    ensures
        spec_encode_records(rs) is Some,
        spec_decode_records(pre + spec_encode_records(rs)->0, pre.len() as int, rs.len(), target)
            == Some(rs),
    decreases rs.len(),
{
    if rs.len() == 0 {
        assert(rs =~= Seq::<RecordView>::empty());
    } else {
        let r = rs[0];
        let rest = rs.drop_first();
        let a = r.spec_encode()->0;
        lemma_records_read_back(pre + a, rest, target);
        let b = spec_encode_records(rest)->0;
        let data = pre + a + b;
        assert(spec_encode_records(rs) == Some(a + b));
        assert(pre + (a + b) =~= data);
        if r.rtype == DnsQType::OPT {
            assert(rest =~= Seq::<RecordView>::empty());
            assert(b =~= Seq::<u8>::empty());
        }
        lemma_record_read_back(pre, r, b, target);
        let tail = spec_decode_records(data, (pre.len() + a.len()) as int, rest.len(), target);
        assert(tail == Some(rest));
        assert(DnsResourceRecord::spec_decode(data, pre.len() as int, target) == Some(
            (r, a.len() as int),
        ));
        assert(seq![r] + rest =~= rs);
        assert(spec_decode_records(data, pre.len() as int, rs.len(), target) == Some(rs));
    }
}

/// The header, question and records of a message that read back as themselves from its
/// wire bytes, where `count` is the header's count of those records.
pub open spec fn message_valid(
    header: DnsHeader,
    question: QuestionView,
    records: Option<Seq<RecordView>>,
    count: u16,
) -> bool {
    &&& header.flags.is_canonical()
    &&& question.fits_at(12)
    &&& match records {
        None => count == 0,
        Some(rs) => {
            &&& rs.len() == count
            &&& count > 0
            &&& records_fit(rs, 12 + question.qname.spec_length() + 4int, Some(question.qname))
        },
    }
}

impl RequestView {
    /// The request reads back as itself from its wire bytes.
    pub open spec fn is_valid(self) -> bool {
        message_valid(self.header, self.question, self.additional, self.header.arcount)
    }
}

impl ResponseView {
    /// The response reads back as itself from its wire bytes.
    pub open spec fn is_valid(self) -> bool {
        message_valid(self.header, self.question, self.answers, self.header.ancount)
    }
}

proof fn lemma_message_round_trip(
    header: DnsHeader,
    question: QuestionView,
    records: Option<Seq<RecordView>>,
    use_additional: bool,
)
    requires
        message_valid(
            header,
            question,
            records,
            if use_additional {
                header.arcount
            } else {
                header.ancount
            },
        ),
    ensures
        spec_encode_message(header, question, records) is Some,
        spec_decode_message(spec_encode_message(header, question, records)->0, 0, use_additional)
            == Some((header, question, records)),
{
    lemma_header_round_trip(header);
    let h = header.spec_encode()->0;
    lemma_question_read_back(h, question, Seq::empty());
    let q = question.spec_encode()->0;
    assert(h + q + Seq::<u8>::empty() =~= h + q);
    let rb = match records {
        Some(rs) => {
            lemma_records_read_back(h + q, rs, Some(question.qname));
            spec_encode_records(rs)->0
        },
        None => Seq::empty(),
    };
    let data = h + q + rb;
    assert(spec_encode_message(header, question, records) == Some(data));
    assert forall|k: int| 0 <= k < 12 implies data[k] == h[k] by {}
    assert(DnsHeader::spec_decode(data, 0) == DnsHeader::spec_decode(h, 0));
    lemma_question_read_back(h, question, rb);
    assert(DnsQuestion::spec_decode(data, 12, None) == Some((question, q.len() as int)));
}

/// A valid request reads back as itself from the bytes it is written as, and those bytes
/// are written again from what is read.
pub proof fn lemma_request_round_trip(m: RequestView)
    requires
        m.is_valid(),
    ensures
        m.spec_encode() is Some,
        DnsRequest::spec_decode(m.spec_encode()->0, 0) == Some(m),
        DnsRequest::spec_decode(m.spec_encode()->0, 0)->0.spec_encode() == m.spec_encode(),
{
    lemma_message_round_trip(m.header, m.question, m.additional, true);
}

/// A valid response reads back as itself from the bytes it is written as, and those bytes
/// are written again from what is read.
pub proof fn lemma_response_round_trip(m: ResponseView)
    requires
        m.is_valid(),
    ensures
        m.spec_encode() is Some,
        DnsResponse::spec_decode(m.spec_encode()->0, 0) == Some(m),
        DnsResponse::spec_decode(m.spec_encode()->0, 0)->0.spec_encode() == m.spec_encode(),
{
    lemma_message_round_trip(m.header, m.question, m.answers, false);
}

} // verus!
