use mycelnet_dns_protocol::{
    DnsClass, DnsError, DnsFlags, DnsHeader, DnsName, DnsOpcode, DnsPart, DnsQType,
    DnsQuestion, DnsRcode, DnsRequest, DnsResourceRecord, DnsResponse,
};

fn request_bytes() -> Vec<u8> {
    vec![
        0x41, 0x46, 0x01, 0x20, 0x00, 0x01, 0x00, 0x00, 0x00, 0x00, 0x00, 0x01, 0x08, 0x6d, 0x79,
        0x63, 0x65, 0x6c, 0x6e, 0x65, 0x74, 0x04, 0x74, 0x65, 0x63, 0x68, 0x00, 0x00, 0x01, 0x00,
        0x01, 0x00, 0x00, 0x29, 0x04, 0xd0, 0x00, 0x00, 0x00, 0x00, 0x00, 0x0c, 0x00, 0x0a, 0x00,
        0x08, 0x31, 0xb9, 0xb2, 0x38, 0x01, 0xba, 0x1a, 0xfe,
    ]
}

fn response_bytes() -> Vec<u8> {
    vec![
        0x44, 0x6f, 0x81, 0x80, 0x00, 0x01, 0x00, 0x02, 0x00, 0x00, 0x00, 0x01, 0x08, 0x6d, 0x79,
        0x63, 0x65, 0x6c, 0x6e, 0x65, 0x74, 0x04, 0x74, 0x65, 0x63, 0x68, 0x00, 0x00, 0x01, 0x00,
        0x01, 0xc0, 0x0c, 0x00, 0x01, 0x00, 0x01, 0x00, 0x00, 0x00, 0x1e, 0x00, 0x04, 0x68, 0x15,
        0x23, 0x92, 0xc0, 0x0c, 0x00, 0x01, 0x00, 0x01, 0x00, 0x00, 0x00, 0x1e, 0x00, 0x04, 0xac,
        0x43, 0xb0, 0xb6,
    ]
}

fn labels(names: &[&str]) -> Vec<String> {
    names.iter().map(|s| s.to_string()).collect()
}

#[test]
fn scenario_request_opt_record_kept_verbatim() {
    let data = request_bytes();
    let request = DnsRequest::from_bytes(&data, 0).unwrap();
    assert_eq!(request.question.qname.offset, 12);
    assert_eq!(request.question.qname.pointer, 0);
    let additional = request.additional.as_ref().unwrap();
    assert_eq!(additional.len(), 1);
    let opt = &additional[0];
    assert_eq!(opt.rtype, DnsQType::OPT);
    assert_eq!(opt.name.labels.len(), 0);
    assert_eq!(opt.name.offset, 31);
    assert_eq!(opt.rdlength, 20);
    assert_eq!(opt.rdata, data[34..].to_vec());
    assert_eq!(request.to_bytes().unwrap(), data);
}

#[test]
fn scenario_response_compressed_answers() {
    let data = response_bytes();
    let response = DnsResponse::from_bytes(&data, 0).unwrap();
    let answers = response.answers.as_ref().unwrap();
    assert_eq!(answers.len(), 2);
    for (answer, address) in answers.iter().zip([[0x68, 0x15, 0x23, 0x92], [0xac, 0x43, 0xb0, 0xb6]]) {
        assert_eq!(answer.name.pointer, 12);
        assert_eq!(answer.name.offset, 12);
        assert_eq!(answer.name.labels, labels(&["mycelnet", "tech"]));
        assert_eq!(answer.name.length(), 2);
        assert_eq!(answer.rtype, DnsQType::A);
        assert_eq!(answer.rclass, DnsClass::IN);
        assert_eq!(answer.ttl, 30);
        assert_eq!(answer.rdlength, 4);
        assert_eq!(answer.rdata, address.to_vec());
    }
    assert_eq!(response.to_bytes().unwrap(), data);
}

#[test]
fn scenario_flags_only() {
    let flags = DnsFlags::from_bytes(&[0x81, 0x80], 0).unwrap();
    assert_eq!(flags.qr, 1);
    assert_eq!(flags.opcode, DnsOpcode::Query);
    assert_eq!(flags.rd, 1);
    assert_eq!(flags.ra, 1);
    assert_eq!(flags.rcode, DnsRcode::NoError);
    assert_eq!(flags.to_bytes().unwrap(), vec![0x81, 0x80]);
}

#[test]
fn flags_every_field_unpacked() {
    // qr=1, opcode=5, aa=1, tc=0, rd=1 ; ra=0, z=1, ad=1, cd=0, rcode=3
    let flags = DnsFlags::from_bytes(&[0xad, 0x63], 0).unwrap();
    assert_eq!(flags.qr, 1);
    assert_eq!(flags.opcode, DnsOpcode::Update);
    assert_eq!(flags.aa, 1);
    assert_eq!(flags.tc, 0);
    assert_eq!(flags.rd, 1);
    assert_eq!(flags.ra, 0);
    assert_eq!(flags.z, 1);
    assert_eq!(flags.ad, 1);
    assert_eq!(flags.cd, 0);
    assert_eq!(flags.rcode, DnsRcode::NameError);
    // z is always written as zero
    assert_eq!(flags.to_bytes().unwrap(), vec![0xad, 0x23]);
}

#[test]
fn flags_out_of_range_bit_cannot_be_written() {
    let mut flags = DnsFlags::default();
    flags.qr = 2;
    assert_eq!(
        flags.to_bytes(),
        Err(DnsError::SerializationError { part: DnsPart::Flags })
    );
    let mut flags = DnsFlags::default();
    flags.rcode = DnsRcode::BadOptVersion;
    assert!(flags.to_bytes().is_err());
}

#[test]
fn flags_default_is_recursive_query() {
    let flags = DnsFlags::default();
    assert_eq!(flags.to_bytes().unwrap(), vec![0x01, 0x00]);
}

#[test]
fn header_reads_at_offset_and_round_trips() {
    let mut data = vec![0xff, 0xff, 0xff];
    data.extend_from_slice(&response_bytes()[..12]);
    let header = DnsHeader::from_bytes(&data, 3).unwrap();
    assert_eq!(header.id, 17519);
    assert_eq!(header.flags.qr, 1);
    assert_eq!(header.flags.ra, 1);
    assert_eq!(header.ancount, 2);
    assert_eq!(header.arcount, 1);
    assert_eq!(header.to_bytes().unwrap(), data[3..].to_vec());
}

#[test]
fn header_truncated_is_format_error() {
    let data = response_bytes();
    assert_eq!(
        DnsHeader::from_bytes(&data[..11], 0),
        Err(DnsError::FormatError { part: DnsPart::Header, offset: 0 })
    );
    assert!(DnsHeader::from_bytes(&data[..12], 1).is_err());
    assert!(DnsHeader::from_bytes(&data, usize::MAX).is_err());
}

#[test]
fn message_truncated_header_is_format_error() {
    let data = request_bytes();
    assert_eq!(
        DnsRequest::from_bytes(&data[..5], 0).unwrap_err(),
        DnsError::FormatError { part: DnsPart::Header, offset: 0 }
    );
    assert_eq!(
        DnsResponse::from_bytes(&data, 50).unwrap_err(),
        DnsError::FormatError { part: DnsPart::Header, offset: 50 }
    );
    // the header promises one additional record that is not there
    assert!(DnsRequest::from_bytes(&data[..31], 0).is_err());
}

#[test]
fn pointer_to_question_resolves() {
    let data = response_bytes();
    let name = DnsName::from_bytes(&data, 31).unwrap();
    assert_eq!(name.labels, labels(&["mycelnet", "tech"]));
    assert_eq!(name.pointer, 12);
    assert_eq!(name.to_bytes().unwrap(), vec![0xc0, 0x0c]);
}

#[test]
fn pointer_to_other_offset_is_format_error() {
    let mut data = response_bytes();
    data[32] = 0x0d;
    assert_eq!(
        DnsName::from_bytes(&data, 31).unwrap_err(),
        DnsError::FormatError { part: DnsPart::Name, offset: 31 }
    );
    assert!(DnsResponse::from_bytes(&data, 0).is_err());
}

#[test]
fn pointer_byte_never_starts_a_label() {
    // 0xC0..=0xFF starts a pointer: with these bytes the pointer is 0x3f0c, which names
    // no recorded name, so it fails instead of reading a 255-byte label.
    let mut data = response_bytes();
    data[31] = 0xff;
    assert!(DnsName::from_bytes(&data, 31).is_err());
    // 0x40..=0xBF is neither a label length nor a pointer.
    let odd = [0x40, 0x61, 0x00];
    assert!(DnsName::from_bytes(&odd, 0).is_err());
    let odd = [0x80, 0x61, 0x00];
    assert!(DnsName::from_bytes(&odd, 0).is_err());
}

#[test]
fn name_truncated_is_format_error() {
    let data = [0x03, 0x77, 0x77];
    assert!(DnsName::from_bytes(&data, 0).is_err());
    let data = [0x03, 0x77, 0x77, 0x77];
    assert!(DnsName::from_bytes(&data, 0).is_err());
    assert!(DnsName::from_bytes(&[], 0).is_err());
}

#[test]
fn name_invalid_utf8_label_becomes_empty() {
    let data = [0x02, 0xff, 0xfe, 0x01, 0x61, 0x00];
    let name = DnsName::from_bytes(&data, 0).unwrap();
    assert_eq!(name.labels, labels(&["", "a"]));
    // an empty label cannot be written back
    assert_eq!(
        name.to_bytes(),
        Err(DnsError::SerializationError { part: DnsPart::Name })
    );
}

#[test]
fn name_utf8_label_kept() {
    let data = [0x02, 0xc3, 0xa9, 0x00];
    let name = DnsName::from_bytes(&data, 0).unwrap();
    assert_eq!(name.labels, labels(&["\u{e9}"]));
    assert_eq!(name.length(), 4);
    assert_eq!(name.to_bytes().unwrap(), data.to_vec());
}

#[test]
fn name_length_and_count() {
    let name = DnsName { labels: labels(&["mycelnet", "tech"]), offset: 0, pointer: 0 };
    assert_eq!(name.count(), 2);
    assert_eq!(name.length(), 15);
    let root = DnsName { labels: vec![], offset: 0, pointer: 0 };
    assert_eq!(root.length(), 1);
    assert_eq!(root.to_bytes().unwrap(), vec![0]);
    let pointer = DnsName { labels: labels(&["a"]), offset: 12, pointer: 12 };
    assert_eq!(pointer.length(), 2);
}

#[test]
fn name_label_too_long_or_pointer_too_wide() {
    let long = DnsName { labels: vec!["x".repeat(64)], offset: 0, pointer: 0 };
    assert!(long.to_bytes().is_err());
    let max = DnsName { labels: vec!["x".repeat(63)], offset: 0, pointer: 0 };
    assert_eq!(max.to_bytes().unwrap().len(), 65);
    let wide = DnsName { labels: vec![], offset: 0, pointer: 0x4000 };
    assert!(wide.to_bytes().is_err());
    let widest = DnsName { labels: vec![], offset: 0, pointer: 0x3fff };
    assert_eq!(widest.to_bytes().unwrap(), vec![0xff, 0xff]);
}

#[test]
fn question_round_trip_at_offset() {
    let data = request_bytes();
    let question = DnsQuestion::from_bytes(&data, 12).unwrap();
    assert_eq!(question.qname.offset, 12);
    assert_eq!(question.to_bytes().unwrap(), data[12..31].to_vec());
    assert_eq!(
        DnsQuestion::from_bytes(&data[..30], 12).unwrap_err(),
        DnsError::FormatError { part: DnsPart::Question, offset: 12 }
    );
    assert_eq!(
        DnsQuestion::from_bytes(&data[..20], 12).unwrap_err(),
        DnsError::FormatError { part: DnsPart::Name, offset: 12 }
    );
}

#[test]
fn record_truncated_rdata_is_format_error() {
    let data = response_bytes();
    assert!(DnsResponse::from_bytes(&data[..data.len() - 1], 0).is_err());
    let record = DnsResourceRecord::from_bytes(&data, 31).unwrap();
    assert_eq!(record.ttl, 30);
    assert_eq!(record.rdata, vec![0x68, 0x15, 0x23, 0x92]);
    assert_eq!(
        DnsResourceRecord::from_bytes(&data[..46], 31).unwrap_err(),
        DnsError::FormatError { part: DnsPart::Record, offset: 31 }
    );
}

#[test]
fn record_length_mismatch_cannot_be_written() {
    let mut record = DnsResourceRecord::default();
    assert_eq!(record.ttl, 300);
    record.rdata = vec![1, 2, 3];
    assert_eq!(
        record.to_bytes(),
        Err(DnsError::SerializationError { part: DnsPart::Record })
    );
    record.rdlength = 3;
    assert_eq!(
        record.to_bytes().unwrap(),
        vec![0, 0, 1, 0, 1, 0, 0, 1, 0x2c, 0, 3, 1, 2, 3]
    );
}

#[test]
fn response_from_request_loopback_answer() {
    let request = DnsRequest::from_bytes(&request_bytes(), 0).unwrap();
    let response = DnsResponse::from_request(&request);
    assert_eq!(response.header.id, 16710);
    assert_eq!(response.header.flags.qr, 1);
    assert_eq!(response.header.flags.rd, 1);
    assert_eq!(response.header.flags.ra, 1);
    assert_eq!(response.header.flags.ad, 0);
    assert_eq!(response.header.qdcount, 1);
    assert_eq!(response.header.ancount, 1);
    assert_eq!(response.header.nscount, 0);
    assert_eq!(response.header.arcount, 0);
    assert_eq!(response.question.qname.labels, labels(&["mycelnet", "tech"]));
    let answers = response.answers.as_ref().unwrap();
    assert_eq!(answers.len(), 1);
    assert_eq!(answers[0].rtype, DnsQType::A);
    assert_eq!(answers[0].ttl, 300);
    assert_eq!(answers[0].rdata, vec![127, 0, 0, 1]);
    let bytes = response.to_bytes().unwrap();
    let expected: Vec<u8> = [
        vec![0x41, 0x46, 0x81, 0x80, 0, 1, 0, 1, 0, 0, 0, 0],
        request_bytes()[12..31].to_vec(),
        request_bytes()[12..27].to_vec(),
        vec![0, 1, 0, 1, 0, 0, 1, 0x2c, 0, 4, 127, 0, 0, 1],
    ]
    .concat();
    assert_eq!(bytes, expected);
    let again = DnsResponse::from_bytes(&bytes, 0).unwrap();
    assert_eq!(again.answers.unwrap()[0].rdata, vec![127, 0, 0, 1]);
}

#[test]
fn response_with_no_answers() {
    let request = DnsRequest::from_bytes(&request_bytes(), 0).unwrap();
    let response = DnsResponse::from_request_with(&request, Vec::new());
    assert_eq!(response.header.ancount, 0);
    assert!(response.answers.is_none());
    let empty = DnsResponse::new();
    assert_eq!(empty.header.flags.rd, 1);
    assert!(empty.answers.is_none());
}

#[test]
fn opcode_codes_total() {
    for n in 0..=6u8 {
        assert_eq!(DnsOpcode::from_u8(n).to_u8(), n);
    }
    assert_eq!(DnsOpcode::from_u8(9), DnsOpcode::Unassigned);
    assert_eq!(DnsOpcode::Unassigned.to_u8(), 7);
}

#[test]
fn rcode_codes_total() {
    for n in 0..=10u8 {
        assert_eq!(DnsRcode::from_u8(n).to_u8(), n);
    }
    assert_eq!(DnsRcode::from_u8(11), DnsRcode::Unassigned);
    assert_eq!(DnsRcode::from_u8(0x1a), DnsRcode::NotZone);
    for n in (0..=10u16).chain(16..=22) {
        assert_eq!(DnsRcode::from_u16(n).to_u16(), n);
    }
    assert_eq!(DnsRcode::from_u16(16), DnsRcode::BadSignature);
    assert_eq!(DnsRcode::from_u16(15), DnsRcode::Unassigned);
    assert_eq!(DnsRcode::from_u16(3840), DnsRcode::Unassigned);
    assert_eq!(DnsRcode::from_u16(3841), DnsRcode::Reserved);
    assert_eq!(DnsRcode::from_u16(4095), DnsRcode::Reserved);
    assert_eq!(DnsRcode::from_u16(4096), DnsRcode::Unassigned);
    assert_eq!(DnsRcode::from_u16(65534), DnsRcode::Unassigned);
    assert_eq!(DnsRcode::from_u16(65535), DnsRcode::Reserved);
    assert_eq!(DnsRcode::BadOptVersion.to_u8(), 16);
}

#[test]
fn qtype_codes_total() {
    for n in 0..=u16::MAX {
        let t = DnsQType::from_u16(n);
        if t != DnsQType::Unassigned {
            assert_eq!(t.to_u16(), n);
        }
    }
    assert_eq!(DnsQType::from_u16(41), DnsQType::OPT);
    assert_eq!(DnsQType::from_u16(54), DnsQType::Unassigned);
    assert_eq!(DnsQType::from_u16(32769), DnsQType::DLV);
    assert_eq!(DnsQType::AAAA.to_u16(), 28);
}

#[test]
fn class_codes_total() {
    for n in 0..=u16::MAX {
        let c = DnsClass::from_u16(n);
        if c != DnsClass::Unassigned && c != DnsClass::Reserved {
            assert_eq!(c.to_u16(), n);
        }
    }
    assert_eq!(DnsClass::from_u16(0), DnsClass::Reserved);
    assert_eq!(DnsClass::from_u16(300), DnsClass::Unassigned);
    assert_eq!(DnsClass::from_u16(65280), DnsClass::Reserved);
    assert_eq!(DnsClass::from_u16(65535), DnsClass::Reserved);
    assert_eq!(DnsClass::from_u16(255), DnsClass::ANY);
}

#[test]
fn constructed_response_round_trips() {
    let question = DnsQuestion {
        qname: DnsName { labels: labels(&["example", "org"]), offset: 12, pointer: 0 },
        qtype: DnsQType::AAAA,
        qclass: DnsClass::CH,
    };
    let answer = DnsResourceRecord {
        name: DnsName { labels: labels(&["example", "org"]), offset: 12, pointer: 12 },
        rtype: DnsQType::TXT,
        rclass: DnsClass::IN,
        ttl: 0x01020304,
        rdlength: 3,
        rdata: vec![2, 0x68, 0x69],
    };
    let mut header = DnsHeader::default();
    header.id = 0xbeef;
    header.flags.qr = 1;
    header.flags.aa = 1;
    header.flags.rcode = DnsRcode::NXRRSet;
    header.qdcount = 1;
    header.ancount = 1;
    let response = DnsResponse { header, question, answers: Some(vec![answer]) };
    let bytes = response.to_bytes().unwrap();
    assert_eq!(bytes.len(), 12 + 17 + 2 + 10 + 3);
    assert_eq!(&bytes[..4], &[0xbe, 0xef, 0x85, 0x08]);
    assert_eq!(&bytes[29..31], &[0xc0, 0x0c]);
    let back = DnsResponse::from_bytes(&bytes, 0).unwrap();
    assert_eq!(back.header, response.header);
    assert_eq!(back.question.qname.labels, response.question.qname.labels);
    assert_eq!(back.question.qname.offset, 12);
    assert_eq!(back.question.qtype, DnsQType::AAAA);
    assert_eq!(back.question.qclass, DnsClass::CH);
    let got = &back.answers.as_ref().unwrap()[0];
    assert_eq!(got.name.labels, labels(&["example", "org"]));
    assert_eq!(got.name.pointer, 12);
    assert_eq!(got.rtype, DnsQType::TXT);
    assert_eq!(got.ttl, 0x01020304);
    assert_eq!(got.rdata, vec![2, 0x68, 0x69]);
    assert_eq!(back.to_bytes().unwrap(), bytes);
}

fn pointer_question_bytes() -> Vec<u8> {
    vec![
        0x12, 0x34, 0x01, 0x00, 0x00, 0x01, 0x00, 0x00, 0x00, 0x00, 0x00, 0x00, // header
        0x01, 0x61, 0x00, 0x00, 0x01, 0x00, 0x01, // question a. A IN at offset 12
        0xc0, 0x0c, 0x00, 0x1c, 0x00, 0x01, // question with a pointer name at offset 19
    ]
}

#[test]
fn question_name_pointer_resolves_like_any_name() {
    let data = pointer_question_bytes();
    let name = DnsName::from_bytes(&data, 19).unwrap();
    assert_eq!(name.labels, labels(&["a"]));
    let question = DnsQuestion::from_bytes(&data, 19).unwrap();
    assert_eq!(question.qname.labels, labels(&["a"]));
    assert_eq!(question.qname.pointer, 12);
    assert_eq!(question.qtype, DnsQType::AAAA);
    assert_eq!(question.qclass, DnsClass::IN);
    assert_eq!(question.to_bytes().unwrap(), data[19..].to_vec());
}

#[test]
fn question_pointer_to_unknown_offset_is_name_error() {
    let mut data = pointer_question_bytes();
    data[20] = 0x0e;
    assert_eq!(
        DnsQuestion::from_bytes(&data, 19).unwrap_err(),
        DnsError::FormatError { part: DnsPart::Name, offset: 19 }
    );
}

#[test]
fn message_error_names_failing_part_and_offset() {
    // question type and class cut off
    let data = request_bytes();
    assert_eq!(
        DnsRequest::from_bytes(&data[..29], 0).unwrap_err(),
        DnsError::FormatError { part: DnsPart::Question, offset: 12 }
    );
    // the additional record promised by arcount is missing
    assert_eq!(
        DnsRequest::from_bytes(&data[..31], 0).unwrap_err(),
        DnsError::FormatError { part: DnsPart::Name, offset: 31 }
    );
    // the second answer's data is cut short
    let data = response_bytes();
    assert_eq!(
        DnsResponse::from_bytes(&data[..data.len() - 1], 0).unwrap_err(),
        DnsError::FormatError { part: DnsPart::Record, offset: 47 }
    );
    // the second answer points at an offset that names no question
    let mut data = response_bytes();
    data[48] = 0x0d;
    assert_eq!(
        DnsResponse::from_bytes(&data, 0).unwrap_err(),
        DnsError::FormatError { part: DnsPart::Name, offset: 47 }
    );
}
