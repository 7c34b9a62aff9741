use mycelnet_dns_protocol::{
    DnsClass, DnsFlags, DnsHeader, DnsName, DnsOpcode, DnsQType, DnsQuestion, DnsRcode,
    DnsRequest, DnsResponse,
};

#[test]
fn decode_request() {
    let data = vec![
        0x41, 0x46, // ID
        0x01, 0x20, // Flags
        0x00, 0x01, // QDCOUNT
        0x00, 0x00, // ANCOUNT
        0x00, 0x00, // NSCOUNT
        0x00, 0x01, // ARCOUNT
        0x08, 0x6d, 0x79, 0x63, 0x65, 0x6c, 0x6e, 0x65, 0x74, 0x04, 0x74, 0x65, 0x63, 0x68,
        0x00, 0x00, 0x01, 0x00, 0x01, // QNAME
        0x00, 0x00, 0x29, 0x04, 0xd0, 0x00, 0x00, 0x00, 0x00, 0x00, 0x0c, 0x00, 0x0a, 0x00,
        0x08, 0x31, 0xb9, 0xb2, 0x38, 0x01, 0xba, 0x1a, 0xfe, // ARs
    ];

    let request = DnsRequest::from_bytes(&data, 0).unwrap_or_else(|e| {
        panic!(
            "Failed to parse DNS request from bytes {:?} at offset {}: {:?}",
            data, 0, e
        )
    });

    assert_eq!(request.header.id, 16710);
    assert_eq!(request.header.flags.qr, 0);
    assert_eq!(request.header.flags.opcode, DnsOpcode::Query);
    assert_eq!(request.header.flags.aa, 0);
    assert_eq!(request.header.flags.tc, 0);
    assert_eq!(request.header.flags.rd, 1);
    assert_eq!(request.header.flags.ra, 0);
    assert_eq!(request.header.flags.z, 0);
    assert_eq!(request.header.flags.ad, 1);
    assert_eq!(request.header.flags.cd, 0);
    assert_eq!(request.header.flags.rcode, DnsRcode::NoError);
    assert_eq!(request.header.qdcount, 1);
    assert_eq!(request.header.ancount, 0);
    assert_eq!(request.header.nscount, 0);
    assert_eq!(request.header.arcount, 1);
    assert_eq!(
        request.question.qname.labels,
        vec!["mycelnet".to_string(), "tech".to_string()]
    );
    assert_eq!(request.question.qtype, DnsQType::A);
    assert_eq!(request.question.qclass, DnsClass::IN);

    let encoded = request.to_bytes().unwrap_or_else(|e| {
        panic!(
            "Failed to serialize DNS request {:?} at offset {}: {:?}",
            request, 0, e
        )
    });
    assert_eq!(data, encoded);
}

#[test]
fn decode_response() {
    let data = vec![
        0x44, 0x6f, // ID
        0x81, 0x80, // Flags
        0x00, 0x01, // QDCOUNT
        0x00, 0x02, // ANCOUNT
        0x00, 0x00, // NSCOUNT
        0x00, 0x01, // ARCOUNT
        0x08, 0x6d, 0x79, 0x63, 0x65, 0x6c, 0x6e, 0x65, 0x74, 0x04, 0x74, 0x65, 0x63, 0x68,
        0x00, // QNAME
        0x00, 0x01, // QTYPE
        0x00, 0x01, // QCLASS
        0xc0, 0x0c, 0x00, 0x01, 0x00, 0x01, 0x00, 0x00, 0x00, 0x1e, 0x00, 0x04, 0x68, 0x15,
        0x23, 0x92, // RRs
        0xc0, 0x0c, 0x00, 0x01, 0x00, 0x01, 0x00, 0x00, 0x00, 0x1e, 0x00, 0x04, 0xac, 0x43,
        0xb0, 0xb6, // RRs
    ];

    let response = DnsResponse::from_bytes(&data, 0).unwrap_or_else(|e| {
        panic!(
            "Failed to parse DNS response from bytes {:?} at offset {}: {:?}",
            data, 0, e
        )
    });

    assert_eq!(response.header.id, 17519);
    assert_eq!(response.header.flags.qr, 1);
    assert_eq!(response.header.flags.opcode, DnsOpcode::Query);
    assert_eq!(response.header.flags.aa, 0);
    assert_eq!(response.header.flags.tc, 0);
    assert_eq!(response.header.flags.rd, 1);
    assert_eq!(response.header.flags.ra, 1);
    assert_eq!(response.header.flags.z, 0);
    assert_eq!(response.header.flags.ad, 0);
    assert_eq!(response.header.flags.cd, 0);
    assert_eq!(response.header.flags.rcode, DnsRcode::NoError);
    assert_eq!(response.header.qdcount, 1);
    assert_eq!(response.header.ancount, 2);
    assert_eq!(response.header.nscount, 0);
    assert_eq!(response.header.arcount, 1);
    assert_eq!(response.question.qtype, DnsQType::A);
    assert_eq!(response.question.qclass, DnsClass::IN);

    assert_eq!(
        response.question.qname.labels,
        vec!["mycelnet".to_string(), "tech".to_string()]
    );

    let encoded = response
        .to_bytes()
        .unwrap_or_else(|e| panic!("Failed to serialize DNS response: {:?}", e));
    assert_eq!(encoded, data);
}

#[test]
fn decode_flags() {
    let data = vec![0x81, 0x80];

    let flags = DnsFlags::from_bytes(&data, 0).unwrap_or_else(|e| {
        panic!(
            "Failed to parse DNS flags from bytes {:?} at offset {}: {:?}",
            data, 0, e
        )
    });

    println!("{:?}", flags);

    assert_eq!(flags.qr, 1);
    assert_eq!(flags.opcode, DnsOpcode::Query);
    assert_eq!(flags.aa, 0);
    assert_eq!(flags.tc, 0);
    assert_eq!(flags.rd, 1);
    assert_eq!(flags.ra, 1);
    assert_eq!(flags.z, 0);
    assert_eq!(flags.ad, 0);
    assert_eq!(flags.cd, 0);
    assert_eq!(flags.rcode, DnsRcode::NoError);
}

#[test]
fn decode_header() {
    let data = vec![
        0x44, 0x6f, // ID
        0x81, 0x80, // Flags
        0x00, 0x01, // QDCOUNT
        0x00, 0x02, // ANCOUNT
        0x00, 0x00, // NSCOUNT
        0x00, 0x01, // ARCOUNT
    ];

    let header = DnsHeader::from_bytes(&data, 0).unwrap_or_else(|e| {
        panic!(
            "Failed to parse DNS header from bytes {:?} at offset {}: {:?}",
            data, 0, e
        )
    });

    assert_eq!(header.id, 17519);
    assert_eq!(header.flags.qr, 1);
    assert_eq!(header.flags.opcode, DnsOpcode::Query);
    assert_eq!(header.flags.aa, 0);
    assert_eq!(header.flags.tc, 0);
    assert_eq!(header.flags.rd, 1);
    assert_eq!(header.flags.ra, 1);
    assert_eq!(header.flags.z, 0);
    assert_eq!(header.flags.ad, 0);
    assert_eq!(header.flags.cd, 0);
    assert_eq!(header.flags.rcode, DnsRcode::NoError);
    assert_eq!(header.qdcount, 1);
    assert_eq!(header.ancount, 2);
    assert_eq!(header.nscount, 0);
    assert_eq!(header.arcount, 1);
}

#[test]
fn decode_question() {
    let data = vec![
        0x08, 0x6d, 0x79, 0x63, 0x65, 0x6c, 0x6e, 0x65, 0x74, 0x04, 0x74, 0x65, 0x63, 0x68,
        0x00, // QNAME
        0x00, 0x01, // QTYPE
        0x00, 0x01, // QCLASS
    ];

    let question = DnsQuestion::from_bytes(&data, 0).unwrap_or_else(|e| {
        panic!(
            "Failed to parse DNS question from bytes {:?} at offset {}: {:?}",
            data, 0, e
        )
    });

    assert_eq!(
        question.qname.labels,
        vec!["mycelnet".to_string(), "tech".to_string()]
    );
    assert_eq!(question.qtype, DnsQType::A);
    assert_eq!(question.qclass, DnsClass::IN);

    let encoded = question
        .to_bytes()
        .unwrap_or_else(|e| panic!("Failed to serialize DNS question: {:?}", e));
    assert_eq!(encoded, data);
}

#[test]
fn decode_qname() {
    let data = [
        0x08, 0x6d, 0x79, 0x63, 0x65, 0x6c, 0x6e, 0x65, 0x74, 0x04, 0x74, 0x65, 0x63, 0x68,
        0x00, // mycelnet.tech
    ];

    let qname = DnsName::from_bytes(&data, 0).unwrap_or_else(|e| {
        panic!(
            "Failed to parse DNS name from bytes {:?} at offset {}: {:?}",
            data, 0, e
        )
    });

    assert_eq!(
        qname.labels,
        vec!["mycelnet".to_string(), "tech".to_string()]
    );

    let encoded = qname
        .to_bytes()
        .unwrap_or_else(|e| panic!("Failed to serialize DNS name: {:?}", e));
    assert_eq!(encoded, data.to_vec());
}
