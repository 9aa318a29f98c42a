//! Decoding and encoding of protocol lines.

use pdns_remote::{
    decode_query, decode_reply, encode_reply, DecodeError, DirectBackendCmdParams,
    GetAllDomainsParams, GetDomainInfoParams, InitializeParams, InitializeReply, ListParams,
    LookupParams, LookupReply, Query, Reply,
};

#[test]
fn deserialize_query_initialize_wo_timeout() {
    let query_json = r#"{"method":"initialize", "parameters":{"path":"/path/to/socket"}}"#;

    let query_from_json = decode_query(query_json.as_bytes()).unwrap();

    let init = InitializeParams {
        path: "/path/to/socket".as_bytes().to_vec(),
        timeout: None,
    };

    let query = Query::Initialize(init);

    assert_eq!(query, query_from_json);
}

#[test]
fn deserialize_query_initialize_w_timeout() {
    let query_json =
        r#"{"method":"initialize", "parameters":{"path":"/path/to/socket", "timeout":"2000"}}"#;

    let query_from_json = decode_query(query_json.as_bytes()).unwrap();

    let init = InitializeParams {
        path: "/path/to/socket".as_bytes().to_vec(),
        timeout: Some("2000".as_bytes().to_vec()),
    };

    let query = Query::Initialize(init);

    assert_eq!(query, query_from_json);
}

#[test]
fn deserialize_query_lookup() {
    let query_json = r#"{"method":"lookup", "parameters":{"qtype":"ANY", "qname":"www.example.com.", "remote":"192.0.2.24", "local":"192.0.2.1", "real-remote":"192.0.2.24", "zone-id":-1}}"#;

    let query_from_json = decode_query(query_json.as_bytes()).unwrap();

    let lookup = LookupParams {
        qtype: "ANY".as_bytes().to_vec(),
        qname: "www.example.com.".as_bytes().to_vec(),
        zone_id: -1,
        remote: Some("192.0.2.24".as_bytes().to_vec()),
        local: Some("192.0.2.1".as_bytes().to_vec()),
        real_remote: Some("192.0.2.24".as_bytes().to_vec()),
    };

    let query = Query::Lookup(lookup);

    assert_eq!(query, query_from_json);
}

#[test]
fn reply_deserialize_response_result_true() {
    let response_json = r#"{"result":true}"#;

    let response_from_json = decode_reply(response_json.as_bytes()).unwrap();

    let response = Reply::Initialize(InitializeReply { result: true });

    assert_eq!(response, response_from_json);
}

#[test]
fn reply_deserialize_response_result_false() {
    let response_json = r#"{"result":false}"#;

    let response_from_json = decode_reply(response_json.as_bytes()).unwrap();

    let response = Reply::Initialize(InitializeReply { result: false });

    assert_eq!(response, response_from_json);
}

#[test]
fn deserialize_query_list() {
    let line = r#"{"method":"list","parameters":{"zonename":"example.com.","domain-id":-1}}"#;
    let expected = Query::List(ListParams {
        zonename: "example.com.".as_bytes().to_vec(),
        domain_id: Some(-1),
    });
    assert_eq!(decode_query(line.as_bytes()).unwrap(), expected);
}

#[test]
fn deserialize_query_list_wo_domain_id() {
    let line = r#"{"method":"list","parameters":{"zonename":"example.com."}}"#;
    let expected = Query::List(ListParams {
        zonename: "example.com.".as_bytes().to_vec(),
        domain_id: None,
    });
    assert_eq!(decode_query(line.as_bytes()).unwrap(), expected);
}

#[test]
fn deserialize_query_get_domain_info() {
    let line = r#"{"method":"getDomainInfo","parameters":{"name":"example.com."}}"#;
    let expected = Query::GetDomainInfo(GetDomainInfoParams {
        name: "example.com.".as_bytes().to_vec(),
    });
    assert_eq!(decode_query(line.as_bytes()).unwrap(), expected);
}

#[test]
fn deserialize_query_direct_backend_cmd() {
    let line = r#"{"method":"directBackendCmd","parameters":{"query":"SHOW STATUS"}}"#;
    let expected = Query::DirectBackendCmd(DirectBackendCmdParams {
        query: "SHOW STATUS".as_bytes().to_vec(),
    });
    assert_eq!(decode_query(line.as_bytes()).unwrap(), expected);
}

#[test]
fn deserialize_query_get_all_domains() {
    let line = r#"{"method":"getAllDomains","parameters":{"include_disabled":true}}"#;
    let expected = Query::GetAllDomains(GetAllDomainsParams {
        include_disabled: true,
    });
    assert_eq!(decode_query(line.as_bytes()).unwrap(), expected);
}

#[test]
fn deserialize_query_order_and_extra_fields() {
    // `parameters` may come first, and unknown parameter fields are ignored.
    let line = r#"{"parameters":{"extra":[1,2,{"x":null}],"path":"/s"},"method":"initialize"}"#;
    let expected = Query::Initialize(InitializeParams {
        path: "/s".as_bytes().to_vec(),
        timeout: None,
    });
    assert_eq!(decode_query(line.as_bytes()).unwrap(), expected);
}

#[test]
fn decode_error_syntax() {
    assert_eq!(
        decode_query(b"this is not json"),
        Err(DecodeError::Syntax)
    );
    assert_eq!(decode_query(b""), Err(DecodeError::Syntax));
    assert_eq!(
        decode_query(br#"{"method":"lookup", "parameters":"#),
        Err(DecodeError::Syntax)
    );
}

#[test]
fn decode_error_envelope() {
    // Not an object.
    assert_eq!(decode_query(b"[1,2,3]"), Err(DecodeError::Envelope));
    // No parameters member.
    assert_eq!(
        decode_query(br#"{"method":"lookup"}"#),
        Err(DecodeError::Envelope)
    );
    // An extra top-level member.
    assert_eq!(
        decode_query(br#"{"method":"list","parameters":{"zonename":"a"},"x":1}"#),
        Err(DecodeError::Envelope)
    );
    // The method is no string.
    assert_eq!(
        decode_query(br#"{"method":7,"parameters":{}}"#),
        Err(DecodeError::Envelope)
    );
}

#[test]
fn decode_error_unknown_method() {
    assert_eq!(
        decode_query(br#"{"method":"shutdown","parameters":{}}"#),
        Err(DecodeError::UnknownMethod)
    );
    // Method names are case-sensitive.
    assert_eq!(
        decode_query(br#"{"method":"Initialize","parameters":{"path":"/s"}}"#),
        Err(DecodeError::UnknownMethod)
    );
}

#[test]
fn decode_error_parameters() {
    // Missing required field.
    assert_eq!(
        decode_query(br#"{"method":"initialize","parameters":{}}"#),
        Err(DecodeError::Parameters)
    );
    // Wrong type for a required field.
    assert_eq!(
        decode_query(br#"{"method":"initialize","parameters":{"path":5}}"#),
        Err(DecodeError::Parameters)
    );
    // Repeated field.
    assert_eq!(
        decode_query(br#"{"method":"initialize","parameters":{"path":"/a","path":"/b"}}"#),
        Err(DecodeError::Parameters)
    );
    // zone-id must be an integer.
    assert_eq!(
        decode_query(
            br#"{"method":"lookup","parameters":{"qtype":"A","qname":"x.","zone-id":"-1"}}"#
        ),
        Err(DecodeError::Parameters)
    );
    // Parameters is no object.
    assert_eq!(
        decode_query(br#"{"method":"list","parameters":17}"#),
        Err(DecodeError::Parameters)
    );
}

#[test]
fn encode_reply_lines() {
    assert_eq!(
        encode_reply(&Reply::Initialize(InitializeReply { result: true })),
        b"{\"result\":true}\n".to_vec()
    );
    assert_eq!(
        encode_reply(&Reply::Initialize(InitializeReply { result: false })),
        b"{\"result\":false}\n".to_vec()
    );
    assert_eq!(
        encode_reply(&Reply::List()),
        b"{\"result\":false}\n".to_vec()
    );
    assert_eq!(
        encode_reply(&Reply::GetAllDomains()),
        b"{\"result\":false}\n".to_vec()
    );
    assert_eq!(
        encode_reply(&Reply::Lookup(LookupReply {
            result: b"a record".to_vec()
        })),
        b"{\"result\":\"a record\"}\n".to_vec()
    );
}

#[test]
fn encode_reply_escapes_lookup_payload() {
    let reply = Reply::Lookup(LookupReply {
        result: b"a\"b\\c\nd".to_vec(),
    });
    assert_eq!(
        encode_reply(&reply),
        b"{\"result\":\"a\\\"b\\\\c\\u000ad\"}\n".to_vec()
    );
}

#[test]
fn reply_round_trip() {
    let encoded = encode_reply(&Reply::Initialize(InitializeReply { result: true }));
    assert_eq!(
        decode_reply(&encoded).unwrap(),
        Reply::Initialize(InitializeReply { result: true })
    );
    let looked_up = encode_reply(&Reply::Lookup(LookupReply {
        result: b"x\"y".to_vec(),
    }));
    assert_eq!(
        decode_reply(&looked_up).unwrap(),
        Reply::Lookup(LookupReply {
            result: b"x\"y".to_vec()
        })
    );
}

#[test]
fn every_default_reply_is_one_json_line() {
    // For each method: decode a well-formed request, then check that the
    // reply line is minified JSON that a separate parser accepts, ending in
    // exactly one newline.
    let lines: [&[u8]; 6] = [
        br#"{"method":"initialize","parameters":{"path":"/s","timeout":"2000"}}"#,
        br#"{"method":"lookup","parameters":{"qtype":"ANY","qname":"www.example.com.","zone-id":-1}}"#,
        br#"{"method":"list","parameters":{"zonename":"example.com."}}"#,
        br#"{"method":"getDomainInfo","parameters":{"name":"example.com."}}"#,
        br#"{"method":"directBackendCmd","parameters":{"query":"SHOW"}}"#,
        br#"{"method":"getAllDomains","parameters":{"include_disabled":false}}"#,
    ];
    for line in lines {
        assert!(decode_query(line).is_ok());
        let out = pdns_remote::respond(line);
        assert_eq!(out.last(), Some(&b'\n'));
        let body = &out[..out.len() - 1];
        assert!(!body.contains(&b'\n'));
        let parsed: Result<serde_json::Value, _> = serde_json::from_slice(body);
        assert!(parsed.is_ok());
    }
}

#[test]
fn parser_agrees_with_reference_on_samples() {
    // Lines my parser accepts must be valid JSON by the reference parser,
    // and rejected lines invalid, over a spread of shapes.
    let samples: [&[u8]; 14] = [
        br#"{"a":1}"#,
        br#"  [1, -2.5e3, "x\u0041\ud83d\ude00", {"y":[]}, null, true]  "#,
        br#""lone string""#,
        br#"12345678901234567890123456789"#,
        b"-0",
        b"01",
        b"{\"a\":1,}",
        b"[1 2]",
        br#""bad \q escape""#,
        br#""unterminated"#,
        b"tru",
        b"",
        br#"{"a"}"#,
        br#"[{"deep":[{"deeper":{"most":[0]}}]}]"#,
    ];
    for s in samples {
        let mine = pdns_remote::parse_json(s).is_some();
        let reference: Result<serde_json::Value, _> = serde_json::from_slice(s);
        assert_eq!(mine, reference.is_ok(), "disagree on {:?}", s);
    }
}
