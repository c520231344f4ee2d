use embedpipe::document::EmbedRequest;
use embedpipe::llama_cpp::LlamaCpp;
use embedpipe::document::Metadata;
use embedpipe::protocol::{
    embed_request_body, fit_to_size, health_status, parse_document_line, parse_embed_response,
    payload_pairs,
};
use embedpipe::status::{status_of_value, Status};

fn line_of(s: &str) -> Vec<u8> {
    s.as_bytes().to_vec()
}

#[test]
fn well_formed_line_yields_one_document() {
    let line = line_of(
        r#"{"page_content":"hi","metadata":{"source":"a","content_type":"text","language":"en"}}"#,
    );
    let parsed = parse_document_line(&line);
    assert!(parsed.is_some());
    let (d, toks) = parsed.unwrap();
    assert_eq!(d.page_content, b"hi".to_vec());
    assert_eq!(d.metadata.source, b"a".to_vec());
    assert_eq!(d.metadata.content_type, b"text".to_vec());
    assert_eq!(d.metadata.language, b"en".to_vec());
    assert!(d.embeddings.is_empty());
    assert!(toks.is_empty());
}

#[test]
fn line_with_whitespace_and_embeddings() {
    let line = line_of(
        " { \"page_content\" : \"doc\" , \"metadata\" : { \"source\" : \"s\" , \"content_type\" : \"t\" , \"language\" : \"l\" } , \"embeddings\" : [ 1.0 , -2e3 , 0.5 ] } ",
    );
    let parsed = parse_document_line(&line);
    assert!(parsed.is_some());
    let (d, toks) = parsed.unwrap();
    assert_eq!(d.page_content, b"doc".to_vec());
    assert_eq!(toks.len(), 3);
    assert_eq!(toks[0], b"1.0".to_vec());
    assert_eq!(toks[1], b"-2e3".to_vec());
    assert_eq!(toks[2], b"0.5".to_vec());
}

#[test]
fn string_escapes_are_decoded() {
    let line = line_of(
        r#"{"page_content":"a\n\"b\"\\","metadata":{"source":"x","content_type":"y","language":"z"}}"#,
    );
    let parsed = parse_document_line(&line);
    assert!(parsed.is_some());
    let (d, _) = parsed.unwrap();
    assert_eq!(d.page_content, b"a\n\"b\"\\".to_vec());
}

#[test]
fn malformed_lines_yield_no_document() {
    let cases = [
        "",
        "not json",
        r#"{"page_content":"hi"}"#,
        r#"{"page_content":"hi","metadata":{"source":"a","content_type":"t"}}"#,
        r#"{"page_content":5,"metadata":{"source":"a","content_type":"t","language":"l"}}"#,
        r#"{"page_content":"hi","metadata":{"source":"a","content_type":"t","language":"l"}"#,
        r#"{"page_content":"hi","metadata":{"source":"a","content_type":"t","language":"l"}} trailing"#,
        r#"{"page_content":"hi","metadata":{"source":"a","content_type":"t","language":"l"},"embeddings":[1,]}"#,
        r#"{"page_content":"hi","metadata":{"source":"a","content_type":"t","language":"l"},"embeddings":[01]}"#,
    ];
    for case in cases {
        assert!(parse_document_line(&line_of(case)).is_none(), "accepted: {case}");
    }
}

#[test]
fn members_accepted_in_any_order() {
    let line = line_of(
        r#"{"metadata":{"language":"en","source":"a","content_type":"text"},"page_content":"hi"}"#,
    );
    let (d, toks) = parse_document_line(&line).expect("reordered members are well formed");
    assert_eq!(d.page_content, b"hi".to_vec());
    assert_eq!(d.metadata.source, b"a".to_vec());
    assert_eq!(d.metadata.content_type, b"text".to_vec());
    assert_eq!(d.metadata.language, b"en".to_vec());
    assert!(toks.is_empty());
}

#[test]
fn unknown_members_are_ignored() {
    let line = line_of(
        r#"{"id":17,"page_content":"hi","extra":{"nested":[1,true,null,"x"],"flag":false},"metadata":{"source":"a","note":"kept elsewhere","content_type":"text","language":"en"},"embeddings":[1.5]}"#,
    );
    let (d, toks) = parse_document_line(&line).expect("unknown members are ignored");
    assert_eq!(d.page_content, b"hi".to_vec());
    assert_eq!(d.metadata.language, b"en".to_vec());
    assert_eq!(toks, vec![b"1.5".to_vec()]);
}

#[test]
fn duplicate_known_members_are_malformed() {
    let cases = [
        r#"{"page_content":"a","page_content":"b","metadata":{"source":"s","content_type":"t","language":"l"}}"#,
        r#"{"page_content":"a","metadata":{"source":"s","source":"s2","content_type":"t","language":"l"}}"#,
        r#"{"page_content":"a","metadata":{"source":"s","content_type":"t","language":"l"},"embeddings":[],"embeddings":[]}"#,
    ];
    for case in cases {
        assert!(parse_document_line(&line_of(case)).is_none(), "accepted: {case}");
    }
}

#[test]
fn unicode_escapes_are_decoded() {
    // a basic code point, a two-byte one, a three-byte one, and a surrogate pair
    let line = line_of(
        r#"{"page_content":"\u0041\u00e9\u20ac\ud83d\ude00","metadata":{"source":"s","content_type":"t","language":"l"}}"#,
    );
    let (d, _) = parse_document_line(&line).expect("unicode escapes are well formed");
    assert_eq!(d.page_content, "A\u{e9}\u{20ac}\u{1f600}".as_bytes().to_vec());
    // a lone surrogate is malformed
    let lone = line_of(
        r#"{"page_content":"\ud83d","metadata":{"source":"s","content_type":"t","language":"l"}}"#,
    );
    assert!(parse_document_line(&lone).is_none());
}

#[test]
fn embed_response_tokens() {
    let body = line_of(r#"{"embedding":[1.0,2.0]}"#);
    let toks = parse_embed_response(&body).unwrap();
    assert_eq!(toks, vec![b"1.0".to_vec(), b"2.0".to_vec()]);

    let empty = line_of(r#"{"embedding":[]}"#);
    assert_eq!(parse_embed_response(&empty).unwrap().len(), 0);

    // unknown members are ignored, in any order
    let extra = line_of(r#"{"model":"m","embedding":[3],"took_ms":12.5}"#);
    assert_eq!(parse_embed_response(&extra).unwrap(), vec![b"3".to_vec()]);
}

#[test]
fn embed_response_rejects_other_shapes() {
    for case in [
        "",
        "[]",
        r#"{"embedding":}"#,
        r#"{"embeddings":[1.0]}"#,
        r#"{"embedding":[1.0]} x"#,
        r#"{"embedding":["a"]}"#,
        r#"{"embedding":[1.0],"embedding":[2.0]}"#,
        r#"{"model":"m"}"#,
    ] {
        assert!(parse_embed_response(&line_of(case)).is_none(), "accepted: {case}");
    }
}

#[test]
fn request_body_is_exact_json() {
    let req = EmbedRequest { content: b"hi \"there\"\n".to_vec() };
    let body = embed_request_body(&req);
    assert_eq!(body, br#"{"content":"hi \"there\"\n"}"#.to_vec());
}

#[test]
fn request_body_escapes_control_bytes() {
    let req = EmbedRequest { content: vec![0x01, b'a', 0x1f] };
    let body = embed_request_body(&req);
    assert_eq!(body, b"{\"content\":\"\\u0001a\\u001f\"}".to_vec());
}

#[test]
fn health_bodies_decode_to_statuses() {
    assert_eq!(health_status(&line_of(r#"{"status":"ok"}"#)), Some(Status::Ready));
    assert_eq!(health_status(&line_of(r#"{"status":"loading model"}"#)), Some(Status::Loading));
    assert_eq!(health_status(&line_of(r#"{"status":"error"}"#)), Some(Status::Error));
    assert_eq!(health_status(&line_of(r#"{"status":"warming"}"#)), Some(Status::Unknown));
    assert_eq!(health_status(&line_of("{}")), Some(Status::Unknown));
    assert_eq!(
        health_status(&line_of(r#"{"first":"error","status":"ok"}"#)),
        Some(Status::Error),
    );
    assert_eq!(health_status(&line_of("")), None);
    assert_eq!(health_status(&line_of("ok")), None);
    // a non-string status value is unusable but not malformed
    assert_eq!(health_status(&line_of(r#"{"status":1}"#)), Some(Status::Unknown));
    assert_eq!(
        health_status(&line_of(r#"{"status":{"deep":[1,true,null]},"extra":"ok"}"#)),
        Some(Status::Unknown),
    );
    assert_eq!(health_status(&line_of(r#"{"status":"ok""#)), None);
    assert_eq!(health_status(&line_of(r#"{"status":"ok",}"#)), None);
}

#[test]
fn fit_to_size_stops_at_first_zero() {
    let buf = [b'o', b'k', 0, 0, b'x'];
    assert_eq!(fit_to_size(&buf), b"ok");
    let nozero = [b'a', b'b'];
    assert_eq!(fit_to_size(&nozero), b"ab");
    let empty: [u8; 0] = [];
    assert_eq!(fit_to_size(&empty), b"");
}

#[test]
fn status_values_and_text() {
    assert_eq!(status_of_value(&b"ok".to_vec()), Status::Ready);
    assert_eq!(status_of_value(&b"loading model".to_vec()), Status::Loading);
    assert_eq!(status_of_value(&b"error".to_vec()), Status::Error);
    assert_eq!(status_of_value(&b"anything".to_vec()), Status::Unknown);
    assert_eq!(Status::Ready.text(), "ok");
    assert_eq!(Status::Loading.text(), "loading");
    assert_eq!(Status::Error.text(), "error");
    assert_eq!(Status::Unknown.text(), "unknown");
}

#[test]
fn payload_carries_the_three_metadata_fields() {
    let m = Metadata {
        source: b"a".to_vec(),
        content_type: b"text".to_vec(),
        language: b"en".to_vec(),
    };
    let pairs = payload_pairs(&m);
    assert_eq!(pairs.len(), 3);
    assert_eq!(pairs[0], (b"source".to_vec(), b"a".to_vec()));
    assert_eq!(pairs[1], (b"content_type".to_vec(), b"text".to_vec()));
    assert_eq!(pairs[2], (b"language".to_vec(), b"en".to_vec()));
}

#[test]
fn urls_are_built_from_parts() {
    let c = LlamaCpp::new(b"localhost".to_vec(), 8080, false);
    assert_eq!(c.create_url(&b"health".to_vec()), b"http://localhost:8080/health".to_vec());
    let c2 = LlamaCpp::new(b"example.test".to_vec(), 443, true);
    assert_eq!(
        c2.create_url(&b"embedding".to_vec()),
        b"https://example.test:443/embedding".to_vec(),
    );
    let d = LlamaCpp::default();
    assert_eq!(d.create_url(&b"health".to_vec()), b"http://127.0.0.1:8080/health".to_vec());
}
