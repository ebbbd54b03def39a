use embed_pipeline::pdfdata::pdf_payload;

#[test]
fn empty_payload_encodes_to_empty() {
    let data: Vec<u8> = Vec::new();
    let s = pdf_payload(&data).expect("small input");
    assert_eq!(s, "");
}

#[test]
fn known_payloads_encode_exactly() {
    let hello = vec![104u8, 101, 108, 108, 111];
    assert_eq!(pdf_payload(&hello).expect("small input"), "aGVsbG8=");
    let man = vec![77u8, 97, 110];
    assert_eq!(pdf_payload(&man).expect("small input"), "TWFu");
    let pdf_header = vec![37u8, 80, 68, 70];
    assert_eq!(pdf_payload(&pdf_header).expect("small input"), "JVBERg==");
}
