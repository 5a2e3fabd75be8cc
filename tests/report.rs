use hidcomm::report::{
    build_output_report, decode_payload, full_report_hex, prepare_output_report, report_hex,
    PayloadDecodeError, REPORT_SIZE,
};

#[test]
fn short_payload_is_zero_padded() {
    let r = build_output_report(&[1, 2, 3]);
    assert_eq!(r.len(), REPORT_SIZE);
    assert_eq!(&r[..3], &[1, 2, 3]);
    assert!(r[3..].iter().all(|&b| b == 0));
}

#[test]
fn empty_payload_gives_zero_report() {
    assert_eq!(build_output_report(&[]), [0u8; 64]);
}

#[test]
fn exact_payload_is_kept() {
    let p: Vec<u8> = (0..64u8).collect();
    assert_eq!(build_output_report(&p).to_vec(), p);
}

#[test]
fn long_payload_is_truncated() {
    let p: Vec<u8> = (0..100u8).map(|i| i.wrapping_mul(3).wrapping_add(1)).collect();
    let r = build_output_report(&p);
    assert_eq!(&r[..], &p[..64]);
}

#[test]
fn payload_text_decodes_in_either_case() {
    assert_eq!(decode_payload("0aFf10"), Ok(vec![0x0a, 0xff, 0x10]));
    assert_eq!(decode_payload(""), Ok(vec![]));
}

#[test]
fn bad_payload_text_is_rejected() {
    assert_eq!(decode_payload("abc"), Err(PayloadDecodeError));
    assert_eq!(decode_payload("zz"), Err(PayloadDecodeError));
    assert_eq!(decode_payload("é0"), Err(PayloadDecodeError));
}

#[test]
fn prepared_report_is_decoded_and_padded() {
    let r = prepare_output_report("01ab").unwrap();
    assert_eq!(r[0], 0x01);
    assert_eq!(r[1], 0xab);
    assert!(r[2..].iter().all(|&b| b == 0));
    assert_eq!(prepare_output_report("1"), Err(PayloadDecodeError));
}

#[test]
fn received_prefix_is_rendered_lowercase() {
    let mut r = [0u8; 64];
    r[0] = 0xde;
    r[1] = 0xad;
    r[2] = 0x0b;
    assert_eq!(report_hex(&r, 3), "dead0b");
    assert_eq!(report_hex(&r, 0), "");
}

#[test]
fn whole_report_is_rendered() {
    let mut r = [0u8; 64];
    r[63] = 0xf1;
    let text = full_report_hex(&r);
    assert_eq!(text.len(), 128);
    assert!(text.ends_with("00f1"));
    assert!(text.starts_with("0000"));
}
