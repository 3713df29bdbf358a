use plight::color::{Color, TintProfile};
use plight::errors::PLightError;
use plight::sequence::LedSequence;
use plight::transport::{
    classify_response, finish_frame, postfix_matches, sync_prefix, ReadOutcome, ResponseVerdict,
    StripTransport,
};

fn solid_sequence(len: usize, c: (u8, u8, u8)) -> LedSequence {
    let mut seq = LedSequence::new(len);
    seq.set_color(Color::new(c.0, c.1, c.2));
    seq
}

#[test]
fn wrong_length_fails_without_any_bytes() {
    let t = StripTransport::new(81, TintProfile::neutral());
    let seq = LedSequence::new(80);
    match t.encode_frame(&seq, 0, 0) {
        Err(PLightError::WrongLength { given, actual }) => {
            assert_eq!(given, 80);
            assert_eq!(actual, 81);
        },
        other => panic!("expected a length mismatch, got {:?}", other),
    }
    match t.make_frame(&seq) {
        Err(PLightError::WrongLength { given, actual }) => {
            assert_eq!(given, 80);
            assert_eq!(actual, 81);
        },
        other => panic!("expected a length mismatch, got {:?}", other),
    }
}

#[test]
fn frame_bytes_are_exactly_prefix_nonce_payload() {
    let t = StripTransport::new(2, TintProfile::neutral());
    let seq = solid_sequence(2, (192, 168, 31));
    let hi = 0x12;
    let lo = 0x34;
    let bytes = t.encode_frame(&seq, hi, lo).unwrap();
    let expected = vec![
        89,
        124,
        234,
        hi,
        lo,
        hi ^ lo ^ 0x55,
        192,
        168,
        31,
        192,
        168,
        31,
    ];
    assert_eq!(bytes, expected);
}

#[test]
fn frame_with_fresh_nonce_matches_its_nonce_bytes() {
    let t = StripTransport::new(3, TintProfile::neutral());
    let seq = solid_sequence(3, (1, 2, 3));
    let (bytes, hi, lo) = t.make_frame(&seq).unwrap();
    assert_eq!(bytes.len(), 6 + 3 * 3);
    assert_eq!(&bytes[0..3], &[89, 124, 234]);
    assert_eq!(bytes[3], hi);
    assert_eq!(bytes[4], lo);
    assert_eq!(bytes[5], hi ^ lo ^ 0x55);
    assert_eq!(&bytes[6..9], &[1, 2, 3]);
}

#[test]
fn reversed_prefix_is_accepted() {
    assert!(postfix_matches(&[234, 124, 89]));
    let v = classify_response(&ReadOutcome::Received { postfix: [234, 124, 89] });
    assert!(matches!(v, ResponseVerdict::Accepted));
    assert!(v.is_delivered());
}

#[test]
fn wrong_postfix_is_logged_but_still_delivered() {
    assert!(!postfix_matches(&[1, 2, 3]));
    let v = classify_response(&ReadOutcome::Received { postfix: [1, 2, 3] });
    match v {
        ResponseVerdict::AcceptedWrongPostfix { got } => assert_eq!(got, [1, 2, 3]),
        other => panic!("expected a wrong-postfix verdict, got {:?}", other),
    }
    assert!(v.is_delivered());
    assert!(finish_frame(ReadOutcome::Received { postfix: [1, 2, 3] }).is_ok());
}

#[test]
fn unreversed_prefix_is_not_a_match() {
    assert!(!postfix_matches(&[89, 124, 234]));
}

#[test]
fn timeout_is_delivered_but_hard_faults_fail() {
    let v = classify_response(&ReadOutcome::TimedOut);
    assert!(matches!(v, ResponseVerdict::AcceptedTimeout));
    assert!(v.is_delivered());
    assert!(finish_frame(ReadOutcome::TimedOut).is_ok());

    let fatal = classify_response(&ReadOutcome::Failed { message: "unplugged".to_string() });
    assert!(matches!(fatal, ResponseVerdict::Fatal));
    assert!(!fatal.is_delivered());
    match finish_frame(ReadOutcome::Failed { message: "unplugged".to_string() }) {
        Err(PLightError::PostfixReading { message }) => assert_eq!(message, "unplugged"),
        other => panic!("expected a read fault, got {:?}", other),
    }
}

#[test]
fn sync_prefix_value() {
    assert_eq!(sync_prefix(), [89, 124, 234]);
}
