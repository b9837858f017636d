use bytes::Bytes;
use simple_paxos::error::DecodeError;
use simple_paxos::issue::{find_bar, Issue, IssueType};
use simple_paxos::text::{bytes_eq, decimal_string, parse_u64, push_decimal, str_eq};

fn decode(frame: &[u8]) -> Result<(String, u64, IssueType), DecodeError> {
    Issue::decode(frame).map(|i| (i.content(), i.id(), i.issue_type()))
}

#[test]
fn encode_writes_kind_id_and_content_between_bars() {
    let issue = Issue::new("hello".to_string(), 1, IssueType::Proposal);
    assert_eq!(issue.encode(), b"p|1|hello".to_vec());
    let issue = Issue::new("x".to_string(), 42, IssueType::Vote);
    assert_eq!(issue.encode(), b"v|42|x".to_vec());
    let issue = Issue::new("".to_string(), 0, IssueType::Resolution);
    assert_eq!(issue.encode(), b"r|0|".to_vec());
}

#[test]
fn encode_writes_the_largest_id_in_full() {
    let issue = Issue::new("a".to_string(), u64::MAX, IssueType::Vote);
    assert_eq!(issue.encode(), b"v|18446744073709551615|a".to_vec());
}

#[test]
fn decode_reads_the_three_fields() {
    assert_eq!(decode(b"p|1|hello"), Ok(("hello".to_string(), 1, IssueType::Proposal)));
    assert_eq!(decode(b"v|7|x"), Ok(("x".to_string(), 7, IssueType::Vote)));
    assert_eq!(decode(b"r|12|done"), Ok(("done".to_string(), 12, IssueType::Resolution)));
}

#[test]
fn decode_accepts_an_empty_content() {
    assert_eq!(decode(b"p|3|"), Ok(("".to_string(), 3, IssueType::Proposal)));
}

#[test]
fn decode_keeps_text_beyond_ascii() {
    let frame = "v|9|gr\u{fc}\u{df}e \u{4e16}\u{754c} \u{1f600}".as_bytes().to_vec();
    assert_eq!(
        decode(&frame),
        Ok(("gr\u{fc}\u{df}e \u{4e16}\u{754c} \u{1f600}".to_string(), 9, IssueType::Vote))
    );
}

#[test]
fn decode_of_encode_gives_the_issue_back() {
    let kinds = [IssueType::Proposal, IssueType::Vote, IssueType::Resolution];
    let ids = [0u64, 1, 9, 10, 99, 100, 12345, u64::MAX - 1, u64::MAX];
    let texts = ["", "a", "hello world", "caf\u{e9}", "line\nbreak", "+1", "p", "\u{10ffff}"];
    for kind in kinds {
        for id in ids {
            for text in texts {
                let issue = Issue::new(text.to_string(), id, kind);
                let back = Issue::decode(&issue.encode()).unwrap();
                assert!(back == issue);
                assert_eq!(back.content(), text);
                assert_eq!(back.id(), id);
                assert_eq!(back.issue_type(), kind);
            }
        }
    }
}

#[test]
fn decode_fails_on_a_datagram_without_bars() {
    assert_eq!(decode(b"xxx"), Err(DecodeError::Framing));
    assert_eq!(decode(b""), Err(DecodeError::Framing));
}

#[test]
fn decode_fails_on_two_fields() {
    assert_eq!(decode(b"p|1"), Err(DecodeError::Framing));
}

#[test]
fn decode_fails_when_the_content_holds_a_bar() {
    assert_eq!(decode(b"p|1|a|b"), Err(DecodeError::Framing));
    assert_eq!(decode(b"p|1|a|"), Err(DecodeError::Framing));
    assert_eq!(decode(b"|||"), Err(DecodeError::Framing));
}

#[test]
fn encode_of_a_content_with_a_bar_does_not_read_back() {
    let issue = Issue::new("a|b".to_string(), 1, IssueType::Proposal);
    assert_eq!(issue.encode(), b"p|1|a|b".to_vec());
    assert_eq!(decode(&issue.encode()), Err(DecodeError::Framing));
}

#[test]
fn decode_fails_on_an_unknown_kind() {
    assert_eq!(decode(b"x|1|a"), Err(DecodeError::UnknownKind));
    assert_eq!(decode(b"pp|1|a"), Err(DecodeError::UnknownKind));
    assert_eq!(decode(b"|1|a"), Err(DecodeError::UnknownKind));
    assert_eq!(decode(b"P|1|a"), Err(DecodeError::UnknownKind));
}

#[test]
fn decode_fails_on_a_bad_id() {
    assert_eq!(decode(b"p|abc|a"), Err(DecodeError::InvalidId));
    assert_eq!(decode(b"p||a"), Err(DecodeError::InvalidId));
    assert_eq!(decode(b"p|-1|a"), Err(DecodeError::InvalidId));
    assert_eq!(decode(b"p| 1|a"), Err(DecodeError::InvalidId));
    assert_eq!(decode(b"p|1 |a"), Err(DecodeError::InvalidId));
    assert_eq!(decode(b"p|+|a"), Err(DecodeError::InvalidId));
    assert_eq!(decode(b"p|1_0|a"), Err(DecodeError::InvalidId));
    assert_eq!(decode(b"p|0x10|a"), Err(DecodeError::InvalidId));
}

#[test]
fn decode_checks_the_range_of_the_id() {
    assert_eq!(
        decode(b"p|18446744073709551615|a"),
        Ok(("a".to_string(), u64::MAX, IssueType::Proposal))
    );
    assert_eq!(decode(b"p|18446744073709551616|a"), Err(DecodeError::InvalidId));
    assert_eq!(decode(b"p|99999999999999999999999|a"), Err(DecodeError::InvalidId));
}

#[test]
fn decode_reads_an_id_as_the_standard_parser_does() {
    for field in ["0", "007", "+5", "+0", "18446744073709551615", "+18446744073709551615"] {
        let frame = format!("p|{}|a", field);
        let expected = u64::from_str_radix(field, 10).unwrap();
        assert_eq!(decode(frame.as_bytes()), Ok(("a".to_string(), expected, IssueType::Proposal)));
    }
    for field in ["", "+", "-", "-0", "++1", "1+", "1.0", "٣", "18446744073709551616"] {
        let frame = format!("p|{}|a", field);
        assert!(u64::from_str_radix(field, 10).is_err());
        assert_eq!(decode(frame.as_bytes()), Err(DecodeError::InvalidId));
    }
}

#[test]
fn decode_fails_on_bytes_that_are_not_utf8() {
    assert_eq!(decode(&[b'p', b'|', b'1', b'|', 0xff]), Err(DecodeError::InvalidUtf8));
    assert_eq!(decode(&[b'p', b'|', b'1', b'|', 0xc3]), Err(DecodeError::InvalidUtf8));
    assert_eq!(decode(&[0x80]), Err(DecodeError::InvalidUtf8));
}

#[test]
fn decode_reports_bad_utf8_before_anything_else() {
    assert_eq!(decode(&[0xff]), Err(DecodeError::InvalidUtf8));
    assert_eq!(decode(&[b'x', b'|', b'y', b'|', 0xff, b'|']), Err(DecodeError::InvalidUtf8));
}

#[test]
fn decode_reports_framing_before_kind_and_kind_before_id() {
    assert_eq!(decode(b"x|y"), Err(DecodeError::Framing));
    assert_eq!(decode(b"x|y|z"), Err(DecodeError::UnknownKind));
    assert_eq!(decode(b"p|y|z"), Err(DecodeError::InvalidId));
}

#[test]
fn issue_converts_to_and_from_bytes() {
    let issue = Issue::new("test-msg:A".to_string(), 5, IssueType::Proposal);
    let payload: Bytes = issue.clone().into();
    assert_eq!(payload, Bytes::from("p|5|test-msg:A"));
    let back = Issue::try_from(payload).unwrap();
    assert!(back == issue);
    assert_eq!(Issue::try_from(Bytes::from("xxx")).err(), Some(DecodeError::Framing));
}

#[test]
fn issue_getters_return_what_new_was_given() {
    let issue = Issue::new("abc".to_string(), 77, IssueType::Resolution);
    assert_eq!(issue.content(), "abc");
    assert_eq!(issue.content_ref(), "abc");
    assert_eq!(issue.id(), 77);
    assert_eq!(issue.issue_type(), IssueType::Resolution);
}

#[test]
fn issues_are_equal_when_all_three_parts_are() {
    let a = Issue::new("abc".to_string(), 1, IssueType::Vote);
    assert!(a == a.clone());
    assert!(a == Issue::new("abc".to_string(), 1, IssueType::Vote));
    assert!(a != Issue::new("abd".to_string(), 1, IssueType::Vote));
    assert!(a != Issue::new("abc".to_string(), 2, IssueType::Vote));
    assert!(a != Issue::new("abc".to_string(), 1, IssueType::Proposal));
}

#[test]
fn kind_letters_are_p_v_and_r() {
    assert_eq!(IssueType::Proposal.letter(), b'p');
    assert_eq!(IssueType::Vote.letter(), b'v');
    assert_eq!(IssueType::Resolution.letter(), b'r');
    assert_eq!(IssueType::from_field(b"p"), Some(IssueType::Proposal));
    assert_eq!(IssueType::from_field(b"v"), Some(IssueType::Vote));
    assert_eq!(IssueType::from_field(b"r"), Some(IssueType::Resolution));
    assert_eq!(IssueType::from_field(b""), None);
    assert_eq!(IssueType::from_field(b"q"), None);
    assert_eq!(IssueType::from_field(b"pv"), None);
}

#[test]
fn find_bar_gives_the_first_bar_or_the_end() {
    assert_eq!(find_bar(b"ab|cd|e", 0), 2);
    assert_eq!(find_bar(b"ab|cd|e", 2), 2);
    assert_eq!(find_bar(b"ab|cd|e", 3), 5);
    assert_eq!(find_bar(b"ab|cd|e", 6), 7);
    assert_eq!(find_bar(b"ab|cd|e", 7), 7);
    assert_eq!(find_bar(b"", 0), 0);
}

#[test]
fn parse_u64_reads_digits_with_an_optional_plus() {
    assert_eq!(parse_u64(b"0"), Some(0));
    assert_eq!(parse_u64(b"10"), Some(10));
    assert_eq!(parse_u64(b"+10"), Some(10));
    assert_eq!(parse_u64(b"00012"), Some(12));
    assert_eq!(parse_u64(b"18446744073709551615"), Some(u64::MAX));
    assert_eq!(parse_u64(b"18446744073709551616"), None);
    assert_eq!(parse_u64(b"18446744073709551620"), None);
    assert_eq!(parse_u64(b"28446744073709551615"), None);
    assert_eq!(parse_u64(b""), None);
    assert_eq!(parse_u64(b"+"), None);
    assert_eq!(parse_u64(b"1a"), None);
    assert_eq!(parse_u64(b"a1"), None);
    assert_eq!(parse_u64(b"-1"), None);
}

#[test]
fn push_decimal_appends_the_digits() {
    let mut out = b"id=".to_vec();
    push_decimal(0, &mut out);
    assert_eq!(out, b"id=0".to_vec());
    push_decimal(1203, &mut out);
    assert_eq!(out, b"id=01203".to_vec());
    let mut out = Vec::new();
    push_decimal(u64::MAX, &mut out);
    assert_eq!(out, b"18446744073709551615".to_vec());
}

#[test]
fn str_eq_and_bytes_eq_compare_contents() {
    assert!(str_eq("master", "master"));
    assert!(!str_eq("master", "masters"));
    assert!(!str_eq("master", "mastes"));
    assert!(str_eq("", ""));
    assert!(bytes_eq(b"abc", b"abc"));
    assert!(!bytes_eq(b"abc", b"abd"));
    assert!(!bytes_eq(b"abc", b"ab"));
}

#[test]
fn kinds_convert_to_and_from_their_text() {
    let p: String = IssueType::Proposal.into();
    let v: String = IssueType::Vote.into();
    let r: String = IssueType::Resolution.into();
    assert_eq!((p.as_str(), v.as_str(), r.as_str()), ("p", "v", "r"));
    assert_eq!(IssueType::try_from("p"), Ok(IssueType::Proposal));
    assert_eq!(IssueType::try_from("v"), Ok(IssueType::Vote));
    assert_eq!(IssueType::try_from("r"), Ok(IssueType::Resolution));
    assert_eq!(IssueType::try_from(""), Err(DecodeError::UnknownKind));
    assert_eq!(IssueType::try_from("R"), Err(DecodeError::UnknownKind));
    assert_eq!(IssueType::try_from("vote"), Err(DecodeError::UnknownKind));
    assert_eq!(IssueType::try_from("v".to_string()), Ok(IssueType::Vote));
    assert_eq!(IssueType::try_from("x".to_string()), Err(DecodeError::UnknownKind));
}

#[test]
fn an_issue_fits_a_datagram_up_to_512_bytes() {
    let small = Issue::new("x".repeat(508), 1, IssueType::Proposal);
    assert_eq!(small.encode().len(), 512);
    assert!(small.fits_datagram());
    let large = Issue::new("x".repeat(509), 1, IssueType::Proposal);
    assert!(!large.fits_datagram());
    let wide = Issue::new("x".repeat(490), u64::MAX, IssueType::Proposal);
    assert_eq!(wide.encode().len(), 513);
    assert!(!wide.fits_datagram());
}

#[test]
fn decimal_string_writes_a_number_in_base_10() {
    assert_eq!(decimal_string(0), "0");
    assert_eq!(decimal_string(7), "7");
    assert_eq!(decimal_string(10), "10");
    assert_eq!(decimal_string(9_007_199_254_740_993), "9007199254740993");
    assert_eq!(decimal_string(u64::MAX), u64::MAX.to_string());
}
