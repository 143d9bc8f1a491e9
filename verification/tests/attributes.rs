use xml_map_access::attributes::{Attribute, Attributes, ByteClass, scan};
use xml_map_access::errors::AttrError;

fn attr(key: &str, value: &str) -> Attribute {
    Attribute { key: key.as_bytes().to_vec(), value: value.as_bytes().to_vec() }
}

#[test]
fn scan_finds_first_byte_of_class() {
    let bytes = b"ab \tcd=x";
    assert_eq!(scan(bytes, 0, ByteClass::Whitespace), 2);
    assert_eq!(scan(bytes, 2, ByteClass::NotWhitespace), 4);
    assert_eq!(scan(bytes, 4, ByteClass::NameEnd), 6);
    assert_eq!(scan(bytes, 0, ByteClass::Byte(b'x')), 7);
}

#[test]
fn scan_returns_length_when_nothing_matches() {
    let bytes = b"abc";
    assert_eq!(scan(bytes, 0, ByteClass::Whitespace), 3);
    assert_eq!(scan(bytes, 3, ByteClass::NotWhitespace), 3);
    assert_eq!(scan(bytes, 7, ByteClass::NotWhitespace), 3);
    assert_eq!(scan(b"", 0, ByteClass::Byte(b'"')), 0);
}

#[test]
fn byte_classes() {
    for b in [b' ', b'\t', b'\n', b'\r'] {
        assert!(ByteClass::Whitespace.accepts(b));
        assert!(!ByteClass::NotWhitespace.accepts(b));
        assert!(ByteClass::NameEnd.accepts(b));
    }
    assert!(!ByteClass::Whitespace.accepts(b'a'));
    assert!(ByteClass::NotWhitespace.accepts(b'a'));
    assert!(ByteClass::NameEnd.accepts(b'='));
    assert!(!ByteClass::NameEnd.accepts(b'a'));
    assert!(ByteClass::Byte(b'\'').accepts(b'\''));
    assert!(!ByteClass::Byte(b'\'').accepts(b'"'));
}

#[test]
fn reads_attributes_in_order() {
    let bytes = b"e a1=\"x\" a2=\"y\"";
    let mut attrs = Attributes::new(bytes, 1);
    assert_eq!(attrs.next(), Some(Ok(attr("a1", "x"))));
    assert_eq!(attrs.position, 8);
    assert_eq!(attrs.next(), Some(Ok(attr("a2", "y"))));
    assert_eq!(attrs.position, 15);
    assert_eq!(attrs.next(), None);
    assert_eq!(attrs.position, 15);
}

#[test]
fn reads_single_quotes_and_spaces_around_eq() {
    let bytes = b"tag  key \t=\n 'va\"lue'  other = \"\"";
    let mut attrs = Attributes::new(bytes, 3);
    assert_eq!(attrs.next(), Some(Ok(attr("key", "va\"lue"))));
    assert_eq!(attrs.next(), Some(Ok(attr("other", ""))));
    assert_eq!(attrs.next(), None);
    assert_eq!(attrs.position, bytes.len());
}

#[test]
fn value_stays_escaped() {
    let bytes = b"e a=\"1 &lt; 2\"";
    let mut attrs = Attributes::new(bytes, 1);
    assert_eq!(attrs.next(), Some(Ok(attr("a", "1 &lt; 2"))));
}

#[test]
fn no_attributes() {
    let mut attrs = Attributes::new(b"e", 1);
    assert_eq!(attrs.next(), None);
    assert_eq!(attrs.position, 1);
    let mut attrs = Attributes::new(b"e   ", 1);
    assert_eq!(attrs.next(), None);
    assert_eq!(attrs.position, 4);
}

#[test]
fn position_behind_the_end_is_kept() {
    let mut attrs = Attributes::new(b"e a=\"1\"", 20);
    assert_eq!(attrs.next(), None);
    assert_eq!(attrs.position, 20);
}

#[test]
fn unquoted_value_is_an_error() {
    let bytes = b"e a=x";
    let mut attrs = Attributes::new(bytes, 1);
    assert_eq!(attrs.next(), Some(Err(AttrError::UnquotedValue(4))));
    assert_eq!(attrs.position, bytes.len());
    assert_eq!(attrs.next(), None);
}

#[test]
fn unterminated_quote_is_an_error() {
    let bytes = b"e a=\"x' b='y'";
    let mut attrs = Attributes::new(bytes, 1);
    assert_eq!(attrs.next(), Some(Err(AttrError::UnquotedValue(4))));
    assert_eq!(attrs.position, bytes.len());
}

#[test]
fn name_without_eq_is_an_error() {
    let bytes = b"e a b=\"1\"";
    let mut attrs = Attributes::new(bytes, 1);
    assert_eq!(attrs.next(), Some(Err(AttrError::NoEqAfterName(4))));
    assert_eq!(attrs.position, bytes.len());
    let bytes = b"e a  ";
    let mut attrs = Attributes::new(bytes, 1);
    assert_eq!(attrs.next(), Some(Err(AttrError::NoEqAfterName(5))));
}

#[test]
fn tag_that_ends_in_a_name_or_after_eq_has_no_further_attribute() {
    let mut attrs = Attributes::new(b"e a", 1);
    assert_eq!(attrs.next(), None);
    assert_eq!(attrs.position, 3);
    let mut attrs = Attributes::new(b"e a= ", 1);
    assert_eq!(attrs.next(), None);
    assert_eq!(attrs.position, 5);
}

#[test]
fn rest_of_a_token_is_passed_over() {
    let bytes = b"e a=\"1\"junk b=\"2\"";
    let mut attrs = Attributes::new(bytes, 1);
    assert_eq!(attrs.next(), Some(Ok(attr("a", "1"))));
    assert_eq!(attrs.next(), Some(Ok(attr("b", "2"))));
    assert_eq!(attrs.next(), None);
}
