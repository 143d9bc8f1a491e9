use xml_map_access::events::{BytesStart, Event};

#[test]
fn name_is_the_prefix_of_the_tag() {
    let start = BytesStart::owned(b"elem a=\"1\"".to_vec(), 4);
    assert_eq!(start.name(), b"elem");
    let start = BytesStart::owned(Vec::new(), 0);
    assert_eq!(start.name(), b"");
}

#[test]
fn owned_name_has_no_attributes() {
    let start = BytesStart::owned_name(b"child".to_vec());
    assert_eq!(start.name(), b"child");
    let mut attrs = start.attributes();
    assert_eq!(attrs.position, 5);
    assert_eq!(attrs.next(), None);
}

#[test]
fn attributes_start_behind_the_name() {
    let start = BytesStart::owned(b"elem a=\"1\"".to_vec(), 4);
    let attrs = start.attributes();
    assert_eq!(attrs.position, 4);
    assert_eq!(attrs.bytes, b"elem a=\"1\"");
}

#[test]
fn clones_are_equal() {
    let start = BytesStart::owned(b"elem a=\"1\"".to_vec(), 4);
    assert_eq!(start.clone(), start);
    let event = Event::Start(start);
    assert_eq!(event.clone(), event);
    assert_eq!(Event::Text.clone(), Event::Text);
    assert_eq!(Event::End.clone(), Event::End);
    assert_eq!(Event::Other.clone(), Event::Other);
    assert_ne!(Event::Text, Event::End);
}
