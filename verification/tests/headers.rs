use rhs::headers::HeaderMap;

fn s(text: &str) -> String {
    String::from(text)
}

#[test]
fn new_map_is_empty() {
    let headers = HeaderMap::new();
    assert_eq!(headers.len(), 0);
    assert_eq!(headers.get(&s("Host")), None);
}

#[test]
fn inserted_value_is_found() {
    let mut headers = HeaderMap::new();
    headers.insert(s("Host"), s("example.com"));
    assert_eq!(headers.len(), 1);
    assert_eq!(headers.get(&s("Host")), Some(&s("example.com")));
    assert_eq!(headers.get(&s("host")), None);
}

#[test]
fn later_value_replaces_earlier_one() {
    let mut headers = HeaderMap::new();
    headers.insert(s("Accept"), s("text/html"));
    headers.insert(s("Host"), s("a"));
    headers.insert(s("Accept"), s("*/*"));
    assert_eq!(headers.len(), 2);
    assert_eq!(headers.get(&s("Accept")), Some(&s("*/*")));
    assert_eq!(headers.get(&s("Host")), Some(&s("a")));
}

#[test]
fn entries_keep_the_order_of_first_insertion() {
    let mut headers = HeaderMap::new();
    headers.insert(s("B"), s("1"));
    headers.insert(s("A"), s("2"));
    headers.insert(s("B"), s("3"));
    headers.insert(s("C"), s("4"));
    assert_eq!(headers.len(), 3);
    assert_eq!(headers.key_at(0), "B");
    assert_eq!(headers.value_at(0), "3");
    assert_eq!(headers.key_at(1), "A");
    assert_eq!(headers.value_at(1), "2");
    assert_eq!(headers.key_at(2), "C");
    assert_eq!(headers.value_at(2), "4");
}

#[test]
fn empty_name_and_value_are_kept() {
    let mut headers = HeaderMap::new();
    headers.insert(s(""), s(""));
    assert_eq!(headers.len(), 1);
    assert_eq!(headers.get(&s("")), Some(&s("")));
}
