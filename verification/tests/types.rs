use bearer_auth::types::{Seconds, StringHashSet, StringVec};

#[test]
fn string_hash_set_serializes_sorted_and_deduplicated() {
    let s = StringHashSet::from(vec![
        String::from("profile"),
        String::from("openid"),
        String::from("email"),
        String::from("openid"),
    ]);
    assert_eq!(s.serialize(), "email openid profile");
}

#[test]
fn string_hash_set_deserializes_whitespace_separated() {
    let s = StringHashSet::deserialize("profile  openid\temail");
    let items: Vec<String> = s.into();
    assert_eq!(items, vec!["email", "openid", "profile"]);
}

#[test]
fn empty_string_hash_set_serializes_empty() {
    let s = StringHashSet::from(Vec::<String>::new());
    assert_eq!(s.serialize(), "");
}

#[test]
fn seconds_round_trip() {
    let s = Seconds::from(3600_u64);
    assert_eq!(s.serialize(), 3600);
    assert_eq!(u64::from(s), 3600);
    assert_eq!(Seconds::deserialize(3600), s);
}

#[test]
fn string_vec_serializes_space_separated() {
    let v = StringVec::from(vec![
        String::from("openid"),
        String::from("profile"),
        String::from("email"),
    ]);
    assert_eq!(v.serialize(), "openid profile email");
}

#[test]
fn string_vec_of_one_item_has_no_separator() {
    let v = StringVec::from(vec![String::from("openid")]);
    assert_eq!(v.serialize(), "openid");
}

#[test]
fn empty_string_vec_serializes_empty() {
    let v = StringVec::from(Vec::<String>::new());
    assert_eq!(v.serialize(), "");
}

#[test]
fn string_vec_deserializes_on_whitespace_runs() {
    let v = StringVec::deserialize("  openid \t profile\nemail ");
    let items: Vec<String> = v.into();
    assert_eq!(items, vec!["openid", "profile", "email"]);
}

#[test]
fn string_vec_round_trip() {
    let v = StringVec::deserialize("a b c");
    assert_eq!(v.serialize(), "a b c");
}
