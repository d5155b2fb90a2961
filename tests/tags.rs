use shared_models::tag::{Tag, Tags};

fn tag(s: &str) -> Tag {
    Tag { tag: s.to_string() }
}

fn labels(t: &Tags) -> Vec<String> {
    t.tags().into_iter().map(|t| t.tag).collect()
}

#[test]
fn tags_join_and_split() {
    let t = Tags::from_tags(vec![tag("rust"), tag("io"), tag("rust")]);
    assert_eq!(t.as_str(), "rust,io,rust");
    assert_eq!(labels(&t), vec!["rust", "io", "rust"]);
}

#[test]
fn tags_empty_form() {
    let t = Tags::from_tags(vec![]);
    assert_eq!(t.as_str(), "");
    assert!(t.tags().is_empty());
    assert_eq!(Tags::default(), Tags::new());
}

#[test]
fn tags_keep_empty_labels_between_commas() {
    let t = Tags::from_tags(vec![tag(""), tag("a"), tag("")]);
    assert_eq!(t.as_str(), ",a,");
    assert_eq!(labels(&t), vec!["", "a", ""]);
}

#[test]
fn tags_single_empty_label_reads_back_as_none() {
    let t = Tags::from_tags(vec![tag("")]);
    assert!(t.tags().is_empty());
}

#[test]
fn tags_from_store_pairs() {
    let pairs = vec![
        ("BLOB_TAG_rust".to_string(), "".to_string()),
        ("OTHER".to_string(), "x".to_string()),
        ("BLOB_TAG_io".to_string(), "ignored".to_string()),
        ("blob_tag_low".to_string(), "".to_string()),
    ];
    let t = Tags::from_store(&pairs);
    assert_eq!(t.as_str(), "rust,io");
}

#[test]
fn tags_store_round_trip() {
    let t = Tags::from_tags(vec![tag("b"), tag("a"), tag("b")]);
    let store = t.to_store();
    assert_eq!(
        store,
        vec![
            ("BLOB_TAG_b".to_string(), "".to_string()),
            ("BLOB_TAG_a".to_string(), "".to_string()),
            ("BLOB_TAG_b".to_string(), "".to_string()),
        ]
    );
    assert_eq!(Tags::from_store(&store), t);
}

#[test]
fn tags_from_canonical_form() {
    let t = Tags::from_canonical("a,b".to_string());
    assert_eq!(labels(&t), vec!["a", "b"]);
    assert_eq!(t, Tags::from_tags(vec![tag("a"), tag("b")]));
}
