use bundle_repository::kind::Kind;

#[test]
fn canonical_kinds_have_fixed_file_names() {
    assert_eq!(Kind::Document.filename(), "document.pdf");
    assert_eq!(Kind::Preview.filename(), "preview.png");
    assert_eq!(Kind::Plaintext.filename(), "document.txt");
    assert_eq!(Kind::Metadata.filename(), "metadata.json");
}

#[test]
fn open_kind_is_kept_under_its_name() {
    assert_eq!(Kind::other("juicer.log").filename(), "juicer.log");
    assert_eq!(Kind::other("juicer.log"), Kind::Other { name: String::from("juicer.log") });
}

#[test]
fn open_kind_may_collide_with_a_canonical_file() {
    assert_eq!(Kind::other("document.pdf").filename(), Kind::Document.filename());
    assert_ne!(Kind::other("document.pdf"), Kind::Document);
}

#[test]
fn kinds_are_read_from_fragment_names() {
    assert_eq!(Kind::from(String::from("document")), Kind::Document);
    assert_eq!(Kind::from(String::from("preview")), Kind::Preview);
    assert_eq!(Kind::from(String::from("plaintext")), Kind::Plaintext);
    assert_eq!(Kind::from(String::from("metadata")), Kind::Metadata);
    assert_eq!(Kind::from(String::from("thumbnail")), Kind::other("thumbnail"));
    assert_eq!(Kind::from(String::from("Document")), Kind::other("Document"));
    assert_eq!(Kind::from(String::new()), Kind::other(""));
}

#[test]
fn kinds_are_equal_by_variant_and_name() {
    let all = [
        Kind::Document,
        Kind::Preview,
        Kind::Plaintext,
        Kind::Metadata,
        Kind::other("a"),
        Kind::other("b"),
    ];
    for (i, a) in all.iter().enumerate() {
        for (j, b) in all.iter().enumerate() {
            assert_eq!(a.same(b), i == j);
            assert_eq!(a == b, i == j);
        }
    }
}
