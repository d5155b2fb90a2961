use shared_models::blob::BlobMetaData;
use shared_models::blog::BlogMetaData;
use shared_models::country::Country;
use shared_models::error::Error;
use shared_models::markdown::MarkdownMeta;
use shared_models::project::ProjectMetaData;

fn named(name: &str) -> BlobMetaData {
    let mut b = BlobMetaData::default();
    b.filename = name.to_string();
    b
}

fn db(msg: &str) -> Error {
    Error::Database(msg.to_string())
}

#[test]
fn markdown_filename_grammar() {
    let m = MarkdownMeta::try_from_blob(named("x/en.md")).unwrap();
    assert_eq!(m.id(), "x");
    assert_eq!(m.lang(), Country::UnitedKingdom);
    assert_eq!(m.blob().content_language, Some("en".to_string()));
}

#[test]
fn markdown_filename_errors() {
    assert_eq!(MarkdownMeta::try_from_blob(named("xen.md")).unwrap_err(), db("File has no id!"));
    assert_eq!(MarkdownMeta::try_from_blob(named("x/en")).unwrap_err(), db("File has no lang!"));
    assert_eq!(MarkdownMeta::try_from_blob(named("x/de.md")).unwrap_err(), db("\"de\" is not a valid lang"));
}

#[test]
fn markdown_keeps_given_language() {
    let mut b = named("a/pl.md");
    b.content_language = Some("xx".to_string());
    let m = MarkdownMeta::try_from_blob(b).unwrap();
    assert_eq!(m.lang(), Country::Poland);
    assert_eq!(m.blob().content_language, Some("xx".to_string()));
}

#[test]
fn markdown_empty_document() {
    assert_eq!(MarkdownMeta::create_filename("doc", Country::Poland), "doc/pl.md");
    let m = MarkdownMeta::empty("doc", Country::Poland);
    assert_eq!(m.blob().filename, "doc/pl.md");
    assert_eq!(m.blob().content_type, "text/markdown");
    assert_eq!(m.blob().content_language, Some("pl".to_string()));
    assert_eq!(m.id(), "doc");
    assert_eq!(m.lang(), Country::Poland);
}

#[test]
fn blog_empty_and_setters() {
    let mut b = BlogMetaData::empty("post", Country::UnitedKingdom);
    assert_eq!(b.image(), "");
    assert_eq!(b.project(), None);
    b.set_image("cover.png".to_string());
    b.set_project("proj".to_string());
    assert_eq!(b.image(), "cover.png");
    assert_eq!(b.project(), Some(&"proj".to_string()));
    let blob = b.into_blob();
    assert_eq!(blob.metadata.get("BLOG_IMAGE").unwrap(), "cover.png");
}

#[test]
fn blog_filename_checked_before_image() {
    assert_eq!(BlogMetaData::try_from_blob(named("noslash")).unwrap_err(), db("File has no id!"));
}

#[test]
fn project_images_sorted_by_index() {
    let mut b = named("p/en.md");
    b.metadata.insert("PROJECT_IMAGE_10".to_string(), "ten".to_string());
    b.metadata.insert("PROJECT_IMAGE_2".to_string(), "two".to_string());
    b.metadata.insert("PROJECT_IMAGE_x".to_string(), "skip".to_string());
    b.metadata.insert("PROJECT_IMAGE_".to_string(), "skip".to_string());
    b.metadata.insert("PROJECT_IMAGE_0".to_string(), "zero".to_string());
    let p = ProjectMetaData::try_from_blob(b).unwrap();
    assert_eq!(p.images, vec!["zero", "two", "ten"]);
}

#[test]
fn project_emit_renumbers_and_drops_old_keys() {
    let mut b = named("p/en.md");
    b.metadata.insert("PROJECT_IMAGE_5".to_string(), "z".to_string());
    let mut p = ProjectMetaData::try_from_blob(b).unwrap();
    assert_eq!(p.images, vec!["z"]);
    p.images = vec!["a".to_string(), "b".to_string()];
    let out = p.to_blob();
    assert_eq!(out.metadata.get("PROJECT_IMAGE_0").unwrap(), "a");
    assert_eq!(out.metadata.get("PROJECT_IMAGE_1").unwrap(), "b");
    assert_eq!(out.metadata.get("PROJECT_IMAGE_5"), None);
    let again = ProjectMetaData::try_from_blob(out).unwrap();
    assert_eq!(again.images, vec!["a", "b"]);
}

#[test]
fn project_round_trip_three_images() {
    let mut p = ProjectMetaData::empty("p", Country::UnitedKingdom);
    p.images = vec!["a".to_string(), "b".to_string(), "c".to_string()];
    let again = ProjectMetaData::try_from_blob(p.into_blob()).unwrap();
    assert_eq!(again.images, vec!["a", "b", "c"]);
}

#[test]
fn project_splash() {
    let mut p = ProjectMetaData::empty("p", Country::UnitedKingdom);
    assert_eq!(p.splash(), None);
    p.set_splash("s.png".to_string());
    assert_eq!(p.splash(), Some(&"s.png".to_string()));
}

#[test]
fn project_image_index_limits() {
    let mut b = named("p/en.md");
    b.metadata.insert("PROJECT_IMAGE_18446744073709551616".to_string(), "too big".to_string());
    b.metadata.insert("PROJECT_IMAGE_18446744073709551615".to_string(), "last".to_string());
    b.metadata.insert("PROJECT_IMAGE_007".to_string(), "seven".to_string());
    b.metadata.insert("PROJECT_IMAGE_7".to_string(), "seven again".to_string());
    let p = ProjectMetaData::try_from_blob(b).unwrap();
    assert_eq!(p.images, vec!["seven", "seven again", "last"]);
}
