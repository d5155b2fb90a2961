use shared_models::blob::{BlobMetaData, StoreBlob};
use shared_models::blog::BlogMetaData;
use shared_models::codec::Base64Engine;
use shared_models::country::Country;
use shared_models::error::Error;
use shared_models::image::ImageMetaData;
use shared_models::metadata::AzureMetadata;

fn b64(s: &str) -> String {
    Base64Engine::new().encode(s)
}

fn post_blob(with_image: bool) -> StoreBlob {
    let mut metadata = vec![
        ("BLOB_TITLE".to_string(), b64("Hi")),
        ("BLOB_SUMMARY".to_string(), b64("s")),
    ];
    if with_image {
        metadata.push(("BLOG_IMAGE".to_string(), b64("img.png")));
    }
    StoreBlob {
        name: "post1/en.md".to_string(),
        metadata: Some(metadata),
        tags: Some(vec![
            ("BLOB_TAG_rust".to_string(), "".to_string()),
            ("BLOB_TAG_io".to_string(), "".to_string()),
        ]),
        content_type: "text/markdown".to_string(),
        content_language: None,
        content_length: 10,
        creation_time: 1700000000,
        last_modified: 1700000005,
    }
}

#[test]
fn parse_blog_post_from_store() {
    let blob = BlobMetaData::from_store(&post_blob(true)).unwrap();
    let blog = BlogMetaData::try_from_blob(blob).unwrap();
    let md = blog.markdown();
    assert_eq!(md.id(), "post1");
    assert_eq!(md.lang(), Country::UnitedKingdom);
    let tags: Vec<String> = md.blob().tags.tags().into_iter().map(|t| t.tag).collect();
    assert_eq!(tags, vec!["rust", "io"]);
    assert_eq!(blog.image(), "img.png");
    assert_eq!(blog.project(), None);
    assert_eq!(md.blob().size, 10);
    assert_eq!(md.blob().title(), "Hi");
    assert_eq!(md.blob().summary(), "s");
    assert_eq!(md.blob().content_language, Some("en".to_string()));
    let created = chrono::DateTime::from_timestamp(md.blob().created, 0).unwrap();
    assert_eq!(created.to_rfc3339(), "2023-11-14T22:13:20+00:00");
    assert_eq!(md.blob().updated, md.blob().created + 5);
}

#[test]
fn parse_blog_post_without_image() {
    let blob = BlobMetaData::from_store(&post_blob(false)).unwrap();
    assert_eq!(
        BlogMetaData::try_from_blob(blob).unwrap_err(),
        Error::Database("File has no image!".to_string())
    );
}

#[test]
fn parse_store_blob_errors() {
    let mut b = post_blob(true);
    b.metadata = None;
    assert_eq!(BlobMetaData::from_store(&b).unwrap_err(), Error::Database("File has no metadata!".to_string()));
    let mut b = post_blob(true);
    b.metadata = Some(vec![("BLOB_SUMMARY".to_string(), b64("s"))]);
    assert_eq!(BlobMetaData::from_store(&b).unwrap_err(), Error::Database("File has no title!".to_string()));
    let mut b = post_blob(true);
    b.metadata = Some(vec![("blob_title".to_string(), b64("t"))]);
    assert_eq!(BlobMetaData::from_store(&b).unwrap_err(), Error::Database("File has no summary!".to_string()));
}

#[test]
fn parse_store_blob_without_tags() {
    let mut b = post_blob(true);
    b.tags = None;
    let m = BlobMetaData::from_store(&b).unwrap();
    assert_eq!(m.tags.as_str(), "");
}

#[test]
fn metadata_keys_upper_cased_and_values_decoded() {
    let raw = vec![
        ("blob_Title".to_string(), b64("Zażółć")),
        ("bad".to_string(), "!!!".to_string()),
        ("latin".to_string(), "/w==".to_string()),
        ("BLOB_TITLE".to_string(), b64("later wins")),
    ];
    let m = AzureMetadata::from_raw(&raw);
    assert_eq!(m.len(), 3);
    assert_eq!(m.get("BLOB_TITLE").unwrap(), "later wins");
    assert_eq!(m.get("BAD").unwrap(), "Invalid base64");
    assert_eq!(m.get("LATIN").unwrap(), "Invalid utf8");
    assert_eq!(m.get("bad"), None);
}

#[test]
fn metadata_emit_encodes_values() {
    let mut m = AzureMetadata::new();
    m.insert("BLOB_TITLE".to_string(), "Hi".to_string());
    m.insert("X".to_string(), "".to_string());
    m.insert("BLOB_TITLE".to_string(), "Hello".to_string());
    assert_eq!(
        m.to_raw(),
        vec![("BLOB_TITLE".to_string(), "SGVsbG8=".to_string()), ("X".to_string(), "".to_string())]
    );
    assert_eq!(AzureMetadata::from_raw(&m.to_raw()), m);
}

#[test]
fn blob_store_round_trip() {
    let blob = BlobMetaData::from_store(&post_blob(true)).unwrap();
    let again = BlobMetaData::from_store(&blob.to_store()).unwrap();
    assert_eq!(again, blob);
    assert_eq!(blob.to_store().creation_time, 1700000000);
}

#[test]
fn blob_default_and_builders() {
    let d = BlobMetaData::default();
    assert_eq!(d.title(), "");
    assert_eq!(d.summary(), "");
    let t = d.with_title("T".to_string()).with_summary("S".to_string());
    assert_eq!(t.title(), "T");
    assert_eq!(t.summary(), "S");
    assert_eq!(d.title(), "");
    assert_eq!(t.created, 0);
}

#[test]
fn image_metadata_by_content_type() {
    let mut b = BlobMetaData::default();
    b.content_type = "image/png".to_string();
    assert!(ImageMetaData::try_from_blob(b).is_ok());
    let mut b = BlobMetaData::default();
    b.content_type = "text/plain".to_string();
    assert_eq!(
        ImageMetaData::try_from_blob(b).unwrap_err(),
        Error::Database("File is not an image!".to_string())
    );
}

#[test]
fn base64_facade() {
    let e = Base64Engine::new();
    assert_eq!(e.encode("Hi"), "SGk=");
    assert_eq!(e.decode_string(&"SGk=".to_string()), Some("Hi".to_string()));
    assert_eq!(e.decode_string(&"SGk".to_string()), None);
    assert_eq!(e.decode_string(&"/w==".to_string()), None);
    assert_eq!(e.encode_bytes(&[0xff]), "/w==");
    assert_eq!(e.decode_bytes("/w=="), Some(vec![0xff]));
}

#[test]
fn blob_store_metadata_and_dto() {
    let blob = BlobMetaData::from_store(&post_blob(true)).unwrap();
    let raw = blob.to_store_metadata();
    assert_eq!(raw[0], ("BLOB_TITLE".to_string(), "SGk=".to_string()));
    assert!(blob.metadata.contains_key("BLOG_IMAGE"));
    assert!(!blob.metadata.contains_key("BLOG_PROJECT"));
    let dto = shared_models::upload::BlobMetaDto::from_blob(blob);
    assert_eq!(dto.filename, "post1/en.md");
    assert_eq!(dto.tags.as_str(), "rust,io");
    assert_eq!(dto.content_type, "text/markdown");
}
