//! The generic blob codec: a store record parsed into typed metadata, and
//! typed metadata emitted back as a store record.
use vstd::prelude::*;
use crate::error::Error;
use crate::metadata::{
    AzureMetadata, Entries, decoded_entries, encoded_entries, inserted, keys_upper, lookup,
};
use crate::tag::{
    Tags, join_labels, labels_of, lemma_canonical_round_trip, lemma_store_round_trip,
    store_labels, store_pairs,
};
use crate::text::pairs_view;

verus! {

/// A blob as the object store lists it. Metadata values are base64 text;
/// times are Unix seconds.
#[derive(Debug, PartialEq)]
pub struct StoreBlob {
    pub name: String,
    pub metadata: Option<Vec<(String, String)>>,
    pub tags: Option<Vec<(String, String)>>,
    pub content_type: String,
    pub content_language: Option<String>,
    pub content_length: u64,
    pub creation_time: i64,
    pub last_modified: i64,
}

/// A store record, as characters.
pub struct StoreView {
    pub name: Seq<char>,
    pub metadata: Option<Entries>,
    pub tags: Option<Entries>,
    pub content_type: Seq<char>,
    pub content_language: Option<Seq<char>>,
    pub content_length: u64,
    pub creation_time: i64,
    pub last_modified: i64,
}

/// The normalised metadata of a stored object. Times are Unix seconds.
#[derive(Debug, PartialEq)]
pub struct BlobMetaData {
    pub filename: String,
    pub metadata: AzureMetadata,
    pub tags: Tags,
    pub created: i64,
    pub updated: i64,
    pub content_type: String,
    pub content_language: Option<String>,
    pub size: u64,
}

/// A blob's metadata with its text.
#[derive(Debug, PartialEq)]
pub struct BlobData {
    pub meta: BlobMetaData,
    pub content: String,
}

/// Blob metadata, as characters.
pub struct BlobView {
    pub filename: Seq<char>,
    pub metadata: Entries,
    pub tags: Seq<char>,
    pub created: i64,
    pub updated: i64,
    pub content_type: Seq<char>,
    pub content_language: Option<Seq<char>>,
    pub size: u64,
}

pub open spec fn opt_view(o: Option<String>) -> Option<Seq<char>> {
    match o {
        Some(s) => Some(s@),
        None => None,
    }
}

pub open spec fn opt_pairs_view(o: Option<Vec<(String, String)>>) -> Option<Entries> {
    match o {
        Some(v) => Some(pairs_view(v@)),
        None => None,
    }
}

impl StoreBlob {
    pub open spec fn view(&self) -> StoreView {
        StoreView {
            name: self.name@,
            metadata: opt_pairs_view(self.metadata),
            tags: opt_pairs_view(self.tags),
            content_type: self.content_type@,
            content_language: opt_view(self.content_language),
            content_length: self.content_length,
            creation_time: self.creation_time,
            last_modified: self.last_modified,
        }
    }
}

impl BlobMetaData {
    pub open spec fn view(&self) -> BlobView {
        BlobView {
            filename: self.filename@,
            metadata: self.metadata@,
            tags: self.tags@,
            created: self.created,
            updated: self.updated,
            content_type: self.content_type@,
            content_language: opt_view(self.content_language),
            size: self.size,
        }
    }

    /// What `default` gives, as characters.
    pub open spec fn default_view() -> BlobView {
        BlobView {
            filename: Seq::empty(),
            metadata: seq![(title_key(), Seq::<char>::empty()), (summary_key(), Seq::<char>::empty())],
            tags: Seq::empty(),
            created: 0,
            updated: 0,
            content_type: Seq::empty(),
            content_language: None,
            size: 0,
        }
    }

    /// Title and summary are present.
    pub open spec fn wf(&self) -> bool {
        has_title_and_summary(self.metadata@)
    }
}

pub open spec fn title_key() -> Seq<char> {
    "BLOB_TITLE"@
}

pub open spec fn summary_key() -> Seq<char> {
    "BLOB_SUMMARY"@
}

pub open spec fn has_title_and_summary(m: Entries) -> bool {
    lookup(m, title_key()) is Some && lookup(m, summary_key()) is Some
}

/// What parsing a store record gives: the metadata or the message of the
/// database error.
pub open spec fn parse_store(b: StoreView) -> Result<BlobView, Seq<char>> {
    match b.metadata {
        None => Err("File has no metadata!"@),
        Some(raw) => {
            let m = decoded_entries(raw);
            if lookup(m, title_key()) is None {
                Err("File has no title!"@)
            } else if lookup(m, summary_key()) is None {
                Err("File has no summary!"@)
            } else {
                Ok(
                    BlobView {
                        filename: b.name,
                        metadata: m,
                        tags: join_labels(
                            store_labels(
                                match b.tags {
                                    Some(t) => t,
                                    None => Seq::empty(),
                                },
                            ),
                        ),
                        created: b.creation_time,
                        updated: b.last_modified,
                        content_type: b.content_type,
                        content_language: b.content_language,
                        size: b.content_length,
                    },
                )
            }
        },
    }
}

/// The store record that metadata is emitted as.
pub open spec fn store_of(m: BlobView) -> StoreView {
    StoreView {
        name: m.filename,
        metadata: Some(encoded_entries(m.metadata)),
        tags: Some(store_pairs(labels_of(m.tags))),
        content_type: m.content_type,
        content_language: m.content_language,
        content_length: m.size,
        creation_time: m.created,
        last_modified: m.updated,
    }
}

/// Whether an outcome is the one that a spec outcome describes: the same
/// metadata, or a database error with the same message.
pub open spec fn outcome_is(r: Result<BlobMetaData, Error>, s: Result<BlobView, Seq<char>>) -> bool {
    match (r, s) {
        (Ok(m), Ok(v)) => m.view() == v && m.wf(),
        (Err(Error::Database(msg)), Err(e)) => msg@ == e,
        _ => false,
    }
}

pub fn clone_opt_string(o: &Option<String>) -> (r: Option<String>)
    ensures
        opt_view(r) == opt_view(*o),
{
    match o {
        Some(s) => Some(s.clone()),
        None => None,
    }
}

impl Clone for BlobMetaData {
    fn clone(&self) -> (r: BlobMetaData)
        ensures
            r.view() == self.view(),
    {
        BlobMetaData {
            filename: self.filename.clone(),
            metadata: self.metadata.clone(),
            tags: self.tags.clone_tags(),
            created: self.created,
            updated: self.updated,
            content_type: self.content_type.clone(),
            content_language: clone_opt_string(&self.content_language),
            size: self.size,
        }
    }
}

impl Default for BlobMetaData {
    /// No name, empty title and summary, no tags, the epoch, no content.
    fn default() -> (r: BlobMetaData)
        ensures
            r.wf(),
            r.view() == BlobMetaData::default_view(),
            r.filename@ == Seq::<char>::empty(),
            r.metadata@ == seq![
                (title_key(), Seq::<char>::empty()),
                (summary_key(), Seq::<char>::empty()),
            ],
            r.tags@ == Seq::<char>::empty(),
            r.created == 0,
            r.updated == 0,
            r.content_type@ == Seq::<char>::empty(),
            r.content_language is None,
            r.size == 0,
    {
        let r = BlobMetaData {
            filename: String::new(),
            metadata: AzureMetadata::default(),
            tags: Tags::new(),
            created: 0,
            updated: 0,
            content_type: String::new(),
            content_language: None,
            size: 0,
        };
        assert(lookup(r.metadata@, title_key()) is Some) by {
            crate::metadata::lemma_has_key_lookup(r.metadata@, title_key());
            assert(r.metadata@[0].0 == title_key());
        }
        assert(lookup(r.metadata@, summary_key()) is Some) by {
            assert(r.metadata@.last().0 == summary_key());
        }
        r
    }
}

impl BlobMetaData {
    /// Parses a store record. Fails with a database error when the record
    /// has no metadata, or the metadata has no title or no summary.
    pub fn from_store(value: &StoreBlob) -> (r: Result<BlobMetaData, Error>)
        ensures
            outcome_is(r, parse_store(value.view())),
    {
        let tags = match &value.tags {
            Some(t) => Tags::from_store(t),
            None => {
                let empty: Vec<(String, String)> = Vec::new();
                assert(pairs_view(empty@) =~= Seq::<(Seq<char>, Seq<char>)>::empty());
                Tags::from_store(&empty)
            },
        };
        let metadata = match &value.metadata {
            Some(raw) => AzureMetadata::from_raw(raw),
            None => {
                return Err(Error::Database("File has no metadata!".to_owned()));
            },
        };
        if metadata.get("BLOB_TITLE").is_none() {
            return Err(Error::Database("File has no title!".to_owned()));
        }
        if metadata.get("BLOB_SUMMARY").is_none() {
            return Err(Error::Database("File has no summary!".to_owned()));
        }
        Ok(
            BlobMetaData {
                filename: value.name.clone(),
                metadata,
                tags,
                created: value.creation_time,
                updated: value.last_modified,
                content_type: value.content_type.clone(),
                content_language: clone_opt_string(&value.content_language),
                size: value.content_length,
            },
        )
    }

    /// The raw store metadata: every entry with its value base64 encoded.
    pub fn to_store_metadata(&self) -> (r: Vec<(String, String)>)
        ensures
            pairs_view(r@) == encoded_entries(self.metadata@),
            keys_upper(self.metadata@) ==> decoded_entries(pairs_view(r@)) == self.metadata@,
    {
        self.metadata.to_raw()
    }

    /// The store record for this metadata. Parsing it gives this metadata
    /// back when title and summary are present and every metadata key is
    /// upper-case.
    pub fn to_store(&self) -> (r: StoreBlob)
        ensures
            r.view() == store_of(self.view()),
            self.wf() && keys_upper(self.metadata@) ==> parse_store(r.view()) == Ok::<BlobView, Seq<char>>(self.view()),
    {
        let raw = self.metadata.to_raw();
        let tags = self.tags.to_store();
        let r = StoreBlob {
            name: self.filename.clone(),
            metadata: Some(raw),
            tags: Some(tags),
            content_type: self.content_type.clone(),
            content_language: clone_opt_string(&self.content_language),
            content_length: self.size,
            creation_time: self.created,
            last_modified: self.updated,
        };
        proof {
            lemma_store_round_trip(labels_of(self.tags@));
            lemma_canonical_round_trip(self.tags@);
            assert(r.view() == store_of(self.view()));
        }
        r
    }

    /// The title.
    pub fn title(&self) -> (r: &String)
        requires
            self.wf(),
        ensures
            lookup(self.metadata@, title_key()) == Some(r@),
    {
        self.metadata.get("BLOB_TITLE").unwrap()
    }

    /// The summary.
    pub fn summary(&self) -> (r: &String)
        requires
            self.wf(),
        ensures
            lookup(self.metadata@, summary_key()) == Some(r@),
    {
        self.metadata.get("BLOB_SUMMARY").unwrap()
    }

    /// A copy with the title set.
    pub fn with_title(&self, title: String) -> (r: BlobMetaData)
        ensures
            r.view() == (BlobView {
                metadata: inserted(self.metadata@, title_key(), title@),
                ..self.view()
            }),
            self.wf() ==> r.wf(),
    {
        let mut meta = self.clone();
        meta.metadata.insert("BLOB_TITLE".to_owned(), title);
        proof {
            crate::metadata::lemma_inserted_present(self.metadata@, title_key(), title@, summary_key());
        }
        meta
    }

    /// A copy with the summary set.
    pub fn with_summary(&self, summary: String) -> (r: BlobMetaData)
        ensures
            r.view() == (BlobView {
                metadata: inserted(self.metadata@, summary_key(), summary@),
                ..self.view()
            }),
            self.wf() ==> r.wf(),
    {
        let mut meta = self.clone();
        meta.metadata.insert("BLOB_SUMMARY".to_owned(), summary);
        proof {
            crate::metadata::lemma_inserted_present(self.metadata@, summary_key(), summary@, title_key());
        }
        meta
    }
}

} // verus!
