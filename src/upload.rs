//! Uploads: a blob's editable metadata with its content, and the form
//! fields that carry them.
use vstd::prelude::*;
use crate::blob::BlobMetaData;
use crate::metadata::{AzureMetadata, Entries};
use crate::tag::Tags;
use crate::text::{append_chars, chars_of, pairs_view, string_of};

verus! {

/// The editable part of a blob's metadata.
#[derive(Debug)]
pub struct BlobMetaDto {
    pub filename: String,
    pub metadata: AzureMetadata,
    pub tags: Tags,
    pub content_type: String,
    pub content_language: Option<String>,
}

/// A blob to upload: its metadata and its bytes.
#[derive(Debug)]
pub struct BlobUpload {
    pub meta: BlobMetaDto,
    pub content: Vec<u8>,
}

/// The form field that carries metadata entry `k`.
pub open spec fn metadata_field(k: Seq<char>) -> Seq<char> {
    "meta.metadata.["@ + k + "]"@
}

/// The content-language field, when there is a language.
pub open spec fn language_field(o: Option<String>) -> Entries {
    match o {
        Some(l) => seq![("meta.content_language"@, l@)],
        None => Seq::empty(),
    }
}

/// The form fields of an upload's metadata, in order: filename, tags, content
/// type, the content language when there is one, then one field per entry.
pub open spec fn form_fields_of(m: BlobMetaDto) -> Entries {
    seq![
        ("meta.filename"@, m.filename@),
        ("meta.tags.tags"@, m.tags@),
        ("meta.content_type"@, m.content_type@),
    ] + language_field(m.content_language) + m.metadata@.map_values(|p: (Seq<char>, Seq<char>)| (metadata_field(p.0), p.1))
}

impl BlobMetaDto {
    /// The editable part of blob metadata.
    pub fn from_blob(value: BlobMetaData) -> (r: BlobMetaDto)
        ensures
            r.filename == value.filename,
            r.metadata == value.metadata,
            r.tags == value.tags,
            r.content_type == value.content_type,
            r.content_language == value.content_language,
    {
        BlobMetaDto {
            filename: value.filename,
            metadata: value.metadata,
            tags: value.tags,
            content_type: value.content_type,
            content_language: value.content_language,
        }
    }
}

impl BlobUpload {
    /// An upload of a file's bytes under its name and type, with empty title
    /// and summary, no tags and no content language.
    pub fn from_file_parts(filename: String, content_type: String, content: Vec<u8>) -> (r: BlobUpload)
        ensures
            r.meta.filename == filename,
            r.meta.content_type == content_type,
            r.meta.content_language is None,
            r.meta.metadata@ == BlobMetaData::default_view().metadata,
            r.meta.tags@ == Seq::<char>::empty(),
            r.content == content,
    {
        BlobUpload {
            meta: BlobMetaDto {
                filename,
                metadata: AzureMetadata::default(),
                tags: Tags::new(),
                content_type,
                content_language: None,
            },
            content,
        }
    }

    /// The text fields of the upload form; the content travels as a binary
    /// part named `content`.
    pub fn form_fields(&self) -> (r: Vec<(String, String)>)
        ensures
            pairs_view(r@) == form_fields_of(self.meta),
    {
        let m = &self.meta;
        let mut out: Vec<(String, String)> = Vec::new();
        out.push(("meta.filename".to_owned(), m.filename.clone()));
        out.push(("meta.tags.tags".to_owned(), m.tags.as_str().to_owned()));
        out.push(("meta.content_type".to_owned(), m.content_type.clone()));
        let ghost head = pairs_view(out@);
        assert(head =~= seq![
            ("meta.filename"@, m.filename@),
            ("meta.tags.tags"@, m.tags@),
            ("meta.content_type"@, m.content_type@),
        ]);
        match &m.content_language {
            Some(l) => {
                out.push(("meta.content_language".to_owned(), l.clone()));
            },
            None => {},
        }
        let ghost lang_part = language_field(m.content_language);
        assert(pairs_view(out@) =~= head + lang_part);
        let ghost start = pairs_view(out@);
        let entries = m.metadata.entries();
        let ghost ev = pairs_view(entries@);
        let open = chars_of("meta.metadata.[");
        let close = chars_of("]");
        let mut i: usize = 0;
        while i < entries.len()
            invariant
                i <= ev.len(),
                ev == pairs_view(entries@),
                ev == m.metadata@,
                open@ == "meta.metadata.["@,
                close@ == "]"@,
                pairs_view(out@) == start + ev.subrange(0, i as int).map_values(
                    |p: (Seq<char>, Seq<char>)| (metadata_field(p.0), p.1),
                ),
            decreases ev.len() - i,
        {
            let mut name = open.clone();
            let k = chars_of(entries[i].0.as_str());
            append_chars(&mut name, &k);
            append_chars(&mut name, &close);
            let ghost before = pairs_view(out@);
            out.push((string_of(&name), entries[i].1.clone()));
            assert(pairs_view(out@) =~= before.push((metadata_field(ev[i as int].0), ev[i as int].1)));
            assert(ev.subrange(0, i + 1 as int).map_values(|p: (Seq<char>, Seq<char>)| (metadata_field(p.0), p.1))
                =~= ev.subrange(0, i as int).map_values(|p: (Seq<char>, Seq<char>)| (metadata_field(p.0), p.1)).push(
                (metadata_field(ev[i as int].0), ev[i as int].1)));
            i += 1;
        }
        assert(ev.subrange(0, ev.len() as int) =~= ev);
        out
    }
}

} // verus!
