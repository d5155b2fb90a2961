//! Blog posts: markdown documents with a cover image and an optional
//! project reference.
use vstd::prelude::*;
use crate::blob::{BlobMetaData, BlobView};
use crate::country::{Country, key_of};
use crate::error::Error;
use crate::markdown::{MarkdownMeta, markdown_filename, markdown_lang, no_slash, with_language};
use crate::metadata::{inserted, lemma_inserted_present, lookup};

verus! {

pub open spec fn image_key() -> Seq<char> {
    "BLOG_IMAGE"@
}

pub open spec fn project_key() -> Seq<char> {
    "BLOG_PROJECT"@
}

/// A blog post's metadata: a markdown document whose metadata always holds
/// `BLOG_IMAGE`.
#[derive(Debug, PartialEq)]
pub struct BlogMetaData {
    meta: MarkdownMeta,
}

/// A blog post with its text.
pub struct BlogData {
    pub meta: BlogMetaData,
    pub content: String,
}

impl BlogMetaData {
    #[verifier::type_invariant]
    spec fn has_image(self) -> bool {
        lookup(self.meta.view().metadata, image_key()) is Some
    }

    /// The metadata, as characters.
    pub closed spec fn view(&self) -> BlobView {
        self.meta.view()
    }

    /// The markdown document.
    pub fn markdown(&self) -> (r: &MarkdownMeta)
        ensures
            r.view() == self.view(),
    {
        &self.meta
    }

    /// The blob metadata, taken out.
    pub fn into_blob(self) -> (r: BlobMetaData)
        ensures
            r.view() == self.view(),
    {
        self.meta.into_blob()
    }

    /// Parses blob metadata as a blog post: first as a markdown document, then
    /// `BLOG_IMAGE` must be present ("File has no image!" otherwise).
    pub fn try_from_blob(value: BlobMetaData) -> (r: Result<BlogMetaData, Error>)
        ensures
            match markdown_lang(value.view().filename) {
                Ok(c) => if lookup(value.view().metadata, image_key()) is Some {
                    r matches Ok(b) && b.view() == with_language(value.view(), c)
                } else {
                    r matches Err(Error::Database(e)) && e@ == "File has no image!"@
                },
                Err(msg) => r matches Err(Error::Database(e)) && e@ == msg,
            },
    {
        let meta = match MarkdownMeta::try_from_blob(value) {
            Ok(m) => m,
            Err(e) => {
                return Err(e);
            },
        };
        if meta.blob().metadata.get("BLOG_IMAGE").is_none() {
            return Err(Error::Database("File has no image!".to_owned()));
        }
        Ok(BlogMetaData { meta })
    }

    /// An empty post: an empty markdown document with an empty cover image.
    pub fn empty(id: &str, lang: Country) -> (r: BlogMetaData)
        requires
            no_slash(id@),
        ensures
            r.view() == (BlobView {
                filename: markdown_filename(id@, lang),
                content_type: "text/markdown"@,
                content_language: Some(key_of(lang)),
                metadata: inserted(BlobMetaData::default_view().metadata, image_key(), Seq::empty()),
                ..BlobMetaData::default_view()
            }),
    {
        let mut meta = MarkdownMeta::empty(id, lang);
        meta.insert_metadata("BLOG_IMAGE".to_owned(), String::new());
        proof {
            lemma_inserted_present(BlobMetaData::default_view().metadata, image_key(), Seq::empty(), image_key());
        }
        BlogMetaData { meta }
    }

    /// The referenced project, if any.
    pub fn project(&self) -> (r: Option<&String>)
        ensures
            match r {
                Some(p) => lookup(self.view().metadata, project_key()) == Some(p@),
                None => lookup(self.view().metadata, project_key()) is None,
            },
    {
        self.meta.blob().metadata.get("BLOG_PROJECT")
    }

    /// Sets the referenced project.
    pub fn set_project(&mut self, project: String)
        ensures
            final(self).view() == (BlobView {
                metadata: inserted(old(self).view().metadata, project_key(), project@),
                ..old(self).view()
            }),
    {
        proof {
            use_type_invariant(&*self);
        }
        let mut meta = self.meta.clone();
        meta.insert_metadata("BLOG_PROJECT".to_owned(), project);
        proof {
            lemma_inserted_present(self.meta.view().metadata, project_key(), project@, image_key());
        }
        *self = BlogMetaData { meta };
    }

    /// The cover image.
    pub fn image(&self) -> (r: &String)
        ensures
            lookup(self.view().metadata, image_key()) == Some(r@),
    {
        proof {
            use_type_invariant(self);
        }
        self.meta.blob().metadata.get("BLOG_IMAGE").unwrap()
    }

    /// Sets the cover image.
    pub fn set_image(&mut self, image: String)
        ensures
            final(self).view() == (BlobView {
                metadata: inserted(old(self).view().metadata, image_key(), image@),
                ..old(self).view()
            }),
    {
        let mut meta = self.meta.clone();
        meta.insert_metadata("BLOG_IMAGE".to_owned(), image);
        proof {
            lemma_inserted_present(self.meta.view().metadata, image_key(), image@, image_key());
        }
        *self = BlogMetaData { meta };
    }
}

} // verus!
