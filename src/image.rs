//! Images: blobs whose content type starts with `image`.
use vstd::prelude::*;
use crate::blob::{BlobMetaData, BlobView};
use crate::error::Error;
use crate::text::{chars_of, has_prefix, starts_with};

verus! {

pub open spec fn image_type_prefix() -> Seq<char> {
    seq!['i', 'm', 'a', 'g', 'e']
}

/// An image's metadata: its content type always starts with `image`.
#[derive(Debug, PartialEq)]
pub struct ImageMetaData {
    blob: BlobMetaData,
}

impl ImageMetaData {
    #[verifier::type_invariant]
    spec fn is_image(self) -> bool {
        starts_with(self.blob.content_type@, image_type_prefix())
    }

    /// The metadata, as characters.
    pub closed spec fn view(&self) -> BlobView {
        self.blob.view()
    }

    /// The blob metadata.
    pub fn blob(&self) -> (r: &BlobMetaData)
        ensures
            r.view() == self.view(),
            starts_with(r.content_type@, image_type_prefix()),
    {
        proof {
            use_type_invariant(self);
        }
        &self.blob
    }

    /// The blob metadata, taken out.
    pub fn into_blob(self) -> (r: BlobMetaData)
        ensures
            r.view() == self.view(),
    {
        self.blob
    }

    /// Accepts blob metadata whose content type starts with `image`; fails
    /// with "File is not an image!" otherwise.
    pub fn try_from_blob(value: BlobMetaData) -> (r: Result<ImageMetaData, Error>)
        ensures
            if starts_with(value.content_type@, image_type_prefix()) {
                r matches Ok(m) && m.view() == value.view()
            } else {
                r matches Err(Error::Database(e)) && e@ == "File is not an image!"@
            },
    {
        let t = chars_of(value.content_type.as_str());
        let p = vec!['i', 'm', 'a', 'g', 'e'];
        assert(p@ =~= image_type_prefix());
        if !has_prefix(&t, &p) {
            return Err(Error::Database("File is not an image!".to_owned()));
        }
        Ok(ImageMetaData { blob: value })
    }
}

} // verus!
