//! Projects: markdown documents with an ordered list of images, stored under
//! the metadata keys `PROJECT_IMAGE_0`, `PROJECT_IMAGE_1`, ...
use vstd::prelude::*;
use crate::blob::{BlobMetaData, BlobView};
use crate::country::{Country, key_of};
use crate::digits::{all_digits, decimal, decimal_chars, digits_value, lemma_decimal, parse_digits};
use crate::error::Error;
use crate::markdown::{MarkdownMeta, markdown_filename, markdown_lang, no_slash, with_language};
use crate::metadata::{
    Entries, has_key, inserted, lemma_lookup_at, lemma_without_prefix, lookup, unique_keys,
    without_prefix,
};
use crate::text::{append_chars, chars_of, has_prefix, pairs_view, starts_with, string_of, suffix_from};

verus! {

pub open spec fn image_prefix() -> Seq<char> {
    seq!['P', 'R', 'O', 'J', 'E', 'C', 'T', '_', 'I', 'M', 'A', 'G', 'E', '_']
}

/// The key of the image at position `i`.
pub open spec fn image_key(i: nat) -> Seq<char> {
    image_prefix() + decimal(i)
}

/// The index of an image key `PROJECT_IMAGE_<digits>`, when the digits are
/// ASCII and their value fits in 64 bits.
pub open spec fn image_index(k: Seq<char>) -> Option<int> {
    if starts_with(k, image_prefix()) {
        let rest = k.subrange(14, k.len() as int);
        if all_digits(rest) && digits_value(rest) <= u64::MAX {
            Some(digits_value(rest))
        } else {
            None
        }
    } else {
        None
    }
}

/// The (index, value) pairs of the image entries, in entry order.
pub open spec fn indexed_images(s: Entries) -> Seq<(int, Seq<char>)>
    decreases s.len(),
{
    if s.len() == 0 {
        Seq::empty()
    } else {
        let init = indexed_images(s.drop_last());
        match image_index(s.last().0) {
            Some(n) => init.push((n, s.last().1)),
            None => init,
        }
    }
}

/// Where `x` goes in `s`: after every leading entry whose index is at most `x`.
pub open spec fn insert_pos(s: Seq<(int, Seq<char>)>, x: int) -> int
    decreases s.len(),
{
    if s.len() == 0 {
        0
    } else if s[0].0 > x {
        0
    } else {
        1 + insert_pos(s.drop_first(), x)
    }
}

/// The pairs sorted by index; pairs with equal indexes keep their order.
pub open spec fn sort_by_index(s: Seq<(int, Seq<char>)>) -> Seq<(int, Seq<char>)>
    decreases s.len(),
{
    if s.len() == 0 {
        s
    } else {
        let t = sort_by_index(s.drop_last());
        t.insert(insert_pos(t, s.last().0), s.last())
    }
}

/// The images that metadata holds, sorted by index.
pub open spec fn project_images(m: Entries) -> Seq<Seq<char>> {
    sort_by_index(indexed_images(m)).map_values(|e: (int, Seq<char>)| e.1)
}

/// `m` with each image set under its position's key, in order.
pub open spec fn append_images(m: Entries, images: Seq<Seq<char>>) -> Entries
    decreases images.len(),
{
    if images.len() == 0 {
        m
    } else {
        inserted(
            append_images(m, images.drop_last()),
            image_key((images.len() - 1) as nat),
            images.last(),
        )
    }
}

/// The metadata that a project emits: every earlier image key removed, then
/// the images under consecutive keys from 0.
pub open spec fn emitted_images(m: Entries, images: Seq<Seq<char>>) -> Entries {
    append_images(without_prefix(m, image_prefix()), images)
}

/// The image entries for `images`, in order.
pub open spec fn image_entries(images: Seq<Seq<char>>) -> Entries {
    Seq::new(images.len(), |i: int| (image_key(i as nat), images[i]))
}

pub open spec fn images_view(v: Seq<String>) -> Seq<Seq<char>> {
    v.map_values(|s: String| s@)
}

proof fn lemma_insert_pos_bounds(s: Seq<(int, Seq<char>)>, x: int)
    ensures
        0 <= insert_pos(s, x) <= s.len(),
        (forall|i: int| 0 <= i < s.len() ==> (#[trigger] s[i]).0 <= x) ==> insert_pos(s, x) == s.len(),
    decreases s.len(),
{
    if s.len() > 0 {
        lemma_insert_pos_bounds(s.drop_first(), x);
        if forall|i: int| 0 <= i < s.len() ==> (#[trigger] s[i]).0 <= x {
            assert(s[0].0 <= x);
            assert forall|i: int| 0 <= i < s.drop_first().len() implies (#[trigger] s.drop_first()[i]).0 <= x by {
                assert(s.drop_first()[i] == s[i + 1]);
            }
        }
    }
}

proof fn lemma_sort_len(s: Seq<(int, Seq<char>)>)
    ensures
        sort_by_index(s).len() == s.len(),
    decreases s.len(),
{
    if s.len() > 0 {
        lemma_sort_len(s.drop_last());
        lemma_insert_pos_bounds(sort_by_index(s.drop_last()), s.last().0);
    }
}

/// An image key reads back as its position.
pub proof fn lemma_image_key(i: nat)
    requires
        i <= u64::MAX,
    ensures
        image_index(image_key(i)) == Some(i as int),
        starts_with(image_key(i), image_prefix()),
{
    lemma_decimal(i);
    let k = image_key(i);
    assert(k.subrange(0, 14) =~= image_prefix());
    assert(k.subrange(14, k.len() as int) =~= decimal(i));
}

/// Pairs whose indexes are `0, 1, 2, ...` are already sorted.
proof fn lemma_sort_numbered(s: Seq<(int, Seq<char>)>)
    requires
        forall|i: int| 0 <= i < s.len() ==> (#[trigger] s[i]).0 == i,
    ensures
        sort_by_index(s) == s,
    decreases s.len(),
{
    if s.len() > 0 {
        let init = s.drop_last();
        assert forall|i: int| 0 <= i < init.len() implies (#[trigger] init[i]).0 == i by {
            assert(init[i] == s[i]);
        }
        lemma_sort_numbered(init);
        assert forall|i: int| 0 <= i < init.len() implies (#[trigger] init[i]).0 <= s.last().0 by {
            assert(init[i] == s[i]);
        }
        lemma_insert_pos_bounds(init, s.last().0);
        assert(init.insert(init.len() as int, s.last()) =~= s);
    }
}

/// Entries of which no key has the image prefix hold no image.
proof fn lemma_no_images(s: Entries)
    requires
        forall|i: int| 0 <= i < s.len() ==> !starts_with(#[trigger] s[i].0, image_prefix()),
    ensures
        indexed_images(s) == Seq::<(int, Seq<char>)>::empty(),
    decreases s.len(),
{
    if s.len() > 0 {
        let init = s.drop_last();
        assert forall|i: int| 0 <= i < init.len() implies !starts_with(#[trigger] init[i].0, image_prefix()) by {
            assert(init[i] == s[i]);
        }
        lemma_no_images(init);
        assert(!starts_with(s[s.len() - 1].0, image_prefix()));
    }
}

/// Appending the images to prefix-free entries adds one entry per image at
/// the end, and those entries read back as the images in order.
proof fn lemma_append_images(w: Entries, images: Seq<Seq<char>>)
    requires
        forall|i: int| 0 <= i < w.len() ==> !starts_with(#[trigger] w[i].0, image_prefix()),
        images.len() <= u64::MAX,
    ensures
        append_images(w, images) == w + image_entries(images),
        indexed_images(w + image_entries(images)) == Seq::new(images.len(), |i: int| (i, images[i])),
    decreases images.len(),
{
    if images.len() == 0 {
        assert(w + image_entries(images) =~= w);
        lemma_no_images(w);
        assert(Seq::new(images.len(), |i: int| (i, images[i])) =~= Seq::<(int, Seq<char>)>::empty());
    } else {
        let n = images.len() - 1;
        let init = images.drop_last();
        lemma_append_images(w, init);
        let prev = w + image_entries(init);
        let k = image_key(n as nat);
        lemma_image_key(n as nat);
        assert(!has_key(prev, k)) by {
            if has_key(prev, k) {
                let j = choose|j: int| 0 <= j < prev.len() && prev[j].0 == k;
                if j < w.len() {
                    assert(prev[j] == w[j]);
                } else {
                    let t = j - w.len();
                    assert(prev[j] == image_entries(init)[t]);
                    lemma_image_key(t as nat);
                }
            }
        }
        assert(prev.push((k, images.last())) =~= w + image_entries(images));
        let all = w + image_entries(images);
        assert(all.drop_last() =~= prev);
        assert(all.last() == (k, images.last()));
        assert(Seq::new(init.len(), |i: int| (i, init[i])).push((n, images.last()))
            =~= Seq::new(images.len(), |i: int| (i, images[i])));
    }
}

/// Emitting images and reading them back gives the same list; each image is
/// under the key of its position, and no other image key is left.
pub proof fn lemma_images_round_trip(m: Entries, images: Seq<Seq<char>>)
    requires
        unique_keys(m),
        images.len() <= u64::MAX,
    ensures
        project_images(emitted_images(m, images)) == images,
        forall|i: int| 0 <= i < images.len() ==> lookup(emitted_images(m, images), #[trigger] image_key(i as nat)) == Some(images[i]),
        forall|j: int| 0 <= j < emitted_images(m, images).len() && starts_with(#[trigger] emitted_images(m, images)[j].0, image_prefix())
            ==> exists|i: int| 0 <= i < images.len() && emitted_images(m, images)[j].0 == #[trigger] image_key(i as nat),
{
    let w = without_prefix(m, image_prefix());
    lemma_without_prefix(m, image_prefix());
    lemma_append_images(w, images);
    let e = emitted_images(m, images);
    let numbered = Seq::new(images.len(), |i: int| (i, images[i]));
    lemma_sort_numbered(numbered);
    assert(numbered.map_values(|x: (int, Seq<char>)| x.1) =~= images);
    assert(unique_keys(e)) by {
        assert forall|a: int, b: int| 0 <= a < b < e.len() implies e[a].0 != e[b].0 by {
            if b < w.len() {
                assert(e[a] == w[a] && e[b] == w[b]);
            } else if a < w.len() {
                lemma_image_key((b - w.len()) as nat);
                assert(e[b] == image_entries(images)[b - w.len()]);
                assert(e[a] == w[a]);
            } else {
                lemma_image_key((a - w.len()) as nat);
                lemma_image_key((b - w.len()) as nat);
                assert(e[a] == image_entries(images)[a - w.len()]);
                assert(e[b] == image_entries(images)[b - w.len()]);
            }
        }
    }
    assert forall|i: int| 0 <= i < images.len() implies lookup(e, #[trigger] image_key(i as nat)) == Some(images[i]) by {
        assert(e[w.len() + i] == image_entries(images)[i]);
        lemma_lookup_at(e, w.len() + i);
    }
    assert forall|j: int| 0 <= j < e.len() && starts_with(#[trigger] e[j].0, image_prefix())
        implies exists|i: int| 0 <= i < images.len() && e[j].0 == #[trigger] image_key(i as nat) by {
        if j < w.len() {
            assert(e[j] == w[j]);
        } else {
            assert(e[j] == image_entries(images)[j - w.len()]);
            assert(e[j].0 == image_key((j - w.len()) as nat));
        }
    }
}

/// A project's metadata: a markdown document and its ordered images.
#[derive(Debug, PartialEq)]
pub struct ProjectMetaData {
    pub meta: MarkdownMeta,
    pub images: Vec<String>,
}

/// A project with its text.
pub struct ProjectData {
    pub meta: ProjectMetaData,
    pub content: String,
}

/// The characters of the image key prefix.
fn image_prefix_chars() -> (r: Vec<char>)
    ensures
        r@ == image_prefix(),
{
    let r = vec!['P', 'R', 'O', 'J', 'E', 'C', 'T', '_', 'I', 'M', 'A', 'G', 'E', '_'];
    assert(r@ =~= image_prefix());
    r
}

/// The images of metadata entries, sorted by index.
fn images_of(entries: &Vec<(String, String)>) -> (r: Vec<String>)
    ensures
        images_view(r@) == project_images(pairs_view(entries@)),
{
    let ghost ev = pairs_view(entries@);
    let prefix = image_prefix_chars();
    let mut found: Vec<(u64, String)> = Vec::new();
    let mut i: usize = 0;
    assert(ev.subrange(0, 0) =~= Seq::<(Seq<char>, Seq<char>)>::empty());
    while i < entries.len()
        invariant
            i <= ev.len(),
            ev == pairs_view(entries@),
            prefix@ == image_prefix(),
            found@.map_values(|e: (u64, String)| (e.0 as int, e.1@)) == indexed_images(ev.subrange(0, i as int)),
        decreases ev.len() - i,
    {
        let ghost before = found@.map_values(|e: (u64, String)| (e.0 as int, e.1@));
        let key = chars_of(entries[i].0.as_str());
        let ghost cur = ev.subrange(0, i + 1 as int);
        assert(cur.drop_last() =~= ev.subrange(0, i as int));
        assert(cur.last() == ev[i as int]);
        assert(ev[i as int].0 == key@);
        if has_prefix(&key, &prefix) {
            let rest = suffix_from(&key, 14);
            match parse_digits(&rest) {
                Some(n) => {
                    proof {
                        crate::digits::lemma_digits_nonneg(rest@);
                    }
                    assert(image_index(key@) == Some(n as int));
                    let v = entries[i].1.clone();
                    found.push((n, v));
                    assert(found@.map_values(|e: (u64, String)| (e.0 as int, e.1@)) =~= before.push((n as int, ev[i as int].1)));
                },
                None => {
                    assert(image_index(key@) is None);
                },
            }
        } else {
            assert(image_index(key@) is None);
        }
        i += 1;
    }
    assert(ev.subrange(0, ev.len() as int) =~= ev);
    let ghost all = found@.map_values(|e: (u64, String)| (e.0 as int, e.1@));
    let mut sorted: Vec<(u64, String)> = Vec::new();
    let mut k: usize = 0;
    assert(all.subrange(0, 0) =~= Seq::<(int, Seq<char>)>::empty());
    while k < found.len()
        invariant
            k <= found@.len(),
            all == found@.map_values(|e: (u64, String)| (e.0 as int, e.1@)),
            sorted@.map_values(|e: (u64, String)| (e.0 as int, e.1@)) == sort_by_index(all.subrange(0, k as int)),
        decreases found@.len() - k,
    {
        let ghost t = sorted@.map_values(|e: (u64, String)| (e.0 as int, e.1@));
        let x = found[k].0;
        let mut j: usize = 0;
        proof {
            lemma_insert_pos_bounds(t, x as int);
            assert(t.subrange(0, t.len() as int) =~= t);
        }
        while j < sorted.len() && sorted[j].0 <= x
            invariant
                j <= sorted@.len(),
                t == sorted@.map_values(|e: (u64, String)| (e.0 as int, e.1@)),
                insert_pos(t, x as int) == j + insert_pos(t.subrange(j as int, t.len() as int), x as int),
            decreases sorted@.len() - j,
        {
            assert(t.subrange(j as int, t.len() as int).drop_first() =~= t.subrange(j + 1 as int, t.len() as int));
            j += 1;
        }
        proof {
            if j < sorted@.len() {
                assert(t.subrange(j as int, t.len() as int)[0] == t[j as int]);
            } else {
                assert(t.subrange(j as int, t.len() as int) =~= Seq::<(int, Seq<char>)>::empty());
            }
        }
        let ghost cur = all.subrange(0, k + 1 as int);
        assert(cur.drop_last() =~= all.subrange(0, k as int));
        assert(cur.last() == all[k as int]);
        sorted.insert(j, (x, found[k].1.clone()));
        assert(sorted@.map_values(|e: (u64, String)| (e.0 as int, e.1@)) =~= t.insert(j as int, all[k as int]));
        k += 1;
    }
    assert(all.subrange(0, all.len() as int) =~= all);
    let mut out: Vec<String> = Vec::new();
    let mut q: usize = 0;
    let ghost sv = sorted@.map_values(|e: (u64, String)| (e.0 as int, e.1@));
    while q < sorted.len()
        invariant
            q <= sorted@.len(),
            sv == sorted@.map_values(|e: (u64, String)| (e.0 as int, e.1@)),
            images_view(out@) == sv.map_values(|e: (int, Seq<char>)| e.1).subrange(0, q as int),
        decreases sorted@.len() - q,
    {
        let ghost before = images_view(out@);
        let v = sorted[q].1.clone();
        assert(sv[q as int].1 == v@);
        out.push(v);
        assert(images_view(out@) =~= before.push(v@));
        q += 1;
        assert(images_view(out@) =~= sv.map_values(|e: (int, Seq<char>)| e.1).subrange(0, q as int));
    }
    assert(sv.map_values(|e: (int, Seq<char>)| e.1).subrange(0, sv.len() as int) =~= sv.map_values(|e: (int, Seq<char>)| e.1));
    out
}

impl ProjectMetaData {
    /// Parses blob metadata as a project: first as a markdown document, then
    /// the images are read from the `PROJECT_IMAGE_<n>` keys, sorted by `n`.
    pub fn try_from_blob(value: BlobMetaData) -> (r: Result<ProjectMetaData, Error>)
        ensures
            match markdown_lang(value.view().filename) {
                Ok(c) => r matches Ok(p) && p.meta.view() == with_language(value.view(), c)
                    && images_view(p.images@) == project_images(value.view().metadata),
                Err(msg) => r matches Err(Error::Database(e)) && e@ == msg,
            },
    {
        let meta = match MarkdownMeta::try_from_blob(value) {
            Ok(m) => m,
            Err(e) => {
                return Err(e);
            },
        };
        let images = images_of(meta.blob().metadata.entries());
        Ok(ProjectMetaData { meta, images })
    }

    /// An empty project: an empty markdown document without images.
    pub fn empty(id: &str, lang: Country) -> (r: ProjectMetaData)
        requires
            no_slash(id@),
        ensures
            r.meta.view() == (BlobView {
                filename: markdown_filename(id@, lang),
                content_type: "text/markdown"@,
                content_language: Some(key_of(lang)),
                ..BlobMetaData::default_view()
            }),
            r.images@.len() == 0,
    {
        ProjectMetaData { meta: MarkdownMeta::empty(id, lang), images: Vec::new() }
    }

    /// The splash image, if any.
    pub fn splash(&self) -> (r: Option<&String>)
        ensures
            match r {
                Some(s) => lookup(self.meta.view().metadata, "PROJECT_SPLASH"@) == Some(s@),
                None => lookup(self.meta.view().metadata, "PROJECT_SPLASH"@) is None,
            },
    {
        self.meta.blob().metadata.get("PROJECT_SPLASH")
    }

    /// Sets the splash image.
    pub fn set_splash(&mut self, splash: String)
        ensures
            final(self).meta.view() == (BlobView {
                metadata: inserted(old(self).meta.view().metadata, "PROJECT_SPLASH"@, splash@),
                ..old(self).meta.view()
            }),
            final(self).images@ == old(self).images@,
    {
        self.meta.insert_metadata("PROJECT_SPLASH".to_owned(), splash);
    }

    /// The blob metadata with the images written out: every earlier
    /// `PROJECT_IMAGE_*` key removed, then image `i` under `PROJECT_IMAGE_<i>`.
    /// Reading the result back gives the same images, each under the key of
    /// its position, and no other image key is left.
    pub fn to_blob(&self) -> (r: BlobMetaData)
        ensures
            r.view() == (BlobView {
                metadata: emitted_images(self.meta.view().metadata, images_view(self.images@)),
                ..self.meta.view()
            }),
            project_images(r.view().metadata) == images_view(self.images@),
            forall|i: int| 0 <= i < self.images@.len() ==> lookup(r.view().metadata, #[trigger] image_key(i as nat)) == Some(self.images@[i]@),
            forall|j: int| 0 <= j < r.view().metadata.len() && starts_with(#[trigger] r.view().metadata[j].0, image_prefix())
                ==> exists|i: int| 0 <= i < self.images@.len() && r.view().metadata[j].0 == #[trigger] image_key(i as nat),
    {
        let _ = self.meta.blob().metadata.entries();
        let count: usize = self.images.len();
        proof {
            assert(self.images@.len() == count);
            assert(self.images@.len() <= u64::MAX);
            lemma_images_round_trip(self.meta.view().metadata, images_view(self.images@));
        }
        let mut blob = self.meta.blob().clone();
        let prefix = image_prefix_chars();
        blob.metadata.remove_prefixed(&prefix);
        let ghost base = blob.metadata@;
        let ghost imgs = images_view(self.images@);
        let mut i: usize = 0;
        assert(imgs.subrange(0, 0) =~= Seq::<Seq<char>>::empty());
        while i < self.images.len()
            invariant
                i <= self.images@.len(),
                imgs == images_view(self.images@),
                prefix@ == image_prefix(),
                blob.view() == (BlobView {
                    metadata: append_images(base, imgs.subrange(0, i as int)),
                    ..self.meta.view()
                }),
            decreases self.images@.len() - i,
        {
            let mut key = prefix.clone();
            let digits = decimal_chars(i as u64);
            append_chars(&mut key, &digits);
            let ghost cur = imgs.subrange(0, i + 1 as int);
            assert(cur.drop_last() =~= imgs.subrange(0, i as int));
            assert(key@ == image_key(i as nat));
            blob.metadata.insert(string_of(&key), self.images[i].clone());
            i += 1;
        }
        assert(imgs.subrange(0, imgs.len() as int) =~= imgs);
        blob
    }

    /// The blob metadata with the images written out, taken out.
    pub fn into_blob(self) -> (r: BlobMetaData)
        ensures
            r.view() == (BlobView {
                metadata: emitted_images(self.meta.view().metadata, images_view(self.images@)),
                ..self.meta.view()
            }),
            project_images(r.view().metadata) == images_view(self.images@),
    {
        self.to_blob()
    }
}

} // verus!
