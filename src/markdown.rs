//! Markdown documents: blobs named `<id>/<lang>.<ext>`.
use vstd::prelude::*;
use vstd::string::StrSliceExecFns;
use crate::blob::{BlobMetaData, BlobView};
use crate::country::{Country, country_of_key, key_of};
use crate::error::Error;
use crate::metadata::inserted;
use crate::text::{append_chars, chars_of, find_char, prefix_to, string_of, suffix_from};

verus! {

/// `i` is the position of the first `c` in `s`.
pub open spec fn is_first(s: Seq<char>, c: char, i: int) -> bool {
    0 <= i < s.len() && s[i] == c && forall|j: int| 0 <= j < i ==> s[j] != c
}

/// `s` split around its first `c`, if it holds one.
pub open spec fn split_once(s: Seq<char>, c: char) -> Option<(Seq<char>, Seq<char>)> {
    if exists|i: int| is_first(s, c, i) {
        let i = choose|i: int| is_first(s, c, i);
        Some((s.subrange(0, i), s.subrange(i + 1, s.len() as int)))
    } else {
        None
    }
}

pub open spec fn invalid_lang_message(lang: Seq<char>) -> Seq<char> {
    seq!['"'] + lang + "\" is not a valid lang"@
}

/// The language of a markdown filename, or the message of why it has none:
/// no `/` (no id), no `.` after it (no lang), or no country key before that `.`.
pub open spec fn markdown_lang(f: Seq<char>) -> Result<Country, Seq<char>> {
    match split_once(f, '/') {
        None => Err("File has no id!"@),
        Some((_, rest)) => match split_once(rest, '.') {
            None => Err("File has no lang!"@),
            Some((lang, _)) => match country_of_key(lang) {
                Some(c) => Ok(c),
                None => Err(invalid_lang_message(lang)),
            },
        },
    }
}

/// The id of a markdown filename: what precedes the first `/`.
pub open spec fn markdown_id(f: Seq<char>) -> Seq<char> {
    match split_once(f, '/') {
        Some((id, _)) => id,
        None => f,
    }
}

/// The filename of document `id` in language `c`: `<id>/<key>.md`.
pub open spec fn markdown_filename(id: Seq<char>, c: Country) -> Seq<char> {
    id + seq!['/'] + key_of(c) + seq!['.', 'm', 'd']
}

/// The metadata of a parsed document: the content language set to the
/// language's key when it was absent.
pub open spec fn with_language(v: BlobView, c: Country) -> BlobView {
    match v.content_language {
        Some(_) => v,
        None => BlobView { content_language: Some(key_of(c)), ..v },
    }
}

pub open spec fn no_slash(id: Seq<char>) -> bool {
    forall|j: int| 0 <= j < id.len() ==> id[j] != '/'
}

proof fn lemma_first_unique(s: Seq<char>, c: char, i: int, j: int)
    requires
        is_first(s, c, i),
        is_first(s, c, j),
    ensures
        i == j,
{
    if i < j {
        assert(s[i] != c);
    } else if j < i {
        assert(s[j] != c);
    }
}

/// The split of `s` around its first `c`, computed.
fn split_first(s: &Vec<char>, c: char) -> (r: Option<(Vec<char>, Vec<char>)>)
    ensures
        match r {
            Some((a, b)) => split_once(s@, c) == Some((a@, b@)),
            None => split_once(s@, c) is None,
        },
{
    match find_char(s, c) {
        Some(i) => {
            proof {
                assert(is_first(s@, c, i as int));
                let j = choose|j: int| is_first(s@, c, j);
                lemma_first_unique(s@, c, i as int, j);
            }
            let n = s.len();
            assert(i < n);
            Some((prefix_to(s, i), suffix_from(s, i + 1)))
        },
        None => {
            assert(!exists|i: int| is_first(s@, c, i));
            None
        },
    }
}

/// The position of the first `/`, and the language of the name.
fn parse_name(f: &String) -> (r: Result<(usize, Country), String>)
    ensures
        match r {
            Ok((i, c)) => markdown_lang(f@) == Ok::<Country, Seq<char>>(c) && is_first(f@, '/', i as int),
            Err(msg) => markdown_lang(f@) == Err::<Country, Seq<char>>(msg@),
        },
{
    let s = chars_of(f.as_str());
    let slash = match find_char(&s, '/') {
        Some(i) => i,
        None => {
            assert(!exists|i: int| is_first(s@, '/', i));
            return Err("File has no id!".to_owned());
        },
    };
    proof {
        assert(is_first(s@, '/', slash as int));
        let j = choose|j: int| is_first(s@, '/', j);
        lemma_first_unique(s@, '/', slash as int, j);
    }
    let n = s.len();
    assert(slash < n);
    let rest = suffix_from(&s, slash + 1);
    let (lang, _) = match split_first(&rest, '.') {
        Some(p) => p,
        None => {
            return Err("File has no lang!".to_owned());
        },
    };
    if lang.len() == 2 && lang[0] == 'e' && lang[1] == 'n' {
        assert(lang@ =~= key_of(Country::UnitedKingdom));
        Ok((slash, Country::UnitedKingdom))
    } else if lang.len() == 2 && lang[0] == 'p' && lang[1] == 'l' {
        assert(lang@ =~= key_of(Country::Poland));
        Ok((slash, Country::Poland))
    } else {
        assert(country_of_key(lang@) is None);
        let mut msg = vec!['"'];
        append_chars(&mut msg, &lang);
        let tail = chars_of("\" is not a valid lang");
        append_chars(&mut msg, &tail);
        assert(msg@ =~= invalid_lang_message(lang@));
        Err(string_of(&msg))
    }
}

/// A markdown document's metadata: its filename always follows the
/// `<id>/<lang>.<ext>` grammar with a known language.
#[derive(Debug, PartialEq)]
pub struct MarkdownMeta {
    blob: BlobMetaData,
}

/// A markdown document with its text.
pub struct MarkdownData {
    pub meta: MarkdownMeta,
    pub content: String,
}

impl MarkdownMeta {
    #[verifier::type_invariant]
    spec fn grammar_holds(self) -> bool {
        markdown_lang(self.blob.filename@) is Ok
    }

    /// The metadata, as characters.
    pub closed spec fn view(&self) -> BlobView {
        self.blob.view()
    }

    /// The blob metadata.
    pub fn blob(&self) -> (r: &BlobMetaData)
        ensures
            r.view() == self.view(),
            markdown_lang(r.filename@) is Ok,
    {
        proof {
            use_type_invariant(self);
        }
        &self.blob
    }

    /// The blob metadata, taken out.
    pub fn into_blob(self) -> (r: BlobMetaData)
        ensures
            r.view() == self.view(),
    {
        self.blob
    }

    /// Parses blob metadata as a markdown document. Fails with a database
    /// error when the filename has no `/`, no `.` after it, or no known
    /// language before that `.`. A missing content language is set to the
    /// language's key.
    pub fn try_from_blob(value: BlobMetaData) -> (r: Result<MarkdownMeta, Error>)
        ensures
            match markdown_lang(value.view().filename) {
                Ok(c) => r matches Ok(m) && m.view() == with_language(value.view(), c),
                Err(msg) => r matches Err(Error::Database(e)) && e@ == msg,
            },
    {
        let c = match parse_name(&value.filename) {
            Ok((_, c)) => c,
            Err(msg) => {
                return Err(Error::Database(msg));
            },
        };
        match &value.content_language {
            Some(_) => Ok(MarkdownMeta { blob: value }),
            None => {
                let mut blob = value;
                blob.content_language = Some(c.key().to_owned());
                Ok(MarkdownMeta { blob })
            },
        }
    }

    /// The filename of document `id` in language `lang`: `<id>/<key>.md`.
    pub fn create_filename(id: &str, lang: Country) -> (r: String)
        ensures
            r@ == markdown_filename(id@, lang),
    {
        let mut s = chars_of(id);
        s.push('/');
        let k = chars_of(lang.key());
        append_chars(&mut s, &k);
        s.push('.');
        s.push('m');
        s.push('d');
        assert(s@ =~= markdown_filename(id@, lang));
        string_of(&s)
    }

    /// An empty document: default metadata under the document's filename,
    /// of type `text/markdown`, in language `lang`.
    pub fn empty(id: &str, lang: Country) -> (r: MarkdownMeta)
        requires
            no_slash(id@),
        ensures
            r.view() == (BlobView {
                filename: markdown_filename(id@, lang),
                content_type: "text/markdown"@,
                content_language: Some(key_of(lang)),
                ..BlobMetaData::default_view()
            }),
    {
        let mut blob = BlobMetaData::default();
        blob.filename = MarkdownMeta::create_filename(id, lang);
        blob.content_type = "text/markdown".to_owned();
        blob.content_language = Some(lang.key().to_owned());
        proof {
            lemma_filename_grammar(id@, lang);
        }
        MarkdownMeta { blob }
    }

    /// The document id: what precedes the first `/` of the filename.
    pub fn id(&self) -> (r: &str)
        ensures
            r@ == markdown_id(self.view().filename),
    {
        proof {
            use_type_invariant(self);
        }
        match parse_name(&self.blob.filename) {
            Ok((i, _)) => {
                proof {
                    let j = choose|j: int| is_first(self.blob.filename@, '/', j);
                    lemma_first_unique(self.blob.filename@, '/', i as int, j);
                }
                self.blob.filename.as_str().substring_char(0, i)
            },
            Err(_) => {
                proof {
                    assert(false);
                }
                self.blob.filename.as_str()
            },
        }
    }

    /// The document language.
    pub fn lang(&self) -> (r: Country)
        ensures
            markdown_lang(self.view().filename) == Ok::<Country, Seq<char>>(r),
    {
        proof {
            use_type_invariant(self);
        }
        match parse_name(&self.blob.filename) {
            Ok((_, c)) => c,
            Err(_) => {
                proof {
                    assert(false);
                }
                Country::UnitedKingdom
            },
        }
    }

    /// Sets a metadata entry.
    pub fn insert_metadata(&mut self, key: String, value: String)
        ensures
            final(self).view() == (BlobView {
                metadata: inserted(old(self).view().metadata, key@, value@),
                ..old(self).view()
            }),
    {
        proof {
            use_type_invariant(&*self);
        }
        let mut blob = self.blob.clone();
        blob.metadata.insert(key, value);
        *self = MarkdownMeta { blob };
    }
}

impl Clone for MarkdownMeta {
    fn clone(&self) -> (r: MarkdownMeta)
        ensures
            r.view() == self.view(),
    {
        proof {
            use_type_invariant(self);
        }
        MarkdownMeta { blob: self.blob.clone() }
    }
}

/// The filename of a document whose id has no `/` reads back as that id
/// and language.
pub proof fn lemma_filename_grammar(id: Seq<char>, c: Country)
    requires
        no_slash(id),
    ensures
        markdown_lang(markdown_filename(id, c)) == Ok::<Country, Seq<char>>(c),
        markdown_id(markdown_filename(id, c)) == id,
{
    let f = markdown_filename(id, c);
    let n = id.len() as int;
    assert(is_first(f, '/', n));
    let j = choose|j: int| is_first(f, '/', j);
    lemma_first_unique(f, '/', n, j);
    let rest = f.subrange(n + 1, f.len() as int);
    assert(rest =~= key_of(c) + seq!['.', 'm', 'd']);
    assert(is_first(rest, '.', 2));
    let k = choose|k: int| is_first(rest, '.', k);
    lemma_first_unique(rest, '.', 2, k);
    assert(rest.subrange(0, 2) =~= key_of(c));
    assert(f.subrange(0, n) =~= id);
}

} // verus!
