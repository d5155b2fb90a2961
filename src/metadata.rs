//! The decoded user metadata of a blob: an insertion-ordered map from
//! upper-case key to text, with unique keys.
use vstd::prelude::*;
use vstd::utf8::{decode_utf8, valid_utf8};
use crate::codec::{Base64Engine, base64_bytes, decoded_text, encoded_text, utf8_text};
use crate::text::{chars_of, has_prefix, pairs_view, starts_with, upper_of, upper_stable, uppercase};

verus! {

/// A list of (key, value) pairs, as characters.
pub type Entries = Seq<(Seq<char>, Seq<char>)>;

/// No key occurs twice.
pub open spec fn unique_keys(s: Entries) -> bool {
    forall|i: int, j: int| 0 <= i < j < s.len() ==> s[i].0 != s[j].0
}

/// Some entry has key `k`.
pub open spec fn has_key(s: Entries, k: Seq<char>) -> bool {
    exists|i: int| 0 <= i < s.len() && s[i].0 == k
}

/// The value of the last entry with key `k`.
pub open spec fn lookup(s: Entries, k: Seq<char>) -> Option<Seq<char>>
    decreases s.len(),
{
    if s.len() == 0 {
        None
    } else if s.last().0 == k {
        Some(s.last().1)
    } else {
        lookup(s.drop_last(), k)
    }
}

/// `s` with key `k` set to `v`: the entry replaced in place when `k` is
/// present, else appended.
pub open spec fn inserted(s: Entries, k: Seq<char>, v: Seq<char>) -> Entries {
    if has_key(s, k) {
        s.update(choose|i: int| 0 <= i < s.len() && s[i].0 == k, (k, v))
    } else {
        s.push((k, v))
    }
}

/// `s` without the entries whose key starts with `p`.
pub open spec fn without_prefix(s: Entries, p: Seq<char>) -> Entries
    decreases s.len(),
{
    if s.len() == 0 {
        s
    } else {
        let init = without_prefix(s.drop_last(), p);
        if starts_with(s.last().0, p) {
            init
        } else {
            init.push(s.last())
        }
    }
}

/// What is left keeps no key with the prefix, holds only entries of `s`, and
/// keeps keys unique.
pub proof fn lemma_without_prefix(s: Entries, p: Seq<char>)
    ensures
        forall|i: int| 0 <= i < without_prefix(s, p).len() ==> !starts_with(#[trigger] without_prefix(s, p)[i].0, p),
        forall|i: int| 0 <= i < without_prefix(s, p).len() ==> s.contains(#[trigger] without_prefix(s, p)[i]),
        unique_keys(s) ==> unique_keys(without_prefix(s, p)),
    decreases s.len(),
{
    if s.len() > 0 {
        let init = s.drop_last();
        lemma_without_prefix(init, p);
        let w0 = without_prefix(init, p);
        let w = without_prefix(s, p);
        assert forall|i: int| 0 <= i < w.len() implies s.contains(#[trigger] w[i]) by {
            if i < w0.len() {
                assert(w[i] == w0[i]);
                assert(init.contains(w0[i]));
                let j = choose|j: int| 0 <= j < init.len() && init[j] == w0[i];
                assert(s[j] == w0[i]);
            } else {
                assert(s[s.len() - 1] == w[i]);
            }
        }
        if unique_keys(s) {
            assert(unique_keys(init)) by {
                assert forall|a: int, b: int| 0 <= a < b < init.len() implies init[a].0 != init[b].0 by {
                    assert(init[a] == s[a] && init[b] == s[b]);
                }
            }
            if !starts_with(s.last().0, p) {
                assert forall|a: int, b: int| 0 <= a < b < w.len() implies w[a].0 != w[b].0 by {
                    if b == w.len() - 1 {
                        assert(init.contains(w0[a]));
                        let j = choose|j: int| 0 <= j < init.len() && init[j] == w0[a];
                        assert(s[j].0 != s[s.len() - 1].0);
                    } else {
                        assert(w[a] == w0[a] && w[b] == w0[b]);
                    }
                }
            }
        }
    }
}

/// Text that stands for a value whose base64 is invalid.
pub open spec fn invalid_base64_text() -> Seq<char> {
    "Invalid base64"@
}

/// Text that stands for a value whose bytes are no UTF-8.
pub open spec fn invalid_utf8_text() -> Seq<char> {
    "Invalid utf8"@
}

/// The text of a stored value: its base64 decoded as UTF-8, or the text
/// that names why that failed.
pub open spec fn stored_value_text(v: Seq<char>) -> Seq<char> {
    match base64_bytes(v) {
        None => invalid_base64_text(),
        Some(b) => if valid_utf8(b) {
            decode_utf8(b)
        } else {
            invalid_utf8_text()
        },
    }
}

/// The decoded metadata of raw store pairs: each key upper-cased and each
/// value decoded, set in order, so that a later key wins.
pub open spec fn decoded_entries(raw: Entries) -> Entries
    decreases raw.len(),
{
    if raw.len() == 0 {
        Seq::empty()
    } else {
        inserted(
            decoded_entries(raw.drop_last()),
            upper_of(raw.last().0),
            stored_value_text(raw.last().1),
        )
    }
}

/// The raw store pairs of decoded metadata: keys as they are, values base64
/// encoded.
pub open spec fn encoded_entries(s: Entries) -> Entries {
    s.map_values(|p: (Seq<char>, Seq<char>)| (p.0, encoded_text(p.1)))
}

/// Every key is its own upper-case form.
pub open spec fn keys_upper(s: Entries) -> bool {
    forall|i: int| 0 <= i < s.len() ==> upper_of(#[trigger] s[i].0) == s[i].0
}

pub proof fn lemma_lookup_at(s: Entries, i: int)
    requires
        unique_keys(s),
        0 <= i < s.len(),
    ensures
        lookup(s, s[i].0) == Some(s[i].1),
    decreases s.len(),
{
    if i != s.len() - 1 {
        assert(s.last().0 != s[i].0);
        assert(s.drop_last()[i] == s[i]);
        lemma_lookup_at(s.drop_last(), i);
    }
}

pub proof fn lemma_lookup_absent(s: Entries, k: Seq<char>)
    requires
        !has_key(s, k),
    ensures
        lookup(s, k) is None,
    decreases s.len(),
{
    if s.len() > 0 {
        assert(s.last() == s[s.len() - 1]);
        assert(!has_key(s.drop_last(), k)) by {
            if has_key(s.drop_last(), k) {
                let i = choose|i: int| 0 <= i < s.drop_last().len() && s.drop_last()[i].0 == k;
                assert(s[i].0 == k);
            }
        }
        lemma_lookup_absent(s.drop_last(), k);
    }
}

/// A key is found exactly when some entry has it.
pub proof fn lemma_has_key_lookup(s: Entries, k: Seq<char>)
    ensures
        has_key(s, k) <==> lookup(s, k) is Some,
    decreases s.len(),
{
    if s.len() > 0 {
        lemma_has_key_lookup(s.drop_last(), k);
        if has_key(s, k) && s.last().0 != k {
            let i = choose|i: int| 0 <= i < s.len() && s[i].0 == k;
            assert(s.drop_last()[i].0 == k);
        }
        if has_key(s.drop_last(), k) {
            let i = choose|i: int| 0 <= i < s.drop_last().len() && s.drop_last()[i].0 == k;
            assert(s[i].0 == k);
        }
        if s.last().0 == k {
            assert(s[s.len() - 1].0 == k);
        }
    }
}

/// Setting a key makes it present and keeps every other key present.
pub proof fn lemma_inserted_present(m: Entries, k: Seq<char>, v: Seq<char>, other: Seq<char>)
    ensures
        lookup(inserted(m, k, v), k) is Some,
        lookup(m, other) is Some ==> lookup(inserted(m, k, v), other) is Some,
{
    let r = inserted(m, k, v);
    lemma_has_key_lookup(m, other);
    lemma_has_key_lookup(r, other);
    lemma_has_key_lookup(r, k);
    if has_key(m, k) {
        let i = choose|i: int| 0 <= i < m.len() && m[i].0 == k;
        assert(r[i].0 == k);
        if has_key(m, other) {
            let j = choose|j: int| 0 <= j < m.len() && m[j].0 == other;
            assert(r[j].0 == other);
        }
    } else {
        assert(r[m.len() as int].0 == k);
        if has_key(m, other) {
            let j = choose|j: int| 0 <= j < m.len() && m[j].0 == other;
            assert(r[j].0 == other);
        }
    }
}

proof fn lemma_inserted_unique(s: Entries, k: Seq<char>, v: Seq<char>)
    requires
        unique_keys(s),
    ensures
        unique_keys(inserted(s, k, v)),
        has_key(inserted(s, k, v), k),
{
    let r = inserted(s, k, v);
    if has_key(s, k) {
        let i = choose|i: int| 0 <= i < s.len() && s[i].0 == k;
        assert(r[i].0 == k);
    } else {
        assert(r[s.len() as int].0 == k);
    }
}

/// A copy of the pairs `v`.
fn copy_entries(v: &Vec<(String, String)>) -> (r: Vec<(String, String)>)
    ensures
        pairs_view(r@) == pairs_view(v@),
{
    let mut r: Vec<(String, String)> = Vec::new();
    let mut i: usize = 0;
    while i < v.len()
        invariant
            i <= v@.len(),
            pairs_view(r@) == pairs_view(v@).subrange(0, i as int),
        decreases v@.len() - i,
    {
        let ghost before = pairs_view(r@);
        let k = v[i].0.clone();
        let x = v[i].1.clone();
        r.push((k, x));
        assert(pairs_view(r@) =~= before.push(pairs_view(v@)[i as int]));
        i += 1;
        assert(pairs_view(r@) =~= pairs_view(v@).subrange(0, i as int));
    }
    assert(pairs_view(v@).subrange(0, v@.len() as int) =~= pairs_view(v@));
    r
}

/// Decoded metadata: unique upper-case keys with their text, in insertion order.
#[derive(Debug, PartialEq)]
pub struct AzureMetadata {
    entries: Vec<(String, String)>,
}

impl View for AzureMetadata {
    type V = Entries;

    closed spec fn view(&self) -> Entries {
        pairs_view(self.entries@)
    }
}

impl AzureMetadata {
    #[verifier::type_invariant]
    spec fn keys_are_unique(self) -> bool {
        unique_keys(pairs_view(self.entries@))
    }

    /// No entries.
    pub fn new() -> (r: AzureMetadata)
        ensures
            r@ == Seq::<(Seq<char>, Seq<char>)>::empty(),
    {
        let r = AzureMetadata { entries: Vec::new() };
        assert(r@ =~= Seq::<(Seq<char>, Seq<char>)>::empty());
        r
    }

    /// The entries, in order.
    pub fn entries(&self) -> (r: &Vec<(String, String)>)
        ensures
            pairs_view(r@) == self@,
            unique_keys(self@),
    {
        proof {
            use_type_invariant(self);
        }
        &self.entries
    }

    /// The number of entries.
    pub fn len(&self) -> (r: usize)
        ensures
            r == self@.len(),
    {
        self.entries.len()
    }

    /// The position of key `key`, if present.
    fn position(&self, key: &String) -> (r: Option<usize>)
        ensures
            match r {
                Some(i) => i < self@.len() && self@[i as int].0 == key@,
                None => !has_key(self@, key@),
            },
    {
        let mut i: usize = 0;
        while i < self.entries.len()
            invariant
                i <= self@.len(),
                self@ == pairs_view(self.entries@),
                forall|j: int| 0 <= j < i ==> self@[j].0 != key@,
            decreases self@.len() - i,
        {
            if self.entries[i].0 == *key {
                return Some(i);
            }
            i += 1;
        }
        None
    }

    /// The value of `key`, if present.
    pub fn get(&self, key: &str) -> (r: Option<&String>)
        ensures
            match r {
                Some(v) => lookup(self@, key@) == Some(v@),
                None => lookup(self@, key@) is None,
            },
    {
        proof {
            use_type_invariant(self);
        }
        let k = key.to_owned();
        match self.position(&k) {
            Some(i) => {
                proof {
                    lemma_lookup_at(self@, i as int);
                }
                Some(&self.entries[i].1)
            },
            None => {
                proof {
                    lemma_lookup_absent(self@, key@);
                }
                None
            },
        }
    }

    /// Whether `key` is present.
    pub fn contains_key(&self, key: &str) -> (r: bool)
        ensures
            r == lookup(self@, key@) is Some,
    {
        self.get(key).is_some()
    }

    /// Sets `key` to `value`: in place when the key is present, else at the end.
    pub fn insert(&mut self, key: String, value: String)
        ensures
            final(self)@ == inserted(old(self)@, key@, value@),
    {
        proof {
            use_type_invariant(&*self);
        }
        let ghost before = self@;
        match self.position(&key) {
            Some(i) => {
                proof {
                    let j = choose|j: int| 0 <= j < before.len() && before[j].0 == key@;
                    if j != i {
                        assert(false);
                    }
                }
                let ghost kv = key@;
                let ghost vv = value@;
                let mut v = copy_entries(&self.entries);
                v.set(i, (key, value));
                assert(pairs_view(v@) =~= before.update(i as int, (kv, vv)));
                proof {
                    lemma_inserted_unique(before, kv, vv);
                }
                self.entries = v;
                assert(self@ =~= before.update(i as int, (kv, vv)));
            },
            None => {
                let ghost kv = key@;
                let ghost vv = value@;
                let mut v = copy_entries(&self.entries);
                v.push((key, value));
                assert(pairs_view(v@) =~= before.push((kv, vv)));
                proof {
                    lemma_inserted_unique(before, kv, vv);
                }
                self.entries = v;
                assert(self@ =~= before.push((kv, vv)));
            },
        }
        proof {
            lemma_inserted_unique(before, key@, value@);
        }
    }

    /// Removes every entry whose key starts with `prefix`.
    pub fn remove_prefixed(&mut self, prefix: &Vec<char>)
        ensures
            final(self)@ == without_prefix(old(self)@, prefix@),
    {
        proof {
            use_type_invariant(&*self);
        }
        let ghost before = self@;
        let mut v: Vec<(String, String)> = Vec::new();
        let mut i: usize = 0;
        assert(before.subrange(0, 0) =~= Seq::<(Seq<char>, Seq<char>)>::empty());
        while i < self.entries.len()
            invariant
                i <= before.len(),
                before == pairs_view(self.entries@),
                pairs_view(v@) == without_prefix(before.subrange(0, i as int), prefix@),
            decreases before.len() - i,
        {
            let key = chars_of(self.entries[i].0.as_str());
            let ghost cur = before.subrange(0, i + 1 as int);
            assert(cur.drop_last() =~= before.subrange(0, i as int));
            if !has_prefix(&key, prefix) {
                let ghost w = pairs_view(v@);
                let k = self.entries[i].0.clone();
                let x = self.entries[i].1.clone();
                v.push((k, x));
                assert(pairs_view(v@) =~= w.push(before[i as int]));
            }
            i += 1;
        }
        assert(before.subrange(0, before.len() as int) =~= before);
        proof {
            lemma_without_prefix(before, prefix@);
        }
        self.entries = v;
    }

    /// Decodes raw store metadata: each key upper-cased, each value base64
    /// decoded to UTF-8 text ("Invalid base64" or "Invalid utf8" where that
    /// fails); a later key wins.
    pub fn from_raw(raw: &Vec<(String, String)>) -> (r: AzureMetadata)
        ensures
            r@ == decoded_entries(pairs_view(raw@)),
            forall|i: int| 0 <= i < raw@.len() && upper_stable(#[trigger] pairs_view(raw@)[i].0)
                ==> upper_of(pairs_view(raw@)[i].0) == pairs_view(raw@)[i].0,
    {
        let ghost rv = pairs_view(raw@);
        let engine = Base64Engine::new();
        let mut meta = AzureMetadata::new();
        let mut i: usize = 0;
        assert(rv.subrange(0, 0) =~= Seq::<(Seq<char>, Seq<char>)>::empty());
        while i < raw.len()
            invariant
                i <= raw@.len(),
                rv == pairs_view(raw@),
                meta@ == decoded_entries(rv.subrange(0, i as int)),
                forall|j: int| 0 <= j < i && upper_stable(#[trigger] rv[j].0) ==> upper_of(rv[j].0) == rv[j].0,
            decreases raw@.len() - i,
        {
            let key = uppercase(raw[i].0.as_str());
            let value = match engine.decode_bytes(raw[i].1.as_str()) {
                None => "Invalid base64".to_owned(),
                Some(bytes) => match utf8_text(bytes) {
                    Some(text) => text,
                    None => "Invalid utf8".to_owned(),
                },
            };
            assert(rv.subrange(0, i + 1 as int).drop_last() =~= rv.subrange(0, i as int));
            meta.insert(key, value);
            i += 1;
        }
        assert(rv.subrange(0, rv.len() as int) =~= rv);
        meta
    }

    /// The raw store pairs: keys as they are, values base64 encoded; reading
    /// them back gives these entries again when every key is upper-case.
    pub fn to_raw(&self) -> (r: Vec<(String, String)>)
        ensures
            pairs_view(r@) == encoded_entries(self@),
            keys_upper(self@) ==> decoded_entries(pairs_view(r@)) == self@,
    {
        proof {
            use_type_invariant(self);
        }
        let engine = Base64Engine::new();
        let mut out: Vec<(String, String)> = Vec::new();
        let mut i: usize = 0;
        while i < self.entries.len()
            invariant
                i <= self@.len(),
                self@ == pairs_view(self.entries@),
                unique_keys(self@),
                pairs_view(out@) == encoded_entries(self@.subrange(0, i as int)),
                forall|j: int| 0 <= j < i ==> decoded_text(#[trigger] pairs_view(out@)[j].1) == Some(self@[j].1)
                    && base64_bytes(pairs_view(out@)[j].1) is Some,
                keys_upper(self@) ==> decoded_entries(pairs_view(out@)) == self@.subrange(0, i as int),
            decreases self@.len() - i,
        {
            let ghost before = pairs_view(out@);
            let encoded = engine.encode(self.entries[i].1.as_str());
            proof {
                assert(base64_bytes(encoded@) is Some);
            }
            let ghost kv = self@[i as int].0;
            out.push((self.entries[i].0.clone(), encoded));
            let ghost after = pairs_view(out@);
            assert(after =~= before.push((kv, encoded@)));
            assert(self@.subrange(0, i + 1 as int) =~= self@.subrange(0, i as int).push(self@[i as int]));
            assert(encoded_entries(self@.subrange(0, i + 1 as int)) =~= after);
            proof {
                if keys_upper(self@) {
                    assert(after.drop_last() =~= before);
                    let pre = self@.subrange(0, i as int);
                    assert(!has_key(pre, kv)) by {
                        if has_key(pre, kv) {
                            let j = choose|j: int| 0 <= j < pre.len() && pre[j].0 == kv;
                            assert(self@[j].0 == self@[i as int].0);
                        }
                    }
                    assert(upper_of(kv) == kv);
                    assert(stored_value_text(encoded@) == self@[i as int].1);
                    assert(decoded_entries(after) == pre.push((kv, self@[i as int].1)));
                    assert(self@[i as int] == (kv, self@[i as int].1));
                }
            }
            i += 1;
        }
        assert(self@.subrange(0, self@.len() as int) =~= self@);
        out
    }
}

impl Clone for AzureMetadata {
    fn clone(&self) -> (r: AzureMetadata)
        ensures
            r@ == self@,
    {
        proof {
            use_type_invariant(self);
        }
        AzureMetadata { entries: copy_entries(&self.entries) }
    }
}

impl Default for AzureMetadata {
    /// Title and summary present, both empty.
    fn default() -> (r: AzureMetadata)
        ensures
            r@ == seq![
                ("BLOB_TITLE"@, Seq::<char>::empty()),
                ("BLOB_SUMMARY"@, Seq::<char>::empty()),
            ],
    {
        let mut r = AzureMetadata::new();
        r.insert("BLOB_TITLE".to_owned(), String::new());
        r.insert("BLOB_SUMMARY".to_owned(), String::new());
        proof {
            reveal_strlit("BLOB_TITLE");
            reveal_strlit("BLOB_SUMMARY");
            assert(!has_key(seq![("BLOB_TITLE"@, Seq::<char>::empty())], "BLOB_SUMMARY"@)) by {
                assert("BLOB_TITLE"@ != "BLOB_SUMMARY"@) by {
                    assert("BLOB_TITLE"@[5] != "BLOB_SUMMARY"@[5]);
                }
            }
        }
        assert(r@ =~= seq![
            ("BLOB_TITLE"@, Seq::<char>::empty()),
            ("BLOB_SUMMARY"@, Seq::<char>::empty()),
        ]);
        r
    }
}

} // verus!
