//! Tag sets: an ordered, duplicate-keeping list of labels held in their
//! comma-joined canonical form.
use vstd::prelude::*;
use crate::text::{
    append_chars, chars_of, has_prefix, pairs_view, starts_with, string_of, suffix_from,
};

verus! {

/// One label.
#[derive(Clone, Debug, PartialEq, Eq)]
pub struct Tag {
    pub tag: String,
}

/// A list of labels, stored as the labels joined by `,`; "" is the empty list.
#[derive(Clone, Debug, PartialEq, Eq)]
pub struct Tags {
    tags: String,
}

impl View for Tags {
    type V = Seq<char>;

    closed spec fn view(&self) -> Seq<char> {
        self.tags@
    }
}

/// The pieces of `s` between commas (one piece for a string without a comma).
pub open spec fn split_commas(s: Seq<char>) -> Seq<Seq<char>>
    decreases s.len(),
{
    if s.len() == 0 {
        seq![Seq::empty()]
    } else {
        let init = split_commas(s.drop_last());
        if s.last() == ',' {
            init.push(Seq::empty())
        } else {
            init.update(init.len() - 1, init.last().push(s.last()))
        }
    }
}

/// The labels of a canonical form: none for "", else the pieces between commas.
pub open spec fn labels_of(s: Seq<char>) -> Seq<Seq<char>> {
    if s.len() == 0 {
        Seq::empty()
    } else {
        split_commas(s)
    }
}

/// The labels joined by `,`.
pub open spec fn join_labels(l: Seq<Seq<char>>) -> Seq<char>
    decreases l.len(),
{
    if l.len() == 0 {
        Seq::empty()
    } else if l.len() == 1 {
        l[0]
    } else {
        join_labels(l.drop_last()) + seq![','] + l.last()
    }
}

/// The labels of a list of tags.
pub open spec fn tag_labels(ts: Seq<Tag>) -> Seq<Seq<char>> {
    ts.map_values(|t: Tag| t.tag@)
}

/// The key prefix that marks a tag in the store's tag map.
pub open spec fn tag_prefix() -> Seq<char> {
    seq!['B', 'L', 'O', 'B', '_', 'T', 'A', 'G', '_']
}

/// The labels that a store tag list holds: the suffix of each key that starts
/// with the tag prefix, in order; values are ignored.
pub open spec fn store_labels(pairs: Seq<(Seq<char>, Seq<char>)>) -> Seq<Seq<char>>
    decreases pairs.len(),
{
    if pairs.len() == 0 {
        Seq::empty()
    } else {
        let init = store_labels(pairs.drop_last());
        let k = pairs.last().0;
        if starts_with(k, tag_prefix()) {
            init.push(k.subrange(9, k.len() as int))
        } else {
            init
        }
    }
}

/// The store tag list for some labels: one (prefix + label, "") pair each.
pub open spec fn store_pairs(labels: Seq<Seq<char>>) -> Seq<(Seq<char>, Seq<char>)> {
    labels.map_values(|l: Seq<char>| (tag_prefix() + l, Seq::<char>::empty()))
}

/// Whether a label holds no comma.
pub open spec fn comma_free(l: Seq<char>) -> bool {
    forall|j: int| 0 <= j < l.len() ==> l[j] != ','
}

proof fn lemma_split_commas_len(s: Seq<char>)
    ensures
        split_commas(s).len() >= 1,
    decreases s.len(),
{
    if s.len() > 0 {
        lemma_split_commas_len(s.drop_last());
    }
}

/// Appending comma-free characters extends the last piece.
proof fn lemma_split_append_piece(p: Seq<char>, l: Seq<char>)
    requires
        comma_free(l),
    ensures
        split_commas(p + l) == split_commas(p).update(
            split_commas(p).len() - 1,
            split_commas(p).last() + l,
        ),
    decreases l.len(),
{
    lemma_split_commas_len(p);
    if l.len() == 0 {
        assert(p + l =~= p);
        assert(split_commas(p).last() + l =~= split_commas(p).last());
        assert(split_commas(p).update(split_commas(p).len() - 1, split_commas(p).last())
            =~= split_commas(p));
    } else {
        let l0 = l.drop_last();
        lemma_split_append_piece(p, l0);
        assert((p + l).drop_last() =~= p + l0);
        assert((p + l).last() == l.last());
        lemma_split_commas_len(p + l0);
        assert(l[l.len() - 1] != ',');
        let init = split_commas(p + l0);
        assert(init.len() == split_commas(p).len());
        assert(init.last() == split_commas(p).last() + l0);
        assert((p + l).last() != ',');
        assert(split_commas(p + l) == init.update(init.len() - 1, init.last().push((p + l).last())));
        let sp = split_commas(p);
        assert((sp.last() + l0).push(l.last()) =~= sp.last() + l);
        assert(init.update(init.len() - 1, sp.last() + l) =~= sp.update(sp.len() - 1, sp.last() + l));
        assert(split_commas(p).last() + l0 + seq![l.last()] =~= split_commas(p).last() + l);
        assert(split_commas(p + l) =~= split_commas(p).update(
            split_commas(p).len() - 1,
            split_commas(p).last() + l,
        ));
    }
}

/// Splitting what was joined gives back the labels.
proof fn lemma_split_join(l: Seq<Seq<char>>)
    requires
        l.len() >= 1,
        forall|i: int| 0 <= i < l.len() ==> comma_free(#[trigger] l[i]),
    ensures
        split_commas(join_labels(l)) == l,
    decreases l.len(),
{
    if l.len() == 1 {
        lemma_split_append_piece(Seq::empty(), l[0]);
        assert(Seq::<char>::empty() + l[0] =~= l[0]);
        assert(Seq::<char>::empty() + l[0] =~= l[0]);
        assert(seq![Seq::<char>::empty()].update(0, Seq::<char>::empty() + l[0]) =~= l);
    } else {
        let init = l.drop_last();
        assert forall|i: int| 0 <= i < init.len() implies comma_free(#[trigger] init[i]) by {
            assert(init[i] == l[i]);
        }
        lemma_split_join(init);
        let pre = join_labels(init) + seq![','];
        assert(pre.drop_last() =~= join_labels(init));
        assert(split_commas(pre) == l.drop_last().push(Seq::empty()));
        assert(comma_free(l[l.len() - 1]));
        lemma_split_append_piece(pre, l.last());
        assert(Seq::<char>::empty() + l.last() =~= l.last());
        assert(l.drop_last().push(Seq::empty()).update(l.len() - 1, l.last()) =~= l);
    }
}

/// Joining what was split gives back the string.
proof fn lemma_join_split(s: Seq<char>)
    ensures
        join_labels(split_commas(s)) == s,
    decreases s.len(),
{
    if s.len() > 0 {
        let init = s.drop_last();
        lemma_join_split(init);
        lemma_split_commas_len(init);
        let pieces = split_commas(init);
        if s.last() == ',' {
            let np = pieces.push(Seq::empty());
            assert(np.drop_last() =~= pieces);
            assert(join_labels(np) =~= join_labels(pieces) + seq![','] + Seq::empty());
            assert(s =~= init + seq![','] + Seq::<char>::empty());
        } else {
            lemma_join_last(pieces, s.last());
            assert(s =~= init.push(s.last()));
        }
    }
}

/// Adding a character to the last label adds it at the end of the join.
proof fn lemma_join_last(l: Seq<Seq<char>>, c: char)
    requires
        l.len() >= 1,
    ensures
        join_labels(l.update(l.len() - 1, l.last().push(c))) == join_labels(l).push(c),
{
    let u = l.update(l.len() - 1, l.last().push(c));
    if l.len() == 1 {
        assert(u[0] == l[0].push(c));
    } else {
        assert(u.drop_last() =~= l.drop_last());
        assert(join_labels(u) =~= join_labels(l.drop_last()) + seq![','] + l.last().push(c));
    }
}

/// Labels without commas survive joining and splitting in order and number;
/// the single empty label is the one list that reads back as no labels.
pub proof fn lemma_labels_round_trip(l: Seq<Seq<char>>)
    requires
        forall|i: int| 0 <= i < l.len() ==> comma_free(#[trigger] l[i]),
        !(l.len() == 1 && l[0].len() == 0),
    ensures
        labels_of(join_labels(l)) == l,
{
    if l.len() >= 1 {
        lemma_split_join(l);
        if l.len() == 1 {
            assert(join_labels(l) == l[0]);
        } else {
            assert(join_labels(l).len() >= 1);
        }
    }
}

/// Every canonical form is the join of its labels.
pub proof fn lemma_canonical_round_trip(s: Seq<char>)
    ensures
        join_labels(labels_of(s)) == s,
{
    if s.len() > 0 {
        lemma_join_split(s);
    }
}

/// The store tag list of some labels reads back as those labels.
pub proof fn lemma_store_round_trip(l: Seq<Seq<char>>)
    ensures
        store_labels(store_pairs(l)) == l,
    decreases l.len(),
{
    if l.len() > 0 {
        let init = l.drop_last();
        lemma_store_round_trip(init);
        assert(store_pairs(l).drop_last() =~= store_pairs(init));
        let k = tag_prefix() + l.last();
        assert(k.subrange(0, 9) =~= tag_prefix());
        assert(k.subrange(9, k.len() as int) =~= l.last());
        assert(store_labels(store_pairs(l)) =~= l);
    }
}

/// The characters of the tag prefix.
fn tag_prefix_chars() -> (r: Vec<char>)
    ensures
        r@ == tag_prefix(),
{
    let r = vec!['B', 'L', 'O', 'B', '_', 'T', 'A', 'G', '_'];
    assert(r@ =~= tag_prefix());
    r
}

impl Tags {
    /// The empty list.
    pub fn new() -> (r: Tags)
        ensures
            r@ == Seq::<char>::empty(),
    {
        Tags { tags: String::new() }
    }

    /// The list whose canonical form is `tags`.
    pub fn from_canonical(tags: String) -> (r: Tags)
        ensures
            r@ == tags@,
    {
        Tags { tags }
    }

    /// A copy.
    pub fn clone_tags(&self) -> (r: Tags)
        ensures
            r@ == self@,
    {
        Tags { tags: self.tags.clone() }
    }

    /// The canonical form.
    pub fn as_str(&self) -> (r: &str)
        ensures
            r@ == self@,
    {
        self.tags.as_str()
    }

    /// The labels, in order.
    pub fn tags(&self) -> (r: Vec<Tag>)
        ensures
            tag_labels(r@) == labels_of(self@),
    {
        let c = chars_of(self.tags.as_str());
        let mut done: Vec<Tag> = Vec::new();
        if c.len() == 0 {
            assert(tag_labels(done@) =~= labels_of(self@));
            return done;
        }
        let mut cur: Vec<char> = Vec::new();
        let mut i: usize = 0;
        assert(c@.subrange(0, 0) =~= Seq::<char>::empty());
        assert(tag_labels(done@).push(cur@) =~= split_commas(c@.subrange(0, 0)));
        while i < c.len()
            invariant
                i <= c@.len(),
                c@ == self@,
                tag_labels(done@).push(cur@) == split_commas(c@.subrange(0, i as int)),
            decreases c@.len() - i,
        {
            let ghost before = tag_labels(done@).push(cur@);
            assert(c@.subrange(0, i + 1 as int).drop_last() =~= c@.subrange(0, i as int));
            if c[i] == ',' {
                done.push(Tag { tag: string_of(&cur) });
                cur = Vec::new();
                assert(tag_labels(done@).push(cur@) =~= before.push(Seq::empty()));
            } else {
                cur.push(c[i]);
                assert(tag_labels(done@).push(cur@) =~= before.update(
                    before.len() - 1,
                    before.last().push(c@[i as int]),
                ));
            }
            i += 1;
        }
        let ghost before = tag_labels(done@).push(cur@);
        done.push(Tag { tag: string_of(&cur) });
        assert(c@.subrange(0, c@.len() as int) =~= c@);
        assert(tag_labels(done@) =~= before);
        done
    }

    /// The tags joined by `,`.
    pub fn from_tags(tags: Vec<Tag>) -> (r: Tags)
        ensures
            r@ == join_labels(tag_labels(tags@)),
    {
        let ghost l = tag_labels(tags@);
        let mut out: Vec<char> = Vec::new();
        let mut i: usize = 0;
        assert(l.subrange(0, 0) =~= Seq::<Seq<char>>::empty());
        while i < tags.len()
            invariant
                i <= tags@.len(),
                l == tag_labels(tags@),
                out@ == join_labels(l.subrange(0, i as int)),
            decreases tags@.len() - i,
        {
            let piece = chars_of(tags[i].tag.as_str());
            let ghost next = l.subrange(0, i + 1 as int);
            assert(next.drop_last() =~= l.subrange(0, i as int));
            if i > 0 {
                out.push(',');
            } else {
                assert(out@ + piece@ =~= piece@);
            }
            append_chars(&mut out, &piece);
            i += 1;
        }
        assert(l.subrange(0, l.len() as int) =~= l);
        Tags { tags: string_of(&out) }
    }

    /// The labels of a store tag list: the suffix of each key that starts with
    /// `BLOB_TAG_`, in order, joined by `,`.
    pub fn from_store(pairs: &Vec<(String, String)>) -> (r: Tags)
        ensures
            r@ == join_labels(store_labels(pairs_view(pairs@))),
    {
        let ghost pv = pairs_view(pairs@);
        let prefix = tag_prefix_chars();
        let mut acc: Vec<Tag> = Vec::new();
        let mut i: usize = 0;
        assert(pv.subrange(0, 0) =~= Seq::<(Seq<char>, Seq<char>)>::empty());
        assert(tag_labels(acc@) =~= Seq::<Seq<char>>::empty());
        while i < pairs.len()
            invariant
                i <= pairs@.len(),
                pv == pairs_view(pairs@),
                prefix@ == tag_prefix(),
                tag_labels(acc@) == store_labels(pv.subrange(0, i as int)),
            decreases pairs@.len() - i,
        {
            let key = chars_of(pairs[i].0.as_str());
            assert(pv.subrange(0, i + 1 as int).drop_last() =~= pv.subrange(0, i as int));
            assert(pv[i as int].0 == key@);
            if has_prefix(&key, &prefix) {
                let label = suffix_from(&key, 9);
                let ghost before = tag_labels(acc@);
                acc.push(Tag { tag: string_of(&label) });
                assert(tag_labels(acc@) =~= before.push(label@));
            }
            i += 1;
        }
        assert(pv.subrange(0, pv.len() as int) =~= pv);
        Tags::from_tags(acc)
    }

    /// The store tag list: one (`BLOB_TAG_` + label, "") pair per label, in order.
    pub fn to_store(&self) -> (r: Vec<(String, String)>)
        ensures
            pairs_view(r@) == store_pairs(labels_of(self@)),
    {
        let labels = self.tags();
        let prefix = tag_prefix_chars();
        let mut out: Vec<(String, String)> = Vec::new();
        let mut i: usize = 0;
        while i < labels.len()
            invariant
                i <= labels@.len(),
                prefix@ == tag_prefix(),
                tag_labels(labels@) == labels_of(self@),
                pairs_view(out@) == store_pairs(tag_labels(labels@).subrange(0, i as int)),
            decreases labels@.len() - i,
        {
            let mut key = prefix.clone();
            let label = chars_of(labels[i].tag.as_str());
            append_chars(&mut key, &label);
            let ghost before = pairs_view(out@);
            let ghost ls = tag_labels(labels@);
            let entry = (string_of(&key), String::new());
            out.push(entry);
            assert(ls[i as int] == label@);
            assert(pairs_view(out@) =~= before.push((tag_prefix() + label@, Seq::<char>::empty())));
            assert(ls.subrange(0, i + 1 as int) =~= ls.subrange(0, i as int).push(label@));
            assert(pairs_view(out@) =~= store_pairs(
                tag_labels(labels@).subrange(0, i + 1 as int),
            ));
            i += 1;
        }
        assert(tag_labels(labels@).subrange(0, labels@.len() as int) =~= tag_labels(labels@));
        out
    }
}

impl Default for Tags {
    fn default() -> (r: Tags)
        ensures
            r@ == Seq::<char>::empty(),
    {
        Tags::new()
    }
}

} // verus!
