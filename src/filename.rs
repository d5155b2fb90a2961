//! The filename sanitizer: three regular expressions that find and rewrite
//! characters and names that file systems refuse.
use vstd::prelude::*;
use regex::Regex;

verus! {

#[verifier::external_type_specification]
#[verifier::external_body]
pub struct ExRegex(regex::Regex);

/// Runs of characters that file systems refuse: `<>:"/\|?*` and control characters.
pub const RESERVED_PATTERN: &'static str = "[<>:\"/\\\\|?*\u{0000}-\u{001F}\u{007F}\u{0080}-\u{009F}]+";

/// Names that Windows reserves for devices.
pub const WIN_RESERVED_PATTERN: &'static str = "^(con|prn|aux|nul|com\\d|lpt\\d)$";

/// Leading and trailing runs of dots.
pub const OUTER_DOTS_PATTERN: &'static str = "^\\.+|\\.+$";

/// Whether `regex` finds a match of `pattern` in `text`.
pub uninterp spec fn regex_finds(pattern: Seq<char>, text: Seq<char>) -> bool;

/// A character of the reserved class: `<>:"/\|?*`, U+0000 to U+001F, U+007F
/// and U+0080 to U+009F.
pub open spec fn reserved_char(c: char) -> bool {
    c == '<' || c == '>' || c == ':' || c == '"' || c == '/' || c == '\\' || c == '|' || c == '?'
        || c == '*' || (c as u32) <= 0x1F || (c as u32) == 0x7F || (0x80 <= (c as u32) && (c as u32) <= 0x9F)
}

/// Some character of `t` is reserved.
pub open spec fn has_reserved(t: Seq<char>) -> bool {
    exists|i: int| 0 <= i < t.len() && reserved_char(#[trigger] t[i])
}

/// `t` with each maximal run of reserved characters replaced by one `_`.
pub open spec fn collapse_reserved(t: Seq<char>) -> Seq<char>
    decreases t.len(),
{
    if t.len() == 0 {
        t
    } else {
        let init = collapse_reserved(t.drop_last());
        if !reserved_char(t.last()) {
            init.push(t.last())
        } else if t.len() >= 2 && reserved_char(t[t.len() - 2]) {
            init
        } else {
            init.push('_')
        }
    }
}

/// `t` starts or ends with a dot.
pub open spec fn has_outer_dot(t: Seq<char>) -> bool {
    t.len() > 0 && (t[0] == '.' || t.last() == '.')
}

pub open spec fn drop_leading_dots(t: Seq<char>) -> Seq<char>
    decreases t.len(),
{
    if t.len() > 0 && t[0] == '.' {
        drop_leading_dots(t.drop_first())
    } else {
        t
    }
}

pub open spec fn drop_trailing_dots(t: Seq<char>) -> Seq<char>
    decreases t.len(),
{
    if t.len() > 0 && t.last() == '.' {
        drop_trailing_dots(t.drop_last())
    } else {
        t
    }
}

/// `t` without its leading and trailing runs of dots.
pub open spec fn strip_outer_dots(t: Seq<char>) -> Seq<char> {
    drop_trailing_dots(drop_leading_dots(t))
}

/// `t` replaced by `_` when it is a Windows device name, else `t`.
pub open spec fn replace_device_name(t: Seq<char>) -> Seq<char> {
    if regex_finds(WIN_RESERVED_PATTERN@, t) {
        seq!['_']
    } else {
        t
    }
}

/// One of the sanitizer's patterns.
pub open spec fn sanitizer_pattern(p: Seq<char>) -> bool {
    p == RESERVED_PATTERN@ || p == WIN_RESERVED_PATTERN@ || p == OUTER_DOTS_PATTERN@
}

/// Relies on `regex::Regex::new`: each of the sanitizer's patterns is valid
/// syntax, so compiling it succeeds.
#[verifier::external_body]
fn compile(pattern: &str) -> (r: Regex)
    requires
        sanitizer_pattern(pattern@),
{
    Regex::new(pattern).unwrap()
}

/// A regular expression together with the pattern it was compiled from.
struct Pattern {
    source: &'static str,
    re: Regex,
}

/// Relies on `regex::Regex::is_match`: the reserved class matches where some
/// character is reserved; `^\.+|\.+$` where the text starts or ends with a dot.
#[verifier::external_body]
fn pattern_finds(p: &Pattern, text: &str) -> (r: bool)
    ensures
        r == regex_finds(p.source@, text@),
        p.source@ == RESERVED_PATTERN@ ==> r == has_reserved(text@),
        p.source@ == OUTER_DOTS_PATTERN@ ==> r == has_outer_dot(text@),
{
    p.re.is_match(text)
}

/// Relies on `regex::Regex::replace_all` with a replacement that holds no `$`:
/// each leftmost-first match is replaced. The reserved class's greedy runs
/// become one replacement each; the anchored device-name pattern matches the
/// whole text or nothing; `^\.+|\.+$` matches the leading and the trailing
/// run of dots.
#[verifier::external_body]
fn pattern_replace(p: &Pattern, text: &str, rep: &str) -> (r: String)
    requires
        rep@ == "_"@ || rep@ == ""@,
    ensures
        p.source@ == RESERVED_PATTERN@ && rep@ == "_"@ ==> r@ == collapse_reserved(text@),
        p.source@ == WIN_RESERVED_PATTERN@ && rep@ == "_"@ ==> r@ == replace_device_name(text@),
        p.source@ == OUTER_DOTS_PATTERN@ && rep@ == ""@ ==> r@ == strip_outer_dots(text@),
{
    p.re.replace_all(text, rep).into_owned()
}

impl Pattern {
    fn new(source: &'static str) -> (r: Pattern)
        requires
            sanitizer_pattern(source@),
        ensures
            r.source == source,
    {
        Pattern { source, re: compile(source) }
    }
}

/// Whether `name` is a valid filename: no reserved character, not a
/// Windows device name, no leading or trailing dot.
pub open spec fn valid_filename(name: Seq<char>) -> bool {
    !has_reserved(name) && !regex_finds(WIN_RESERVED_PATTERN@, name) && !has_outer_dot(name)
}

/// The sanitized form of `name`: each run of reserved characters replaced by
/// `_`, then a Windows device name replaced by `_`, then leading and trailing
/// dots removed.
pub open spec fn sanitized_filename(name: Seq<char>) -> Seq<char> {
    strip_outer_dots(replace_device_name(collapse_reserved(name)))
}

proof fn lemma_collapse_clean(t: Seq<char>)
    ensures
        !has_reserved(collapse_reserved(t)),
        !has_reserved(t) ==> collapse_reserved(t) == t,
    decreases t.len(),
{
    if t.len() > 0 {
        let init = t.drop_last();
        lemma_collapse_clean(init);
        let c = collapse_reserved(init);
        let r = collapse_reserved(t);
        assert forall|i: int| 0 <= i < r.len() implies !reserved_char(#[trigger] r[i]) by {
            if i < c.len() {
                assert(r[i] == c[i]);
            }
        }
        if !has_reserved(t) {
            assert(!has_reserved(init)) by {
                assert forall|i: int| 0 <= i < init.len() implies !reserved_char(#[trigger] init[i]) by {
                    assert(init[i] == t[i]);
                }
            }
            assert(!reserved_char(t[t.len() - 1]));
            assert(init.push(t.last()) =~= t);
        }
    }
}

proof fn lemma_drop_leading(t: Seq<char>)
    ensures
        drop_leading_dots(t).len() == 0 || drop_leading_dots(t)[0] != '.',
        !has_reserved(t) ==> !has_reserved(drop_leading_dots(t)),
        t.len() == 0 || t[0] != '.' ==> drop_leading_dots(t) == t,
    decreases t.len(),
{
    if t.len() > 0 && t[0] == '.' {
        let d = t.drop_first();
        lemma_drop_leading(d);
        if !has_reserved(t) {
            assert forall|i: int| 0 <= i < d.len() implies !reserved_char(#[trigger] d[i]) by {
                assert(d[i] == t[i + 1]);
            }
        }
    }
}

proof fn lemma_drop_trailing(t: Seq<char>)
    ensures
        drop_trailing_dots(t).len() == 0 || drop_trailing_dots(t).last() != '.',
        drop_trailing_dots(t).len() <= t.len(),
        drop_trailing_dots(t) == t.subrange(0, drop_trailing_dots(t).len() as int),
        !has_reserved(t) ==> !has_reserved(drop_trailing_dots(t)),
        t.len() == 0 || t.last() != '.' ==> drop_trailing_dots(t) == t,
    decreases t.len(),
{
    if t.len() > 0 && t.last() == '.' {
        let d = t.drop_last();
        lemma_drop_trailing(d);
        let r = drop_trailing_dots(d);
        assert(r =~= t.subrange(0, r.len() as int));
        if !has_reserved(t) {
            assert forall|i: int| 0 <= i < d.len() implies !reserved_char(#[trigger] d[i]) by {
                assert(d[i] == t[i]);
            }
        }
    } else {
        assert(t.subrange(0, t.len() as int) =~= t);
    }
}

proof fn lemma_strip(t: Seq<char>)
    ensures
        !has_outer_dot(strip_outer_dots(t)),
        !has_reserved(t) ==> !has_reserved(strip_outer_dots(t)),
        !has_outer_dot(t) ==> strip_outer_dots(t) == t,
{
    let a = drop_leading_dots(t);
    lemma_drop_leading(t);
    lemma_drop_trailing(a);
    let b = drop_trailing_dots(a);
    if b.len() > 0 {
        assert(b[0] == a[0]);
    }
}

/// Sanitizing a sanitized name changes nothing, and a sanitized name is valid,
/// unless removing the outer dots left a Windows device name (".con" becomes
/// "con", which sanitizes to "_").
pub proof fn lemma_sanitize_idempotent(s: Seq<char>)
    requires
        !regex_finds(WIN_RESERVED_PATTERN@, sanitized_filename(s)),
    ensures
        sanitized_filename(sanitized_filename(s)) == sanitized_filename(s),
        valid_filename(sanitized_filename(s)),
{
    let a = collapse_reserved(s);
    lemma_collapse_clean(s);
    let w = replace_device_name(a);
    assert(!has_reserved(w)) by {
        if regex_finds(WIN_RESERVED_PATTERN@, a) {
            assert(!reserved_char('_'));
            assert forall|i: int| 0 <= i < w.len() implies !reserved_char(#[trigger] w[i]) by {
                assert(w[i] == '_');
            }
        }
    }
    let s1 = strip_outer_dots(w);
    lemma_strip(w);
    lemma_collapse_clean(s1);
    lemma_strip(s1);
}

/// Checks and rewrites filenames.
pub struct FilenameService {
    reserved: Pattern,
    win_reserved: Pattern,
    outer_dots: Pattern,
}

impl FilenameService {
    #[verifier::type_invariant]
    spec fn patterns_fixed(self) -> bool {
        self.reserved.source == RESERVED_PATTERN && self.win_reserved.source == WIN_RESERVED_PATTERN
            && self.outer_dots.source == OUTER_DOTS_PATTERN
    }

    /// Whether `filename` is valid.
    pub fn is_valid(&self, filename: &str) -> (r: bool)
        ensures
            r == valid_filename(filename@),
    {
        proof {
            use_type_invariant(self);
        }
        !pattern_finds(&self.reserved, filename) && !pattern_finds(&self.win_reserved, filename)
            && !pattern_finds(&self.outer_dots, filename)
    }

    /// The sanitized form of `filename`.
    pub fn sanitize(&self, filename: &str) -> (r: String)
        ensures
            r@ == sanitized_filename(filename@),
    {
        proof {
            use_type_invariant(self);
        }
        let a = pattern_replace(&self.reserved, filename, "_");
        let b = pattern_replace(&self.win_reserved, a.as_str(), "_");
        pattern_replace(&self.outer_dots, b.as_str(), "")
    }
}

impl Default for FilenameService {
    fn default() -> (r: FilenameService) {
        FilenameService {
            reserved: Pattern::new(RESERVED_PATTERN),
            win_reserved: Pattern::new(WIN_RESERVED_PATTERN),
            outer_dots: Pattern::new(OUTER_DOTS_PATTERN),
        }
    }
}

} // verus!
