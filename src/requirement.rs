//! The requirement engine: named checks over a candidate string, mandatory
//! or optional, with a k-of-n rule over the optional ones.
use vstd::prelude::*;
use crate::text::{
    alphanumeric_char, chars_of, is_alphanumeric, is_lowercase, is_numeric, is_uppercase,
    lowercase_char, numeric_char, uppercase_char,
};

verus! {

/// What a requirement checks of a candidate.
#[derive(Clone, Debug, PartialEq)]
pub enum Check {
    /// At least this many bytes.
    MinLength(i32),
    /// A byte length in the half-open range `[min, max)`.
    LengthIn(i32, i32),
    /// Some numeric character.
    ContainsNumber,
    /// Some upper-case character.
    ContainsUppercase,
    /// Some lower-case character.
    ContainsLowercase,
    /// Some character that is not alphanumeric.
    ContainsSpecial,
    /// Every character is alphanumeric or one of these.
    OnlyAlphanumericOr(String),
}

/// A named check; optional ones count towards the k-of-n rule.
#[derive(Clone, Debug, PartialEq)]
pub struct Requirement {
    pub name: &'static str,
    pub optional: bool,
    pub check: Check,
}

/// The number of UTF-8 bytes of `s`.
pub open spec fn byte_len(s: Seq<char>) -> int {
    vstd::utf8::encode_utf8(s).len() as int
}

/// Whether candidate `s` meets check `c`.
pub open spec fn check_holds(c: Check, s: Seq<char>) -> bool {
    match c {
        Check::MinLength(m) => m <= byte_len(s),
        Check::LengthIn(lo, hi) => lo <= byte_len(s) && byte_len(s) < hi,
        Check::ContainsNumber => exists|i: int| 0 <= i < s.len() && numeric_char(#[trigger] s[i]),
        Check::ContainsUppercase => exists|i: int| 0 <= i < s.len() && uppercase_char(#[trigger] s[i]),
        Check::ContainsLowercase => exists|i: int| 0 <= i < s.len() && lowercase_char(#[trigger] s[i]),
        Check::ContainsSpecial => exists|i: int| 0 <= i < s.len() && !alphanumeric_char(#[trigger] s[i]),
        Check::OnlyAlphanumericOr(allowed) => forall|i: int|
            0 <= i < s.len() ==> alphanumeric_char(#[trigger] s[i]) || allowed@.contains(s[i]),
    }
}

/// The mandatory requirements that `s` fails, in order.
pub open spec fn mandatory_failed(reqs: Seq<Requirement>, s: Seq<char>) -> Seq<Requirement> {
    reqs.filter(|r: Requirement| !r.optional && !check_holds(r.check, s))
}

/// The optional requirements that `s` fails, in order.
pub open spec fn optional_failed(reqs: Seq<Requirement>, s: Seq<char>) -> Seq<Requirement> {
    reqs.filter(|r: Requirement| r.optional && !check_holds(r.check, s))
}

/// The optional requirements that `s` meets.
pub open spec fn optional_passed(reqs: Seq<Requirement>, s: Seq<char>) -> Seq<Requirement> {
    reqs.filter(|r: Requirement| r.optional && check_holds(r.check, s))
}

/// The optional requirements.
pub open spec fn optional_reqs(reqs: Seq<Requirement>) -> Seq<Requirement> {
    reqs.filter(|r: Requirement| r.optional)
}

pub open spec fn names(reqs: Seq<Requirement>) -> Seq<&'static str> {
    reqs.map_values(|r: Requirement| r.name)
}

/// The number of optional requirements that must pass: the configured count,
/// but never more than there are.
pub open spec fn needed(reqs: Seq<Requirement>, count: usize) -> int {
    if count < optional_reqs(reqs).len() {
        count as int
    } else {
        optional_reqs(reqs).len() as int
    }
}

/// The outcome of validating `s`: success when no mandatory requirement
/// fails and enough optional ones pass; otherwise the names of the failed
/// mandatory requirements followed by those of the failed optional ones.
pub open spec fn validation(reqs: Seq<Requirement>, count: usize, s: Seq<char>) -> Result<(), Seq<&'static str>> {
    if mandatory_failed(reqs, s).len() == 0 && optional_passed(reqs, s).len() >= needed(reqs, count) {
        Ok(())
    } else {
        Err(names(mandatory_failed(reqs, s)) + names(optional_failed(reqs, s)))
    }
}

/// Whether an executable outcome is the one described.
pub open spec fn validation_is(r: Result<(), Vec<&'static str>>, v: Result<(), Seq<&'static str>>) -> bool {
    match r {
        Ok(()) => v is Ok,
        Err(e) => v == Err::<(), Seq<&'static str>>(e@),
    }
}

impl Requirement {
    pub fn new(name: &'static str, optional: bool, check: Check) -> (r: Requirement)
        ensures
            r == (Requirement { name, optional, check }),
    {
        Requirement { name, optional, check }
    }
}

/// Whether some character of `c` is numeric.
fn any_numeric(c: &Vec<char>) -> (r: bool)
    ensures
        r == exists|i: int| 0 <= i < c@.len() && numeric_char(#[trigger] c@[i]),
{
    let mut i: usize = 0;
    while i < c.len()
        invariant
            i <= c@.len(),
            forall|j: int| 0 <= j < i ==> !numeric_char(#[trigger] c@[j]),
        decreases c@.len() - i,
    {
        if is_numeric(c[i]) {
            return true;
        }
        i += 1;
    }
    false
}

/// Whether some character of `c` is upper-case.
fn any_uppercase(c: &Vec<char>) -> (r: bool)
    ensures
        r == exists|i: int| 0 <= i < c@.len() && uppercase_char(#[trigger] c@[i]),
{
    let mut i: usize = 0;
    while i < c.len()
        invariant
            i <= c@.len(),
            forall|j: int| 0 <= j < i ==> !uppercase_char(#[trigger] c@[j]),
        decreases c@.len() - i,
    {
        if is_uppercase(c[i]) {
            return true;
        }
        i += 1;
    }
    false
}

/// Whether some character of `c` is lower-case.
fn any_lowercase(c: &Vec<char>) -> (r: bool)
    ensures
        r == exists|i: int| 0 <= i < c@.len() && lowercase_char(#[trigger] c@[i]),
{
    let mut i: usize = 0;
    while i < c.len()
        invariant
            i <= c@.len(),
            forall|j: int| 0 <= j < i ==> !lowercase_char(#[trigger] c@[j]),
        decreases c@.len() - i,
    {
        if is_lowercase(c[i]) {
            return true;
        }
        i += 1;
    }
    false
}

/// Whether some character of `c` is not alphanumeric.
fn any_special(c: &Vec<char>) -> (r: bool)
    ensures
        r == exists|i: int| 0 <= i < c@.len() && !alphanumeric_char(#[trigger] c@[i]),
{
    let mut i: usize = 0;
    while i < c.len()
        invariant
            i <= c@.len(),
            forall|j: int| 0 <= j < i ==> alphanumeric_char(#[trigger] c@[j]),
        decreases c@.len() - i,
    {
        if !is_alphanumeric(c[i]) {
            return true;
        }
        i += 1;
    }
    false
}

/// Whether `x` is one of `allowed`.
fn contains_char(allowed: &Vec<char>, x: char) -> (r: bool)
    ensures
        r == allowed@.contains(x),
{
    let mut i: usize = 0;
    while i < allowed.len()
        invariant
            i <= allowed@.len(),
            forall|j: int| 0 <= j < i ==> allowed@[j] != x,
        decreases allowed@.len() - i,
    {
        if allowed[i] == x {
            assert(allowed@[i as int] == x);
            return true;
        }
        i += 1;
    }
    false
}

/// Whether every character of `c` is alphanumeric or one of `allowed`.
fn all_allowed(c: &Vec<char>, allowed: &Vec<char>) -> (r: bool)
    ensures
        r == forall|i: int| 0 <= i < c@.len() ==> alphanumeric_char(#[trigger] c@[i]) || allowed@.contains(c@[i]),
{
    let mut i: usize = 0;
    while i < c.len()
        invariant
            i <= c@.len(),
            forall|j: int| 0 <= j < i ==> alphanumeric_char(#[trigger] c@[j]) || allowed@.contains(c@[j]),
        decreases c@.len() - i,
    {
        if !is_alphanumeric(c[i]) && !contains_char(allowed, c[i]) {
            return false;
        }
        i += 1;
    }
    true
}

impl Check {
    /// Whether `value` meets this check.
    pub fn holds(&self, value: &str) -> (r: bool)
        ensures
            r == check_holds(*self, value@),
    {
        let c = chars_of(value);
        let len = value.as_bytes().len();
        match self {
            Check::MinLength(m) => (*m as i128) <= (len as i128),
            Check::LengthIn(lo, hi) => (*lo as i128) <= (len as i128) && (len as i128) < (*hi as i128),
            Check::ContainsNumber => any_numeric(&c),
            Check::ContainsUppercase => any_uppercase(&c),
            Check::ContainsLowercase => any_lowercase(&c),
            Check::ContainsSpecial => any_special(&c),
            Check::OnlyAlphanumericOr(allowed) => {
                let a = chars_of(allowed.as_str());
                all_allowed(&c, &a)
            },
        }
    }
}

/// Validates `value` against `reqs`, of which at least `count` optional ones
/// (or all of them, when there are fewer) must pass.
pub fn validate_requirements(reqs: &Vec<Requirement>, count: usize, value: &str) -> (r: Result<(), Vec<&'static str>>)
    ensures
        validation_is(r, validation(reqs@, count, value@)),
{
    let ghost s = value@;
    let mut mand: Vec<&'static str> = Vec::new();
    let mut opt: Vec<&'static str> = Vec::new();
    let mut passed: usize = 0;
    let mut total: usize = 0;
    let mut i: usize = 0;
    proof {
        reveal(Seq::filter);
        assert(reqs@.subrange(0, 0) =~= Seq::<Requirement>::empty());
        assert(names(Seq::<Requirement>::empty()) =~= Seq::<&'static str>::empty());
    }
    while i < reqs.len()
        invariant
            i <= reqs@.len(),
            s == value@,
            passed <= i,
            total <= i,
            mand@ == names(mandatory_failed(reqs@.subrange(0, i as int), s)),
            opt@ == names(optional_failed(reqs@.subrange(0, i as int), s)),
            passed == optional_passed(reqs@.subrange(0, i as int), s).len(),
            total == optional_reqs(reqs@.subrange(0, i as int)).len(),
        decreases reqs@.len() - i,
    {
        let req = &reqs[i];
        let ok = req.check.holds(value);
        let ghost pre = reqs@.subrange(0, i as int);
        let ghost cur = reqs@.subrange(0, i + 1 as int);
        proof {
            reveal(Seq::filter);
            assert(cur.drop_last() =~= pre);
            assert(cur.last() == *req);
        }
        if req.optional {
            total += 1;
            if ok {
                passed += 1;
            } else {
                let ghost before = optional_failed(pre, s);
                opt.push(req.name);
                assert(names(before.push(*req)) =~= names(before).push(req.name));
            }
        } else if !ok {
            let ghost before = mandatory_failed(pre, s);
            mand.push(req.name);
            assert(names(before.push(*req)) =~= names(before).push(req.name));
        }
        i += 1;
    }
    assert(reqs@.subrange(0, reqs@.len() as int) =~= reqs@);
    let need = if count < total { count } else { total };
    if mand.len() == 0 && passed >= need {
        Ok(())
    } else {
        mand.append(&mut opt);
        Err(mand)
    }
}

/// A failure list names the failed mandatory requirements first and the
/// failed optional ones after them, each group in the order of the list.
pub proof fn lemma_failure_order(reqs: Seq<Requirement>, count: usize, s: Seq<char>)
    ensures
        validation(reqs, count, s) matches Err(v) ==> {
            let m = names(mandatory_failed(reqs, s));
            &&& v.subrange(0, m.len() as int) == m
            &&& v.subrange(m.len() as int, v.len() as int) == names(optional_failed(reqs, s))
        },
{
    let m = names(mandatory_failed(reqs, s));
    let o = names(optional_failed(reqs, s));
    assert((m + o).subrange(0, m.len() as int) =~= m);
    assert((m + o).subrange(m.len() as int, (m + o).len() as int) =~= o);
}

/// A policy of requirements over candidate strings.
pub trait Requirements {
    spec fn spec_requirements(&self) -> Seq<Requirement>;

    spec fn spec_optional_required_count(&self) -> usize;

    /// The requirements, in order.
    fn requirements(&self) -> (r: Vec<Requirement>)
        ensures
            r@ == self.spec_requirements(),
    ;

    /// How many optional requirements must pass.
    fn optional_required_count(&self) -> (r: usize)
        ensures
            r == self.spec_optional_required_count(),
    ;

    /// Validates `value` against the policy.
    fn validate(&self, value: &str) -> (r: Result<(), Vec<&'static str>>)
        ensures
            validation_is(r, validation(self.spec_requirements(), self.spec_optional_required_count(), value@)),
    {
        let reqs = self.requirements();
        let count = self.optional_required_count();
        validate_requirements(&reqs, count, value)
    }
}

} // verus!
