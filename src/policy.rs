//! Account policies: the username and password requirements that an
//! administrator configures, projected into requirement lists.
use vstd::prelude::*;
use crate::requirement::{
    Check, Requirement, Requirements, check_holds, mandatory_failed, optional_passed,
    optional_reqs, validation,
};

verus! {

/// The password policy.
#[derive(Clone, Copy, Debug, PartialEq, Eq, Structural)]
pub struct PasswordRequirements {
    pub min_length: i32,
    pub passes_required: i32,
    pub numbers: bool,
    pub uppercase: bool,
    pub lowercase: bool,
    pub special: bool,
}

/// The username policy.
#[derive(Clone, Debug, PartialEq)]
pub struct UsernameRequirements {
    pub min_length: i32,
    pub max_length: i32,
    pub special_chars: String,
}

pub open spec fn push_if(s: Seq<Requirement>, cond: bool, r: Requirement) -> Seq<Requirement> {
    if cond {
        s.push(r)
    } else {
        s
    }
}

/// The password requirements: the mandatory minimum length, then one optional
/// check per enabled character class, in the order numbers, upper case,
/// lower case, special.
pub open spec fn password_requirements(p: PasswordRequirements) -> Seq<Requirement> {
    let base = seq![Requirement { name: "Password_MinLength", optional: false, check: Check::MinLength(p.min_length) }];
    let a = push_if(base, p.numbers, Requirement { name: "Password_ContainsNumber", optional: true, check: Check::ContainsNumber });
    let b = push_if(a, p.uppercase, Requirement { name: "Password_ContainsUppercase", optional: true, check: Check::ContainsUppercase });
    let c = push_if(b, p.lowercase, Requirement { name: "Password_ContainsLowercase", optional: true, check: Check::ContainsLowercase });
    push_if(c, p.special, Requirement { name: "Password_ContainsSpecial", optional: true, check: Check::ContainsSpecial })
}

/// How many optional checks must pass: the configured count, none when it
/// is negative.
pub open spec fn required_passes(p: PasswordRequirements) -> usize {
    if p.passes_required < 0 {
        0
    } else {
        p.passes_required as usize
    }
}

/// The number of enabled character-class checks.
pub open spec fn enabled_checks(p: PasswordRequirements) -> int {
    (if p.numbers { 1int } else { 0 }) + (if p.uppercase { 1int } else { 0 }) + (if p.lowercase { 1int } else { 0 }) + (if p.special { 1int } else { 0 })
}

/// The username requirements: a byte length in `[min_length, max_length)`,
/// and only alphanumeric characters or the configured special ones.
pub open spec fn username_requirements(u: UsernameRequirements) -> Seq<Requirement> {
    seq![
        Requirement { name: "Username_InvalidLength", optional: false, check: Check::LengthIn(u.min_length, u.max_length) },
        Requirement { name: "Username_OnlyAlphanumericOrSelectedChars", optional: false, check: Check::OnlyAlphanumericOr(u.special_chars) },
    ]
}

impl Default for PasswordRequirements {
    fn default() -> (r: PasswordRequirements)
        ensures
            r == (PasswordRequirements { min_length: 8, passes_required: 3, numbers: true, uppercase: true, lowercase: true, special: true }),
    {
        PasswordRequirements { min_length: 8, passes_required: 3, numbers: true, uppercase: true, lowercase: true, special: true }
    }
}

impl Default for UsernameRequirements {
    fn default() -> (r: UsernameRequirements)
        ensures
            r.min_length == 3,
            r.max_length == 28,
            r.special_chars@ == "-_.$@!#%^&*"@,
    {
        UsernameRequirements { min_length: 3, max_length: 28, special_chars: "-_.$@!#%^&*".to_owned() }
    }
}

impl Requirements for PasswordRequirements {
    open spec fn spec_requirements(&self) -> Seq<Requirement> {
        password_requirements(*self)
    }

    open spec fn spec_optional_required_count(&self) -> usize {
        required_passes(*self)
    }

    fn requirements(&self) -> (r: Vec<Requirement>) {
        let mut reqs = vec![Requirement::new("Password_MinLength", false, Check::MinLength(self.min_length))];
        let ghost s0 = reqs@;
        if self.numbers {
            reqs.push(Requirement::new("Password_ContainsNumber", true, Check::ContainsNumber));
        }
        let ghost s1 = reqs@;
        if self.uppercase {
            reqs.push(Requirement::new("Password_ContainsUppercase", true, Check::ContainsUppercase));
        }
        let ghost s2 = reqs@;
        if self.lowercase {
            reqs.push(Requirement::new("Password_ContainsLowercase", true, Check::ContainsLowercase));
        }
        let ghost s3 = reqs@;
        if self.special {
            reqs.push(Requirement::new("Password_ContainsSpecial", true, Check::ContainsSpecial));
        }
        assert(reqs@ =~= password_requirements(*self));
        reqs
    }

    fn optional_required_count(&self) -> (r: usize) {
        if self.passes_required < 0 {
            0
        } else {
            self.passes_required as usize
        }
    }
}

impl Requirements for UsernameRequirements {
    open spec fn spec_requirements(&self) -> Seq<Requirement> {
        username_requirements(*self)
    }

    open spec fn spec_optional_required_count(&self) -> usize {
        0
    }

    fn requirements(&self) -> (r: Vec<Requirement>) {
        let reqs = vec![
            Requirement::new("Username_InvalidLength", false, Check::LengthIn(self.min_length, self.max_length)),
            Requirement::new("Username_OnlyAlphanumericOrSelectedChars", false, Check::OnlyAlphanumericOr(self.special_chars.clone())),
        ];
        assert(reqs@ =~= username_requirements(*self));
        reqs
    }

    fn optional_required_count(&self) -> (r: usize) {
        0
    }
}

/// When every requirement holds, no mandatory one fails and every optional
/// one passes.
pub proof fn lemma_all_hold(reqs: Seq<Requirement>, s: Seq<char>)
    requires
        forall|i: int| 0 <= i < reqs.len() ==> check_holds(#[trigger] reqs[i].check, s),
    ensures
        mandatory_failed(reqs, s).len() == 0,
        optional_passed(reqs, s) == optional_reqs(reqs),
    decreases reqs.len(),
{
    reveal(Seq::filter);
    if reqs.len() > 0 {
        let init = reqs.drop_last();
        assert forall|i: int| 0 <= i < init.len() implies check_holds(#[trigger] init[i].check, s) by {
            assert(init[i] == reqs[i]);
        }
        lemma_all_hold(init, s);
        assert(check_holds(reqs[reqs.len() - 1].check, s));
    }
}

proof fn lemma_push_if_holds(base: Seq<Requirement>, cond: bool, r: Requirement, s: Seq<char>)
    requires
        forall|i: int| 0 <= i < base.len() ==> check_holds(#[trigger] base[i].check, s),
        cond ==> check_holds(r.check, s),
    ensures
        forall|i: int| 0 <= i < push_if(base, cond, r).len() ==> check_holds(#[trigger] push_if(base, cond, r)[i].check, s),
{
    if cond {
        assert forall|i: int| 0 <= i < push_if(base, cond, r).len() implies check_holds(#[trigger] push_if(base, cond, r)[i].check, s) by {
            if i < base.len() {
                assert(push_if(base, cond, r)[i] == base[i]);
            }
        }
    }
}

/// A password that meets the minimum length and every enabled character-class
/// check is accepted, even when the policy asks for more passes than it
/// enables checks.
pub proof fn lemma_password_clamp(p: PasswordRequirements, s: Seq<char>)
    requires
        p.passes_required > enabled_checks(p),
        check_holds(Check::MinLength(p.min_length), s),
        p.numbers ==> check_holds(Check::ContainsNumber, s),
        p.uppercase ==> check_holds(Check::ContainsUppercase, s),
        p.lowercase ==> check_holds(Check::ContainsLowercase, s),
        p.special ==> check_holds(Check::ContainsSpecial, s),
    ensures
        validation(password_requirements(p), required_passes(p), s) is Ok,
{
    let base = seq![Requirement { name: "Password_MinLength", optional: false, check: Check::MinLength(p.min_length) }];
    let a = push_if(base, p.numbers, Requirement { name: "Password_ContainsNumber", optional: true, check: Check::ContainsNumber });
    let b = push_if(a, p.uppercase, Requirement { name: "Password_ContainsUppercase", optional: true, check: Check::ContainsUppercase });
    let c = push_if(b, p.lowercase, Requirement { name: "Password_ContainsLowercase", optional: true, check: Check::ContainsLowercase });
    let d = push_if(c, p.special, Requirement { name: "Password_ContainsSpecial", optional: true, check: Check::ContainsSpecial });
    assert forall|i: int| 0 <= i < base.len() implies check_holds(#[trigger] base[i].check, s) by {
        assert(base[i].check == Check::MinLength(p.min_length));
    }
    lemma_push_if_holds(base, p.numbers, Requirement { name: "Password_ContainsNumber", optional: true, check: Check::ContainsNumber }, s);
    lemma_push_if_holds(a, p.uppercase, Requirement { name: "Password_ContainsUppercase", optional: true, check: Check::ContainsUppercase }, s);
    lemma_push_if_holds(b, p.lowercase, Requirement { name: "Password_ContainsLowercase", optional: true, check: Check::ContainsLowercase }, s);
    lemma_push_if_holds(c, p.special, Requirement { name: "Password_ContainsSpecial", optional: true, check: Check::ContainsSpecial }, s);
    lemma_all_hold(d, s);
}

} // verus!
