use shared_models::policy::{PasswordRequirements, UsernameRequirements};
use shared_models::requirement::{validate_requirements, Check, Requirement, Requirements};

#[test]
fn username_default_rejects_short_name() {
    assert_eq!(UsernameRequirements::default().validate("ab"), Err(vec!["Username_InvalidLength"]));
}

#[test]
fn username_default_accepts_name_with_special_chars() {
    assert_eq!(UsernameRequirements::default().validate("a_b.3"), Ok(()));
}

#[test]
fn username_special_chars_in_any_order() {
    assert_eq!(UsernameRequirements::default().validate("a._b"), Ok(()));
}

#[test]
fn username_length_is_half_open() {
    let u = UsernameRequirements::default();
    assert_eq!(u.validate(&"a".repeat(27)), Ok(()));
    assert_eq!(u.validate(&"a".repeat(28)), Err(vec!["Username_InvalidLength"]));
    assert_eq!(u.validate("abc"), Ok(()));
}

#[test]
fn username_both_failures_in_order() {
    assert_eq!(
        UsernameRequirements::default().validate("a b"),
        Err(vec!["Username_OnlyAlphanumericOrSelectedChars"])
    );
    assert_eq!(
        UsernameRequirements::default().validate("a?"),
        Err(vec!["Username_InvalidLength", "Username_OnlyAlphanumericOrSelectedChars"])
    );
}

#[test]
fn password_default_accepts_strong_password() {
    assert_eq!(PasswordRequirements::default().validate("Abcd12!x"), Ok(()));
}

#[test]
fn password_default_needs_three_classes() {
    assert_eq!(
        PasswordRequirements::default().validate("abcdefgh1"),
        Err(vec!["Password_ContainsUppercase", "Password_ContainsSpecial"])
    );
    assert_eq!(PasswordRequirements::default().validate("abcdefG1"), Ok(()));
}

#[test]
fn password_mandatory_failures_come_first() {
    assert_eq!(
        PasswordRequirements::default().validate("abc"),
        Err(vec![
            "Password_MinLength",
            "Password_ContainsNumber",
            "Password_ContainsUppercase",
            "Password_ContainsSpecial"
        ])
    );
}

#[test]
fn password_clamp_to_enabled_checks() {
    let p = PasswordRequirements {
        min_length: 4,
        passes_required: 3,
        numbers: true,
        uppercase: false,
        lowercase: true,
        special: false,
    };
    assert_eq!(p.requirements().len(), 3);
    assert_eq!(p.optional_required_count(), 3);
    assert_eq!(p.validate("abc1"), Ok(()));
    assert_eq!(p.validate("abcd"), Err(vec!["Password_ContainsNumber"]));
}

#[test]
fn password_negative_min_length_always_passes() {
    let p = PasswordRequirements {
        min_length: -1,
        passes_required: 0,
        numbers: false,
        uppercase: false,
        lowercase: false,
        special: false,
    };
    assert_eq!(p.validate("anything"), Ok(()));
    assert_eq!(p.validate(""), Ok(()));
}

#[test]
fn password_length_counts_bytes() {
    let p = PasswordRequirements {
        min_length: 4,
        passes_required: 0,
        numbers: false,
        uppercase: false,
        lowercase: false,
        special: false,
    };
    assert_eq!(p.validate("żż"), Ok(()));
    assert_eq!(p.validate("ż"), Err(vec!["Password_MinLength"]));
}

#[test]
fn requirement_engine_counts_optional_passes() {
    let reqs = vec![
        Requirement::new("a", true, Check::ContainsNumber),
        Requirement::new("b", true, Check::ContainsUppercase),
        Requirement::new("c", false, Check::MinLength(1)),
    ];
    assert_eq!(validate_requirements(&reqs, 1, "x1"), Ok(()));
    assert_eq!(validate_requirements(&reqs, 2, "x1"), Err(vec!["b"]));
    assert_eq!(validate_requirements(&reqs, 0, ""), Err(vec!["c", "a", "b"]));
    assert_eq!(Check::LengthIn(1, 3).holds("ab"), true);
    assert_eq!(Check::OnlyAlphanumericOr("-".to_string()).holds("a-b"), true);
}

#[test]
fn password_negative_passes_required_needs_none() {
    let p = PasswordRequirements {
        min_length: 1,
        passes_required: -2,
        numbers: true,
        uppercase: true,
        lowercase: false,
        special: false,
    };
    assert_eq!(p.optional_required_count(), 0);
    assert_eq!(p.validate("x"), Ok(()));
}
