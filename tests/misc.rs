use shared_models::country::Country;
use shared_models::error::{AuthError, DbFailure, Error, RegisterError, UserError, ValidationError};
use shared_models::filename::FilenameService;
use shared_models::policy::{PasswordRequirements, UsernameRequirements};
use shared_models::upload::BlobUpload;
use shared_models::user::{ApiResponse, ResourceData, RoleData, UserSettingsDto};
use shared_models::W;

#[test]
fn filename_sanitize_outer_dots_and_reserved() {
    let f = FilenameService::default();
    assert_eq!(f.sanitize("..con<name>.."), "con_name_");
    assert_eq!(f.sanitize("a<<>>b"), "a_b");
    assert_eq!(f.sanitize("con"), "_");
    assert_eq!(f.sanitize("com1"), "_");
    assert_eq!(f.sanitize("..."), "");
    assert_eq!(f.sanitize("ok.txt"), "ok.txt");
}

#[test]
fn filename_sanitize_is_idempotent_on_examples() {
    let f = FilenameService::default();
    for s in ["a<b>c", "..x..", "nul", "a\u{0001}b", "plain"] {
        let once = f.sanitize(s);
        assert_eq!(f.sanitize(&once), once);
        assert!(once.is_empty() || f.is_valid(&once));
    }
}

#[test]
fn filename_sanitize_dot_before_device_name() {
    let f = FilenameService::default();
    assert_eq!(f.sanitize(".con"), "con");
    assert_eq!(f.sanitize("con"), "_");
}

#[test]
fn filename_validity() {
    let f = FilenameService::default();
    assert!(f.is_valid("report.pdf"));
    assert!(!f.is_valid("a:b"));
    assert!(!f.is_valid("lpt3"));
    assert!(f.is_valid("lpt"));
    assert!(!f.is_valid(".hidden"));
    assert!(!f.is_valid("trailing."));
}

#[test]
fn error_status_codes() {
    assert_eq!(Error::Auth(AuthError::JwtError("x".to_string())).status(), 500);
    assert_eq!(Error::Auth(AuthError::MissingClaim("sub".to_string())).status(), 400);
    assert_eq!(Error::Auth(AuthError::TokenExpiredS(5)).status(), 400);
    assert_eq!(Error::Database("x".to_string()).status(), 500);
    assert_eq!(Error::DatabaseConnection("x".to_string()).status(), 500);
    assert_eq!(Error::User(UserError::InvalidCredentials).status(), 401);
    let reg = RegisterError { username_errors: vec![], password_errors: vec!["Password_MinLength".to_string()] };
    assert_eq!(Error::Register(reg).status(), 401);
    assert_eq!(Error::Validation(ValidationError::Country).status(), 400);
    assert_eq!(Error::Status(418, "teapot".to_string()).status(), 418);
}

#[test]
fn error_conversions() {
    assert_eq!(Error::from_auth(AuthError::InvalidFormat("t".to_string())), Error::Auth(AuthError::InvalidFormat("t".to_string())));
    assert_eq!(Error::from_db_failure(DbFailure::UnknownDatabaseError("m".to_string())), Error::Database("m".to_string()));
    assert_eq!(Error::from_db_failure(DbFailure::KnownDatabaseError("m".to_string())), Error::Status(400, "m".to_string()));
    assert_eq!(Error::from_db_failure(DbFailure::NotFound("n".to_string())), Error::Status(404, "n".to_string()));
    assert_eq!(Error::from_db_failure(DbFailure::InvalidInput("q".to_string())), Error::Status(400, "q".to_string()));
    assert_eq!(Error::from_db_failure(DbFailure::Other("o".to_string())), Error::Database("o".to_string()));
}

#[test]
fn settings_round_trip() {
    let u = UsernameRequirements::default();
    let p = PasswordRequirements::default();
    let dto = UserSettingsDto::from_requirements(u.clone(), p);
    assert_eq!(dto.name_special_characters, Some("-_.$@!#%^&*".to_string()));
    assert_eq!(dto.clone().into_requirements(), Ok((u, p)));
    let mut missing = dto;
    missing.password_check_special_characters = None;
    assert_eq!(missing.into_requirements(), Err(()));
    assert_eq!(UserSettingsDto::default().into_requirements(), Err(()));
}

#[test]
fn resource_from_language() {
    let r = ResourceData::new_from_lang("k".to_string(), &Country::Poland, "v".to_string());
    assert_eq!((r.key.as_str(), r.en, r.pl), ("k", None, Some("v".to_string())));
    let r = ResourceData::new_from_lang("k".to_string(), &Country::UnitedKingdom, "v".to_string());
    assert_eq!((r.en, r.pl), (Some("v".to_string()), None));
}

#[test]
fn roles_and_envelope() {
    assert_eq!(RoleData::Admin.name(), "Admin");
    assert_eq!(RoleData::User.name(), "User");
    let ok = ApiResponse::ok(5);
    assert_eq!((ok.status, ok.data), ("success", 5));
    let err = ApiResponse::err("e");
    assert_eq!((err.status, err.data), ("error", "e"));
    assert_eq!(W(3).into_inner(), 3);
}

#[test]
fn upload_form_fields() {
    let mut u = BlobUpload::from_file_parts("f.png".to_string(), "image/png".to_string(), vec![1, 2]);
    u.meta.content_language = Some("en".to_string());
    let fields = u.form_fields();
    let expect: Vec<(String, String)> = vec![
        ("meta.filename", "f.png"),
        ("meta.tags.tags", ""),
        ("meta.content_type", "image/png"),
        ("meta.content_language", "en"),
        ("meta.metadata.[BLOB_TITLE]", ""),
        ("meta.metadata.[BLOB_SUMMARY]", ""),
    ]
    .into_iter()
    .map(|(a, b)| (a.to_string(), b.to_string()))
    .collect();
    assert_eq!(fields, expect);
    assert_eq!(u.content, vec![1, 2]);
}

#[test]
fn error_from_auth_error() {
    let e: Error = AuthError::TokenExpiredS(3).into();
    assert_eq!(e, Error::Auth(AuthError::TokenExpiredS(3)));
}
