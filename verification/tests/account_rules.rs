use utopia_server::admin::{schema_doc_address, SCHEMA_FOLDER};
use utopia_server::accounts::{
    decide_remove, decide_set_role, may_create_kb, new_display_name, org_name, password_change_verdict,
    requested_role, validate_create_user, validate_new_kb, validate_register, ChangePasswordReq, CreateKbReq,
    CreateUserReq, IssueReq, Refusal, RegisterReq, Role, SetRoleReq, UpdateMeReq,
};

fn reg(email: &str, password: &str, name: &str) -> RegisterReq {
    RegisterReq { email: email.into(), password: password.into(), display_name: name.into(), org_name: None }
}

#[test]
fn a_registration_is_checked_email_then_password_then_name() {
    assert_eq!(validate_register(&reg("ada@example.com", "correct horse", "Ada")), Ok(()));
    assert_eq!(validate_register(&reg("ada.example.com", "short", "")), Err(Refusal::BadEmail));
    assert_eq!(validate_register(&reg("ada@example.com", "short", "")), Err(Refusal::PasswordTooShort));
    assert_eq!(validate_register(&reg("ada@example.com", "12345678", "   ")), Err(Refusal::BadDisplayName));
    assert_eq!(validate_register(&reg("ada@example.com", "密码密码密码密码", "Ada")), Ok(()));
    assert_eq!(validate_register(&reg("ada@example.com", "密码密码密码", "Ada")), Err(Refusal::PasswordTooShort));
    assert_eq!(validate_register(&reg("ada@example.com", "12345678", &"n".repeat(65))), Err(Refusal::BadDisplayName));
    assert_eq!(validate_register(&reg("ada@example.com", "12345678", &"n".repeat(64))), Ok(()));
}

#[test]
fn an_email_is_measured_in_bytes() {
    let long = format!("{}@x.io", "a".repeat(249));
    assert_eq!(long.len(), 254);
    assert_eq!(validate_register(&reg(&long, "12345678", "Ada")), Ok(()));
    let too_long = format!("{}@x.io", "a".repeat(250));
    assert_eq!(validate_register(&reg(&too_long, "12345678", "Ada")), Err(Refusal::BadEmail));
    // 127 two-byte characters and an @ are 255 bytes, though only 128 characters
    let wide = format!("{}@", "é".repeat(127));
    assert_eq!(wide.len(), 255);
    assert_eq!(validate_register(&reg(&wide, "12345678", "Ada")), Err(Refusal::BadEmail));
}

#[test]
fn refusals_carry_their_codes_and_sentences() {
    assert_eq!(Refusal::BadEmail.code(), "bad_email");
    assert_eq!(Refusal::PasswordTooShort.message(), "Password must be at least 8 characters");
    assert_eq!(Refusal::LastOwnerDemote.code(), "last_owner_demote");
    assert_eq!(Refusal::LastOwnerRemove.message(), "Cannot remove the last owner");
}

#[test]
fn an_organisation_name_counts_only_when_not_blank() {
    let mut r = reg("a@b", "12345678", "A");
    assert_eq!(org_name(&r), None);
    r.org_name = Some("  Acme  ".into());
    assert_eq!(org_name(&r), Some("Acme".to_string()));
    r.org_name = Some("   ".into());
    assert_eq!(org_name(&r), None);
}

#[test]
fn a_new_display_name_is_trimmed_first() {
    let ok = new_display_name(&UpdateMeReq { display_name: "  Ada Lovelace ".into() });
    assert_eq!(ok, Ok("Ada Lovelace".to_string()));
    let spaced = format!("  {}  ", "n".repeat(64));
    assert_eq!(new_display_name(&UpdateMeReq { display_name: spaced }), Ok("n".repeat(64)));
    assert_eq!(new_display_name(&UpdateMeReq { display_name: " ".into() }), Err(Refusal::BadDisplayName));
}

#[test]
fn a_password_change_needs_the_current_one_first() {
    let req = ChangePasswordReq { current_password: "old".into(), new_password: "short".into() };
    assert_eq!(password_change_verdict(&req, false), Err(Refusal::WrongPassword));
    assert_eq!(password_change_verdict(&req, true), Err(Refusal::PasswordTooShort));
    let req = ChangePasswordReq { current_password: "old".into(), new_password: "long enough".into() };
    assert_eq!(password_change_verdict(&req, true), Ok(()));
}

#[test]
fn an_admin_creates_editors_unless_told_otherwise() {
    let mut req = CreateUserReq {
        email: "bob@example.com".into(),
        display_name: "Bob".into(),
        password: "12345678".into(),
        role: None,
    };
    assert_eq!(validate_create_user(&req), Ok(Role::Editor));
    req.role = Some("viewer".into());
    assert_eq!(validate_create_user(&req), Ok(Role::Viewer));
    req.role = Some("owner".into());
    assert_eq!(validate_create_user(&req), Err(Refusal::BadRole));
    req.password = "1234567".into();
    assert_eq!(validate_create_user(&req), Err(Refusal::PasswordTooShort));
}

#[test]
fn roles_parse_by_name() {
    assert_eq!(requested_role(&SetRoleReq { role: "owner".into() }), Ok(Role::Owner));
    assert_eq!(requested_role(&SetRoleReq { role: "Admin".into() }), Err(Refusal::BadMemberRole));
    assert_eq!(Role::parse("viewer"), Some(Role::Viewer));
    assert!(Role::Owner.at_least(Role::Admin));
    assert!(!Role::Editor.at_least(Role::Admin));
}

#[test]
fn the_last_owner_cannot_be_demoted_or_removed() {
    assert_eq!(decide_set_role(Role::Admin, Role::Owner, Some(Role::Owner), 1), Err(Refusal::LastOwnerDemote));
    assert_eq!(decide_set_role(Role::Admin, Role::Owner, Some(Role::Owner), 2), Ok(()));
    assert_eq!(decide_remove(Role::Owner, Some(Role::Owner), 1), Err(Refusal::LastOwnerRemove));
    assert_eq!(decide_remove(Role::Owner, Some(Role::Owner), 2), Ok(()));
}

#[test]
fn only_an_owner_touches_an_owner() {
    assert_eq!(decide_set_role(Role::Owner, Role::Admin, Some(Role::Editor), 1), Err(Refusal::Forbidden));
    assert_eq!(decide_set_role(Role::Viewer, Role::Admin, Some(Role::Owner), 3), Err(Refusal::Forbidden));
    assert_eq!(decide_set_role(Role::Viewer, Role::Admin, Some(Role::Editor), 1), Ok(()));
    assert_eq!(decide_remove(Role::Admin, Some(Role::Owner), 3), Err(Refusal::Forbidden));
    assert_eq!(decide_remove(Role::Admin, Some(Role::Editor), 1), Ok(()));
    assert_eq!(decide_remove(Role::Admin, None, 1), Err(Refusal::NotFound));
}

#[test]
fn a_knowledge_base_needs_a_name_and_a_known_kind() {
    let kb = |name: &str, kind: Option<&str>| CreateKbReq {
        name: name.into(),
        kind: kind.map(String::from),
        description: None,
        visibility: None,
    };
    assert_eq!(validate_new_kb(&kb("  Notes ", None)), Ok(("Notes".to_string(), "knowledge".to_string())));
    assert_eq!(validate_new_kb(&kb("Diary", Some("memory"))), Ok(("Diary".to_string(), "memory".to_string())));
    assert_eq!(validate_new_kb(&kb("Diary", Some("graph"))), Err(Refusal::BadKbKind));
    assert_eq!(validate_new_kb(&kb("   ", Some("graph"))), Err(Refusal::BadKbName));
    assert_eq!(validate_new_kb(&kb(&"k".repeat(65), None)), Err(Refusal::BadKbName));
    assert!(may_create_kb(true, Role::Viewer));
    assert!(may_create_kb(false, Role::Admin));
    assert!(!may_create_kb(false, Role::Editor));
}

#[test]
fn a_token_lives_ninety_days_unless_told_otherwise() {
    let req = IssueReq {
        name: "ci".into(),
        scope: utopia_server::accounts::default_scope(),
        kb_ids: None,
        expires_in_days: utopia_server::accounts::default_days(),
    };
    assert_eq!(req.scope, "read");
    assert_eq!(req.lifetime_days(), Some(90));
    let forever = IssueReq { expires_in_days: 0, ..req };
    assert_eq!(forever.lifetime_days(), None);
}

#[test]
fn a_schema_document_is_filed_by_its_source() {
    let id = uuid::Uuid::parse_str("1f8ac10b-58cc-4372-a567-0e02b2c3d479").unwrap();
    let (key, file, mime) = schema_doc_address(&id, "warehouse");
    assert_eq!(key, "datasource:1f8ac10b-58cc-4372-a567-0e02b2c3d479:schema");
    assert_eq!(file, "warehouse-schema.md");
    assert_eq!(mime, "text/markdown");
    assert_eq!(SCHEMA_FOLDER, "Data schemas");
}
