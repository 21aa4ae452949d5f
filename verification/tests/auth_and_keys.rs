use notes_b::auth::verify_api_key;
use notes_b::errors::AppError;
use notes_b::errors::ErrorKind;
use notes_b::hashing::hash_value;
use notes_b::hashing::verify_hashed_value;
use notes_b::keys::delete_api_key;
use notes_b::keys::generate_api_key;
use notes_b::keys::get_all_api_keys;
use notes_b::keys::update_api_key;
use notes_b::model::Account;
use notes_b::model::ApiKey;
use notes_b::model::ServiceState;

fn issue(state: &mut ServiceState, name: &str, scope: &[&str], email: &str) -> notes_b::model::ApiKeyResponse {
    generate_api_key(
        state,
        Some(name.to_string()),
        Some(scope.iter().map(|s| s.to_string()).collect()),
        Some(email.to_string()),
    )
    .expect("issuance should succeed")
}

#[test]
fn hashing_verifies_own_digest() {
    let h = hash_value("secret").expect("hashing should succeed");
    assert_eq!(verify_hashed_value("secret", &h).unwrap(), true);
}

#[test]
fn hashing_rejects_other_secret() {
    let h = hash_value("secret").expect("hashing should succeed");
    assert_eq!(verify_hashed_value("not-the-secret", &h).unwrap(), false);
}

#[test]
fn issuance_requires_name_and_scope() {
    let mut state = ServiceState::new();
    let r = generate_api_key(&mut state, None, Some(vec!["read".to_string()]), Some("a@x.com".to_string()));
    let e: AppError = r.err().expect("missing name must fail");
    assert_eq!(e.kind, ErrorKind::Validation);
    let r = generate_api_key(&mut state, Some("ci".to_string()), None, Some("a@x.com".to_string()));
    assert_eq!(r.err().unwrap().kind, ErrorKind::Validation);
    assert_eq!(state.accounts.len(), 0);
    assert_eq!(state.api_keys.len(), 0);
}

#[test]
fn issuance_requires_email() {
    let mut state = ServiceState::new();
    let r = generate_api_key(&mut state, Some("ci".to_string()), Some(vec!["read".to_string()]), None);
    assert_eq!(r.err().unwrap().kind, ErrorKind::Validation);
    assert_eq!(state.accounts.len(), 0);
}

#[test]
fn issuance_returns_prefixed_credential() {
    let mut state = ServiceState::new();
    let resp = issue(&mut state, "ci", &["read"], "a@x.com");
    assert_eq!(resp.name, "ci");
    assert_eq!(resp.scope, vec!["read".to_string()]);
    assert!(resp.api_key.starts_with(&format!("{}.", resp.prefix)));
    assert!(resp.prefix.chars().all(|c| c.is_ascii_digit() || c == '-'));
    assert_eq!(state.accounts.len(), 1);
    assert_eq!(state.api_keys.len(), 1);
    assert_eq!(state.accounts[0].email, "a@x.com");
    assert_eq!(state.api_keys[0].prefix, resp.prefix);
    assert_ne!(state.api_keys[0].secret_hash, resp.api_key);
}

#[test]
fn credential_resolves_to_issued_account() {
    let mut state = ServiceState::new();
    let resp = issue(&mut state, "ci", &["read", "write"], "a@x.com");
    let ctx = verify_api_key(&state, Some(&resp.api_key)).expect("credential must authenticate");
    assert_eq!(ctx.account_id, state.accounts[0].id);
    assert_eq!(ctx.scope, vec!["read".to_string(), "write".to_string()]);
    let ctx2 = verify_api_key(&state, Some(&resp.api_key)).expect("verification is repeatable");
    assert_eq!(ctx2.account_id, ctx.account_id);
    assert_eq!(ctx2.scope, ctx.scope);
}

#[test]
fn middleware_rejects_missing_header() {
    let state = ServiceState::new();
    let e = verify_api_key(&state, None).err().unwrap();
    assert_eq!(e.kind, ErrorKind::Unauthenticated);
}

#[test]
fn middleware_rejects_unknown_prefix() {
    let mut state = ServiceState::new();
    let _ = issue(&mut state, "ci", &["read"], "a@x.com");
    let bogus = "0.no-such-token".to_string();
    let e = verify_api_key(&state, Some(&bogus)).err().unwrap();
    assert_eq!(e.kind, ErrorKind::Unauthenticated);
}

#[test]
fn middleware_rejects_wrong_token_under_known_prefix() {
    let mut state = ServiceState::new();
    let resp = issue(&mut state, "ci", &["read"], "a@x.com");
    let forged = format!("{}.aaaaaaaa-bbbb-cccc-dddd-eeeeeeeeeeee", resp.prefix);
    let e = verify_api_key(&state, Some(&forged)).err().unwrap();
    assert_eq!(e.kind, ErrorKind::Unauthenticated);
}

#[test]
fn deleting_keys_revokes_credential() {
    let mut state = ServiceState::new();
    let resp = issue(&mut state, "ci", &["read"], "a@x.com");
    let ctx = verify_api_key(&state, Some(&resp.api_key)).expect("credential must authenticate");
    delete_api_key(&mut state, &ctx).expect("bulk delete reports success");
    assert_eq!(state.api_keys.len(), 0);
    let e = verify_api_key(&state, Some(&resp.api_key)).err().unwrap();
    assert_eq!(e.kind, ErrorKind::Unauthenticated);
}

#[test]
fn colliding_prefixes_resolve_to_their_own_accounts() {
    let mut state = ServiceState::new();
    let cred_a = "99.token-for-account-a".to_string();
    let cred_b = "99.token-for-account-b".to_string();
    for (account, cred, key) in [("acct-a", &cred_a, "key-a"), ("acct-b", &cred_b, "key-b")] {
        state.accounts.push(Account { id: account.to_string(), email: format!("{account}@x.com") });
        state.api_keys.push(ApiKey {
            id: key.to_string(),
            account_id: account.to_string(),
            name: key.to_string(),
            scope_json: "[\"read\"]".to_string(),
            secret_hash: hash_value(cred).unwrap(),
            prefix: "99".to_string(),
        });
    }
    let ctx_a = verify_api_key(&state, Some(&cred_a)).expect("first candidate resolves");
    assert_eq!(ctx_a.account_id, "acct-a");
    let ctx_b = verify_api_key(&state, Some(&cred_b)).expect("later candidate still resolves");
    assert_eq!(ctx_b.account_id, "acct-b");
}

#[test]
fn two_issued_credentials_resolve_independently() {
    let mut state = ServiceState::new();
    let resp_a = issue(&mut state, "a-key", &["read"], "a@x.com");
    let resp_b = issue(&mut state, "b-key", &["write"], "b@x.com");
    let ctx_a = verify_api_key(&state, Some(&resp_a.api_key)).unwrap();
    let ctx_b = verify_api_key(&state, Some(&resp_b.api_key)).unwrap();
    assert_ne!(ctx_a.account_id, ctx_b.account_id);
    assert_eq!(ctx_a.scope, vec!["read".to_string()]);
    assert_eq!(ctx_b.scope, vec!["write".to_string()]);
}

#[test]
fn duplicate_email_makes_two_accounts() {
    let mut state = ServiceState::new();
    let _ = issue(&mut state, "one", &["read"], "a@x.com");
    let _ = issue(&mut state, "two", &["read"], "a@x.com");
    assert_eq!(state.accounts.len(), 2);
    assert_ne!(state.accounts[0].id, state.accounts[1].id);
    assert_eq!(state.accounts[0].email, state.accounts[1].email);
}

#[test]
fn listing_keys_shows_no_secrets() {
    let mut state = ServiceState::new();
    let resp = issue(&mut state, "ci", &["read", "write"], "a@x.com");
    let ctx = verify_api_key(&state, Some(&resp.api_key)).unwrap();
    let listed = get_all_api_keys(&state, &ctx).expect("stored scopes decode");
    assert_eq!(listed.len(), 1);
    assert_eq!(listed[0].id, resp.id);
    assert_eq!(listed[0].name, "ci");
    assert_eq!(listed[0].prefix, resp.prefix);
    assert_eq!(listed[0].scope, vec!["read".to_string(), "write".to_string()]);
}

#[test]
fn listing_keys_is_account_scoped() {
    let mut state = ServiceState::new();
    let resp_a = issue(&mut state, "a-key", &["read"], "a@x.com");
    let _resp_b = issue(&mut state, "b-key", &["read"], "b@x.com");
    let ctx_a = verify_api_key(&state, Some(&resp_a.api_key)).unwrap();
    let listed = get_all_api_keys(&state, &ctx_a).unwrap();
    assert_eq!(listed.len(), 1);
    assert_eq!(listed[0].name, "a-key");
}

#[test]
fn single_key_update_is_unimplemented() {
    let mut state = ServiceState::new();
    let resp = issue(&mut state, "ci", &["read"], "a@x.com");
    let ctx = verify_api_key(&state, Some(&resp.api_key)).unwrap();
    let e = update_api_key(7, &ctx).err().unwrap();
    assert_eq!(e.kind, ErrorKind::Internal);
}

#[test]
fn app_error_keeps_kind_and_message() {
    let e = AppError::new(ErrorKind::NotFound, "gone".to_string());
    assert_eq!(e.kind, ErrorKind::NotFound);
    assert_eq!(e.message, "gone");
}
