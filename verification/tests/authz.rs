use dashmap::DashMap;
use sdrive_backend::admin::{delete_token, update_token, PermissionsPayload, TokenPath};
use sdrive_backend::authz::{authorize, holds_any, AuthzOutcome};

fn strings(items: &[&str]) -> Vec<String> {
    items.iter().map(|s| s.to_string()).collect()
}

#[test]
fn authz() {
    let mut tokens = DashMap::new();
    tokens.insert("test".to_string(), strings(&["admin"]));
    tokens.insert("test_no_permission".to_string(), vec![]);
    tokens.insert("test_min_permission".to_string(), strings(&["user"]));
    let required = strings(&["admin"]);

    let no_auth = authorize(&mut tokens, None, &required);
    assert_eq!(no_auth, AuthzOutcome::MissingAuthorization);
    assert_eq!(no_auth.rejection(), Some((401, "Missing authorization header")));

    let wrong_auth = authorize(&mut tokens, Some("wrong"), &required);
    assert_eq!(wrong_auth, AuthzOutcome::InvalidToken);
    assert_eq!(wrong_auth.rejection(), Some((401, "Invalid token")));

    let no_perm = authorize(&mut tokens, Some("test_no_permission"), &required);
    assert_eq!(no_perm, AuthzOutcome::InsufficientPermissions);
    assert_eq!(no_perm.rejection(), Some((403, "Insufficient permissions")));

    let min_perm = authorize(&mut tokens, Some("test_min_permission"), &required);
    assert_eq!(min_perm, AuthzOutcome::InsufficientPermissions);
    assert_eq!(min_perm.rejection(), Some((403, "Insufficient permissions")));

    let auth = authorize(&mut tokens, Some("test"), &required);
    assert_eq!(auth, AuthzOutcome::Authorized);
    assert_eq!(auth.rejection(), None);
}

#[test]
fn any_one_required_permission_is_enough() {
    let held = strings(&["drive", "profile"]);
    assert!(holds_any(&held, &strings(&["token", "profile"])));
    assert!(!holds_any(&held, &strings(&["token", "admin"])));
    assert!(!holds_any(&held, &[]));
    assert!(!holds_any(&vec![], &strings(&["drive"])));
}

#[test]
fn added_token_is_authorized() {
    let mut tokens = DashMap::new();
    let required = strings(&["drive"]);
    assert_eq!(authorize(&mut tokens, Some("fresh"), &required), AuthzOutcome::InvalidToken);
    tokens.insert("fresh".to_string(), strings(&["drive"]));
    assert_eq!(authorize(&mut tokens, Some("fresh"), &required), AuthzOutcome::Authorized);
}

#[test]
fn deleted_token_is_invalid() {
    let mut tokens = DashMap::new();
    tokens.insert("gone".to_string(), strings(&["drive"]));
    let _ = delete_token(&mut tokens, TokenPath::new("gone".to_string()));
    assert_eq!(authorize(&mut tokens, Some("gone"), &strings(&["drive"])), AuthzOutcome::InvalidToken);
}

#[test]
fn updated_permissions_decide() {
    let mut tokens = DashMap::new();
    tokens.insert("t".to_string(), strings(&["drive"]));
    let _ = update_token(
        &mut tokens,
        TokenPath::new("t".to_string()),
        PermissionsPayload { permissions: strings(&["profile"]) },
    );
    assert_eq!(
        authorize(&mut tokens, Some("t"), &strings(&["drive"])),
        AuthzOutcome::InsufficientPermissions
    );
    assert_eq!(authorize(&mut tokens, Some("t"), &strings(&["profile"])), AuthzOutcome::Authorized);
}
