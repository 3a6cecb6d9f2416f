use dashmap::DashMap;
use sdrive_backend::admin::{
    add_token as add, delete_token as delete, list_tokens, update_token as update, PermissionsPayload,
    TokenPath, TokenPayload,
};

fn strings(items: &[&str]) -> Vec<String> {
    items.iter().map(|s| s.to_string()).collect()
}

fn test_table() -> DashMap<String, Vec<String>> {
    let mut tokens = DashMap::new();
    tokens.insert("test".to_string(), strings(&["admin"]));
    tokens
}

#[test]
fn add_token() {
    let mut tokens = test_table();
    let response = add(
        &mut tokens,
        TokenPayload { token: "test_new".to_string(), permissions: strings(&["a", "b", "c"]) },
    );
    assert_eq!(response, Ok((201, "Token created")));
    assert!(tokens.contains_key("test_new"));
    assert!(tokens.get("test_new").unwrap().contains(&"a".to_string()));
    assert!(tokens.get("test_new").unwrap().contains(&"b".to_string()));
    assert!(tokens.get("test_new").unwrap().contains(&"c".to_string()));
}

#[test]
fn delete_token() {
    let mut tokens = test_table();
    let response = delete(&mut tokens, TokenPath::new("test".to_string()));
    assert_eq!(response, Ok((200, "Token deleted")));
    assert!(!tokens.contains_key("test"));
}

#[test]
fn update_token() {
    let mut tokens = test_table();
    let response = update(
        &mut tokens,
        TokenPath::new("test".to_string()),
        PermissionsPayload { permissions: strings(&["a", "b", "c"]) },
    );
    assert_eq!(response, Ok((200, "Token updated")));
    assert!(tokens.get("test").unwrap().contains(&"a".to_string()));
    assert!(tokens.get("test").unwrap().contains(&"b".to_string()));
    assert!(tokens.get("test").unwrap().contains(&"c".to_string()));
    assert!(!tokens.get("test").unwrap().contains(&"admin".to_string()));
}

#[test]
fn get_tokens() {
    let mut tokens = test_table();
    let listed = list_tokens(&mut tokens);
    assert!(!listed.is_empty());
    assert!(listed.iter().any(|t| t.token == "test"));
}

#[test]
fn add_token_empty_token() {
    let mut tokens = test_table();
    let response = add(
        &mut tokens,
        TokenPayload { token: "".to_string(), permissions: strings(&["a", "b", "c"]) },
    );
    assert_eq!(response.map_err(|(status, _)| status), Err(400));
    assert_eq!(tokens.len(), 1);
}

#[test]
fn add_token_empty_token_message() {
    let mut tokens = test_table();
    let response = add(&mut tokens, TokenPayload { token: "".to_string(), permissions: vec![] });
    assert_eq!(response, Err((400, "token: Token cannot be empty".to_string())));
}

#[test]
fn delete_unknown_token_is_not_found() {
    let mut tokens = test_table();
    let response = delete(&mut tokens, TokenPath::new("missing".to_string()));
    assert_eq!(response, Err((404, "Token not found".to_string())));
    assert!(tokens.contains_key("test"));
}

#[test]
fn delete_empty_token_is_refused() {
    let mut tokens = test_table();
    let response = delete(&mut tokens, TokenPath::new(String::new()));
    assert_eq!(response, Err((400, "token: Token cannot be empty".to_string())));
}

#[test]
fn update_unknown_token_is_not_found() {
    let mut tokens = test_table();
    let response = update(
        &mut tokens,
        TokenPath::new("missing".to_string()),
        PermissionsPayload { permissions: strings(&["a"]) },
    );
    assert_eq!(response, Err((404, "Token not found".to_string())));
    assert!(!tokens.contains_key("missing"));
}

#[test]
fn add_existing_token_replaces_permissions() {
    let mut tokens = test_table();
    let response = add(
        &mut tokens,
        TokenPayload { token: "test".to_string(), permissions: strings(&["drive"]) },
    );
    assert_eq!(response, Ok((201, "Token created")));
    assert_eq!(*tokens.get("test").unwrap(), strings(&["drive"]));
}

#[test]
fn list_tokens_gives_each_token_once() {
    let mut tokens = test_table();
    tokens.insert("second".to_string(), strings(&["drive", "token"]));
    let mut listed: Vec<(String, Vec<String>)> =
        list_tokens(&mut tokens).into_iter().map(|t| (t.token, t.permissions)).collect();
    listed.sort();
    assert_eq!(
        listed,
        vec![
            ("second".to_string(), strings(&["drive", "token"])),
            ("test".to_string(), strings(&["admin"])),
        ]
    );
}
