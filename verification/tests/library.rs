use sdrive_backend::google::appdata::{PRIMARY_MARKER_LISTING_URL, PRIMARY_MARKER_NAME};
use sdrive_backend::google::appdata::listing_primary;
use sdrive_backend::google::client::GoogleClient;
use sdrive_backend::google::config::GoogleConfig;
use sdrive_backend::allowed_clients::{key_file_action, load_key_file, KeyFileAction};
use dashmap::DashMap;
use sdrive_backend::allowed_clients::{is_secure_key_mode, key_file_kind, register_client_key, ClientKeyFile, KeyFileKind};
use sdrive_backend::clients::Clients;
use sdrive_backend::cors::{cors_policy, split_chars, trim_chars, CorsPolicy};
use sdrive_backend::error::AppError;
use sdrive_backend::filenames::{
    decode_email_from_filename, encode_drive_name, encode_email_for_filename, logical_folder_filename,
    parse_logical_folder_filename, parse_secondary_drive_filename, secondary_drive_filename,
    strip_secondary_drive_filename,
};
use sdrive_backend::google::appdata::{
    appdata_file_exists_in, appdata_upload_body, by_name_query, logical_folder_content, plan_create_if_absent,
    plan_upsert, primary_file_id, secondary_drive_file_for, CreatePlan, UpsertPlan,
};
use sdrive_backend::google::drive::{
    copy_item_body, copy_item_url, create_folder_body, delete_succeeded, drive_about_summary, drive_error_message,
    list_children_url, map_drive_item, map_drive_items, timestamp_hex, upload_boundary,
};
use sdrive_backend::json::{JsonMember, JsonValue};
use sdrive_backend::logger::{build_features, generate, trace_id, LogLevel, LoggerConfig, NoLogger};
use sdrive_backend::schedules::{heartbeat_schedule, HeartbeatTask, Schedule, Task};
use sdrive_backend::server::{server_address, DEFAULT_SERVER_HOST, DEFAULT_SERVER_PORT};
use sdrive_backend::text::{parse_u64_str, replace_str, to_padded_decimal, to_radix_string};
use sdrive_backend::upload::{upload_field, UploadField, UploadForm};

fn s(v: &str) -> JsonValue {
    JsonValue::Str(v.to_string())
}

fn obj(members: Vec<(&str, JsonValue)>) -> JsonValue {
    JsonValue::Object(members.into_iter().map(|(k, v)| JsonMember { key: k.to_string(), value: v }).collect())
}

#[test]
fn email_is_escaped_for_file_names() {
    assert_eq!(encode_email_for_filename("john.doe@gmail.com"), "john__dot__doe__at__gmail__dot__com");
    assert_eq!(encode_email_for_filename(""), "");
}

#[test]
fn drive_name_is_escaped_for_file_names() {
    assert_eq!(
        encode_drive_name("My Drive/a.b\\c@d"),
        "My__space__Drive__slash__a__dot__b__backslash__c__at__d"
    );
}

#[test]
fn file_names_follow_the_fixed_layout() {
    assert_eq!(
        secondary_drive_filename("a__at__b__dot__com", "google", "c__at__d__dot__com"),
        "sdrive---secondary-drive---a__at__b__dot__com---google---c__at__d__dot__com.json"
    );
    assert_eq!(
        logical_folder_filename("a__at__b__dot__com", "Work__space__Stuff"),
        "sdrive---logical-folder---a__at__b__dot__com---Work__space__Stuff.json"
    );
}

#[test]
fn email_round_trip() {
    for e in ["john.doe@gmail.com", "a@b", "x.y.z", "me@at.home"] {
        assert_eq!(decode_email_from_filename(&encode_email_for_filename(e)), e);
    }
}

#[test]
fn email_round_trip_fails_on_dot_at_dot() {
    let e = "me.at.home@x.com";
    assert_ne!(decode_email_from_filename(&encode_email_for_filename(e)), e);
}

#[test]
fn secondary_drive_round_trip() {
    let primary = encode_email_for_filename("owner@mail.com");
    let name = secondary_drive_filename(&primary, "google", &encode_email_for_filename("second@mail.org"));
    assert_eq!(
        parse_secondary_drive_filename(&name, &primary),
        Some(("google".to_string(), "second@mail.org".to_string()))
    );
    assert_eq!(strip_secondary_drive_filename(&name, &primary), "google---second__at__mail__dot__org");
}

#[test]
fn secondary_drive_name_without_separator_is_skipped() {
    assert_eq!(parse_secondary_drive_filename("sdrive---secondary-drive---p---.json", "p"), None);
}

#[test]
fn logical_folder_round_trip() {
    let primary = encode_email_for_filename("owner@mail.com");
    let name = logical_folder_filename(&primary, &encode_drive_name("Work Stuff/2024"));
    assert_eq!(parse_logical_folder_filename(&name, &primary), "Work Stuff/2024");
}

#[test]
fn url_encoding_escapes_reserved_bytes() {
    assert_eq!(copy_item_url("a b&c/é~-._"), "https://www.googleapis.com/drive/v3/files/a%20b%26c%2F%C3%A9~-._/copy");
    assert_eq!(
        list_children_url("root"),
        "https://www.googleapis.com/drive/v3/files?q=%27root%27%20in%20parents%20and%20trashed%20%3D%20false&fields=files%28id%2Cname%2CmimeType%2Csize%2Cparents%2CmodifiedTime%2CwebViewLink%2CwebContentLink%2CthumbnailLink%29&orderBy=folder,name_natural"
    );
}

#[test]
fn replacement_is_left_to_right_and_non_overlapping() {
    assert_eq!(replace_str("aaaa", "aa", "b"), "bb");
    assert_eq!(replace_str("it's", "'", "\\'"), "it\\'s");
    assert_eq!(by_name_query("it's"), "name = 'it\\'s'");
}

#[test]
fn numbers_are_written_and_read() {
    assert_eq!(to_radix_string(255, 16), "ff");
    assert_eq!(to_radix_string(0, 10), "0");
    assert_eq!(to_padded_decimal(42, 6), "000042");
    assert_eq!(to_padded_decimal(1234567, 3), "1234567");
    assert_eq!(parse_u64_str("18446744073709551615"), Some(u64::MAX));
    assert_eq!(parse_u64_str("18446744073709551616"), None);
    assert_eq!(parse_u64_str(""), None);
    assert_eq!(parse_u64_str("12a"), None);
    assert_eq!(parse_u64_str("+12"), Some(12));
}

#[test]
fn drive_about_is_summarized() {
    let about = obj(vec![(
        "storageQuota",
        obj(vec![("limit", s("1000")), ("usage", s("400")), ("usageInDrive", s("300")), ("usageInDriveTrash", s("7"))]),
    )]);
    assert_eq!(
        drive_about_summary(&about).to_json_string(),
        "{\"appDataUsage\":7,\"freeSpace\":700,\"totalSpace\":1000,\"usedSpace\":300}"
    );
    let empty = obj(vec![]);
    assert_eq!(
        drive_about_summary(&empty).to_json_string(),
        "{\"appDataUsage\":0,\"freeSpace\":0,\"totalSpace\":0,\"usedSpace\":0}"
    );
    let over = obj(vec![("storageQuota", obj(vec![("limit", s("10")), ("usage", s("25"))]))]);
    assert_eq!(
        drive_about_summary(&over).to_json_string(),
        "{\"appDataUsage\":0,\"freeSpace\":0,\"totalSpace\":10,\"usedSpace\":25}"
    );
}

#[test]
fn drive_items_are_reshaped() {
    let folder = obj(vec![
        ("id", s("f1")),
        ("name", s("Docs")),
        ("mimeType", s("application/vnd.google-apps.folder")),
        ("parents", JsonValue::Array(vec![s("root")])),
    ]);
    assert_eq!(
        map_drive_item(&folder).to_json_string(),
        "{\"id\":\"f1\",\"isFolder\":true,\"mimeType\":\"application/vnd.google-apps.folder\",\"modifiedTime\":null,\"name\":\"Docs\",\"parents\":[\"root\"],\"size\":null,\"thumbnailLink\":null,\"webContentLink\":null,\"webViewLink\":null}"
    );
    let file = obj(vec![("id", s("x")), ("size", s("12")), ("modifiedTime", s("2024-01-01T00:00:00Z"))]);
    assert_eq!(
        map_drive_item(&file).to_json_string(),
        "{\"id\":\"x\",\"isFolder\":false,\"mimeType\":\"application/octet-stream\",\"modifiedTime\":\"2024-01-01T00:00:00Z\",\"name\":\"\",\"parents\":[],\"size\":12,\"thumbnailLink\":null,\"webContentLink\":null,\"webViewLink\":null}"
    );
    assert_eq!(map_drive_items(&s("not a list")).to_json_string(), "[]");
    assert_eq!(map_drive_items(&JsonValue::Array(vec![])).to_json_string(), "[]");
}

#[test]
fn request_bodies_are_shaped() {
    assert_eq!(
        create_folder_body("New \"dir\"", "p1").to_json_string(),
        "{\"mimeType\":\"application/vnd.google-apps.folder\",\"name\":\"New \\\"dir\\\"\",\"parents\":[\"p1\"]}"
    );
    assert_eq!(copy_item_body("p2", Some("copy")).to_json_string(), "{\"name\":\"copy\",\"parents\":[\"p2\"]}");
    assert_eq!(copy_item_body("p2", None).to_json_string(), "{\"parents\":[\"p2\"]}");
}

#[test]
fn json_strings_are_escaped() {
    assert_eq!(s("a\nb\u{1}\\").to_json_string(), "\"a\\nb\\u0001\\\\\"");
}

#[test]
fn drive_errors_and_deletes() {
    assert_eq!(drive_error_message("delete", 404, "gone"), "Drive delete 404: gone");
    assert!(delete_succeeded(true, 200));
    assert!(delete_succeeded(false, 204));
    assert!(!delete_succeeded(false, 404));
}

#[test]
fn boundaries_are_hex_stamped() {
    let stamp = timestamp_hex();
    assert!(!stamp.is_empty());
    assert!(stamp.chars().all(|c| c.is_ascii_hexdigit() && !c.is_ascii_uppercase()));
    assert_eq!(upload_boundary("abc"), "sdrive-abc");
}

#[test]
fn appdata_listing_decisions() {
    let listing = obj(vec![("files", JsonValue::Array(vec![obj(vec![("id", s("id1")), ("name", s("primary_file.json"))])]))]);
    assert_eq!(primary_file_id(&listing), "id1");
    assert_eq!(primary_file_id(&obj(vec![])), "");
    let files = JsonValue::Array(vec![obj(vec![("id", s("id1")), ("name", s("a.json"))])]);
    assert_eq!(appdata_file_exists_in(&files, "a.json"), Ok(true));
    assert_eq!(appdata_file_exists_in(&files, "b.json"), Ok(false));
    assert_eq!(
        appdata_file_exists_in(&JsonValue::Array(vec![obj(vec![("id", s("x"))])]), "a.json"),
        Err("Failed to get file Name".to_string())
    );
    assert!(matches!(plan_create_if_absent(&files, "a.json"), CreatePlan::AlreadyPresent));
    assert!(matches!(plan_create_if_absent(&JsonValue::Array(vec![]), "a.json"), CreatePlan::Upload));
    assert!(matches!(plan_upsert(&files), UpsertPlan::Update(ref id) if id == "id1"));
    assert!(matches!(plan_upsert(&JsonValue::Array(vec![])), UpsertPlan::Create));
}

#[test]
fn appdata_uploads_are_shaped() {
    assert_eq!(
        appdata_upload_body("f.json", "{}"),
        "--foo_bar_baz\r\nContent-Type: application/json; charset=UTF-8\r\n\r\n{\"name\": \"f.json\", \"parents\": [\"appDataFolder\"]}\r\n--foo_bar_baz\r\nContent-Type: application/json\r\n\r\n{}\r\n--foo_bar_baz--"
    );
    let drives = vec![vec!["google".to_string(), "a@b.c".to_string()]];
    assert_eq!(logical_folder_content(&drives), "{\"drives\":[[\"google\",\"a@b.c\"]],\"new_file\":true}");
}

#[test]
fn secondary_drive_file_needs_the_user_email() {
    let user = obj(vec![("email", s("me@x.io"))]);
    assert_eq!(
        secondary_drive_file_for(&user, "google", "you@y.io"),
        Ok("sdrive---secondary-drive---me__at__x__dot__io---google---you__at__y__dot__io.json".to_string())
    );
    assert_eq!(
        secondary_drive_file_for(&obj(vec![]), "google", "you@y.io"),
        Err("Failed to fetch user info".to_string())
    );
}

#[test]
fn cors_setting_decides_the_origins() {
    assert!(matches!(cors_policy(""), CorsPolicy::NoOrigins));
    assert!(matches!(cors_policy("  *  "), CorsPolicy::AnyOrigin));
    match cors_policy(" http://a.com , ,https://b.org,") {
        CorsPolicy::Origins(o) => assert_eq!(o, vec!["http://a.com".to_string(), "https://b.org".to_string()]),
        _ => panic!("expected explicit origins"),
    }
    assert!(matches!(cors_policy(" , "), CorsPolicy::NoOrigins));
    match cors_policy("http://bad\u{1}origin,http://ok") {
        CorsPolicy::Origins(o) => assert_eq!(o, vec!["http://ok".to_string()]),
        _ => panic!("expected explicit origins"),
    }
    assert!(matches!(cors_policy("bad\u{7f}"), CorsPolicy::NoOrigins));
}

#[test]
fn trimming_and_splitting() {
    let chars: Vec<char> = "\u{3000} a b \t\n".chars().collect();
    assert_eq!(trim_chars(&chars), vec!['a', ' ', 'b']);
    let pieces = split_chars(&",a,,b".chars().collect(), ',');
    assert_eq!(pieces, vec![vec![], vec!['a'], vec![], vec!['b']]);
    assert_eq!(split_chars(&vec![], ','), vec![Vec::<char>::new()]);
}

#[test]
fn upload_form_is_gathered() {
    assert_eq!(upload_field(Some("access_token")), UploadField::AccessToken);
    assert_eq!(upload_field(Some("parent_id")), UploadField::ParentId);
    assert_eq!(upload_field(Some("file")), UploadField::File);
    assert_eq!(upload_field(Some("other")), UploadField::Other);
    assert_eq!(upload_field(None), UploadField::Other);

    let mut form = UploadForm::new();
    assert_eq!(form.mime_type, "application/octet-stream");
    form.set_text(UploadField::AccessToken, "tok".to_string());
    form.set_text(UploadField::ParentId, "root".to_string());
    form.set_file(Some("a.txt".to_string()), None, vec![1, 2, 3]);
    assert_eq!(form.mime_type, "application/octet-stream");
    assert_eq!(form.file_name, "a.txt");
    let done = form.finish().ok().unwrap();
    assert_eq!(done.access_token, "tok");
    assert_eq!(done.data, vec![1, 2, 3]);

    let mut partial = UploadForm::new();
    partial.set_text(UploadField::AccessToken, "tok".to_string());
    match partial.finish() {
        Err(AppError::ExternalServiceError(m)) => assert_eq!(m, "Missing required upload fields"),
        _ => panic!("an incomplete form is refused"),
    }
}

#[test]
fn logger_defaults() {
    let config = LoggerConfig::from_env();
    assert!(!config.enable_log_tracing);
    assert_eq!(config.log_level, LogLevel::Info);
    let mut features = build_features();
    features.level_warn = true;
    features.level_verbose = true;
    assert_eq!(LoggerConfig::from_features(&features).log_level, LogLevel::Debug);
    features.level_verbose = false;
    assert_eq!(LoggerConfig::from_features(&features).log_level, LogLevel::Warn);
    assert!(NoLogger::new(1000).is_ok());
    assert_eq!(generate(), "");
}

#[test]
fn trace_ids_are_padded_and_counted() {
    assert_eq!(trace_id(42, 1700000000123, 0), ("0000421700000000123000001".to_string(), 1));
    assert_eq!(trace_id(7, 5, 999_999).1, 1);
    assert_eq!(trace_id(7, 5, 999_998).0, "0000070000000000005999999");
}

#[test]
fn heartbeat_runs_every_ten_seconds() {
    assert_eq!(HeartbeatTask.name(), "heartbeat");
    assert!(matches!(heartbeat_schedule(), Schedule::Interval(10)));
}

#[test]
fn server_address_defaults() {
    assert_eq!(server_address(None, None), format!("{}:{}", DEFAULT_SERVER_HOST, DEFAULT_SERVER_PORT));
    assert_eq!(server_address(Some("0.0.0.0"), Some("8080")), "0.0.0.0:8080");
    assert_eq!(server_address(None, Some("1")), "127.0.0.1:1");
}

#[test]
fn client_keys() {
    assert!(is_secure_key_mode(0o100600));
    assert!(is_secure_key_mode(0o400));
    assert!(!is_secure_key_mode(0o644));
    assert_eq!(key_file_kind(Some("key")), KeyFileKind::Key);
    assert_eq!(key_file_kind(Some("blocked")), KeyFileKind::Inactive);
    assert_eq!(key_file_kind(None), KeyFileKind::Other);
    let mut tokens = DashMap::new();
    assert!(register_client_key(&mut tokens, ClientKeyFile { token: "test".to_string(), permissions: vec!["test".to_string()] }));
    assert!(!register_client_key(&mut tokens, ClientKeyFile { token: String::new(), permissions: vec![] }));
    assert_eq!(*tokens.get("test").unwrap(), vec!["test".to_string()]);
    assert_eq!(tokens.len(), 1);
}

#[test]
fn clients_start_empty() {
    assert!(Clients::empty().google.is_none());
}

#[test]
fn error_statuses() {
    assert_eq!(AppError::ClientNotAvailable.status_code(), 503);
    assert_eq!(AppError::ExternalServiceError("x".to_string()).status_code(), 502);
    assert_eq!(AppError::ExternalServiceError("x".to_string()).message(), "x");
}

#[test]
fn folder_round_trip_on_plain_names() {
    let primary = encode_email_for_filename("me@x.io");
    for folder in ["a.b@c/d\\e f", "Photos 2024", "x/y/z", "@at@", "dot.dot"] {
        let name = logical_folder_filename(&primary, &encode_drive_name(folder));
        assert_eq!(parse_logical_folder_filename(&name, &primary), folder);
    }
}

#[test]
fn folder_round_trip_fails_on_false_escape() {
    let primary = encode_email_for_filename("me@x.io");
    let name = logical_folder_filename(&primary, &encode_drive_name("/at."));
    assert_eq!(parse_logical_folder_filename(&name, &primary), "__slash@dot__");
}

#[test]
fn secondary_drive_round_trip_fails_when_provider_ends_with_primary() {
    let name = secondary_drive_filename("a", "xa", "b");
    assert_eq!(parse_secondary_drive_filename(&name, "a"), None);
}

#[test]
fn permissions_are_validated() {
    assert!(sdrive_backend::validation::validate_permissions(&["admin".to_string(), "token".to_string()]).is_ok());
    assert!(sdrive_backend::validation::validate_permissions(&[]).is_ok());
    let err = sdrive_backend::validation::validate_permissions(&["admin".to_string(), "drive".to_string()]).unwrap_err();
    assert_eq!(err.code, "invalid_permission");
}

#[test]
fn lone_underscores_round_trip() {
    for e in ["first_last@mail.com", "a_b.c_d@e_f.org"] {
        assert_eq!(decode_email_from_filename(&encode_email_for_filename(e)), e);
    }
    let primary = encode_email_for_filename("me@x.io");
    let name = logical_folder_filename(&primary, &encode_drive_name("my_folder 2"));
    assert_eq!(parse_logical_folder_filename(&name, &primary), "my_folder 2");
}

#[test]
fn underscores_next_to_escapes_may_not_round_trip() {
    let e = "x._at@y";
    assert_ne!(decode_email_from_filename(&encode_email_for_filename(e)), e);
    let primary = encode_email_for_filename("me@x.io");
    let name = logical_folder_filename(&primary, &encode_drive_name("/_at."));
    assert_eq!(parse_logical_folder_filename(&name, &primary), "__slash_@dot__");
}

#[test]
fn error_statuses_for_outside_errors() {
    let bad_json = serde_json::from_str::<serde_json::Value>("{").unwrap_err();
    let text = bad_json.to_string();
    let e = AppError::InvalidPayload(bad_json.to_string());
    assert_eq!(e.status_code(), 400);
    assert_eq!(e.message(), text);
    let e = AppError::Anyhow(anyhow::Error::msg("boom").to_string());
    assert_eq!(e.status_code(), 500);
    assert_eq!(e.message(), "boom");
}

#[test]
fn hyphens_round_trip() {
    let primary = encode_email_for_filename("ann-marie@my-company.com");
    let name = secondary_drive_filename(&primary, "one-drive", &encode_email_for_filename("bob@my-company.org"));
    assert_eq!(
        parse_secondary_drive_filename(&name, &primary),
        Some(("one-drive".to_string(), "bob@my-company.org".to_string()))
    );
    let name = logical_folder_filename(&primary, &encode_drive_name("my-folder"));
    assert_eq!(parse_logical_folder_filename(&name, &primary), "my-folder");
}

#[test]
fn double_hyphen_in_provider_splits_early() {
    let name = secondary_drive_filename("p", "a--", "b");
    assert_eq!(parse_secondary_drive_filename(&name, "p"), Some(("a".to_string(), "--b".to_string())));
}

#[test]
fn primary_marker_is_primary_file_json() {
    assert_eq!(PRIMARY_MARKER_NAME, "primary_file.json");
    assert!(PRIMARY_MARKER_LISTING_URL.ends_with("q=name='primary_file.json'"));
}

#[test]
fn records_are_listed_under_the_escaped_address() {
    assert_eq!(listing_primary(&obj(vec![("email", s("a.b@c.io"))])), Some("a__dot__b__at__c__dot__io".to_string()));
    assert_eq!(listing_primary(&obj(vec![("email", s(""))])), None);
    assert_eq!(listing_primary(&obj(vec![])), None);
}

#[test]
fn google_client_follows_its_http_client_setup() {
    let config = || GoogleConfig { client_id: "id".to_string(), client_secret: "secret".to_string() };
    let failed = GoogleClient::from_http_client(config(), Err(anyhow::Error::msg("no TLS")));
    assert_eq!(failed.err().map(|e| e.to_string()), Some("no TLS".to_string()));
    let built = GoogleClient::from_http_client(config(), Ok(reqwest::Client::new())).ok().unwrap();
    assert_eq!(built.config.client_id, "id");
    assert_eq!(built.config.client_secret, "secret");
}

#[test]
fn key_files_are_decided_entry_by_entry() {
    assert_eq!(key_file_action(true, Some("key"), Some(0o100600)), KeyFileAction::Read);
    assert_eq!(key_file_action(true, Some("key"), Some(0o100644)), KeyFileAction::RefuseInsecure);
    assert_eq!(key_file_action(true, Some("key"), None), KeyFileAction::Read);
    assert_eq!(key_file_action(false, Some("key"), Some(0o600)), KeyFileAction::Skip);
    assert_eq!(key_file_action(true, Some("disabled"), Some(0o644)), KeyFileAction::ReportInactive);
    assert_eq!(key_file_action(true, Some("txt"), Some(0o600)), KeyFileAction::Skip);
    assert_eq!(key_file_action(true, None, Some(0o600)), KeyFileAction::Skip);

    let key = |t: &str| Some(ClientKeyFile { token: t.to_string(), permissions: vec!["test".to_string()] });
    let mut tokens = DashMap::new();
    assert!(!load_key_file(&mut tokens, KeyFileAction::RefuseInsecure, key("bad")));
    assert!(!load_key_file(&mut tokens, KeyFileAction::Read, key("")));
    assert!(!load_key_file(&mut tokens, KeyFileAction::Read, None));
    assert!(tokens.is_empty());
    assert!(load_key_file(&mut tokens, KeyFileAction::Read, key("test")));
    assert_eq!(*tokens.get("test").unwrap(), vec!["test".to_string()]);
}

#[test]
fn double_hyphens_and_leading_hyphens_round_trip() {
    let primary = encode_email_for_filename("a--b@c.com");
    let name = secondary_drive_filename(&primary, "google", &encode_email_for_filename("x--y@z.org"));
    assert_eq!(
        parse_secondary_drive_filename(&name, &primary),
        Some(("google".to_string(), "x--y@z.org".to_string()))
    );
    let name = logical_folder_filename(&primary, &encode_drive_name("-x"));
    assert_eq!(parse_logical_folder_filename(&name, &primary), "-x");
}

#[test]
fn sdrive_in_a_part_can_break_the_read_back() {
    let primary = encode_email_for_filename("me@x.io");
    let name = logical_folder_filename(&primary, "sdrive---logical-folder---a");
    assert_ne!(parse_logical_folder_filename(&name, &primary), "sdrive---logical-folder---a");
}

#[test]
fn sdrive_in_names_reads_back() {
    let primary = encode_email_for_filename("a@b.com");
    let name = logical_folder_filename(&primary, &encode_drive_name("sdrive"));
    assert_eq!(parse_logical_folder_filename(&name, &primary), "sdrive");
    let name = secondary_drive_filename(&primary, "sdrive", &encode_email_for_filename("sdrive@x.com"));
    assert_eq!(
        parse_secondary_drive_filename(&name, &primary),
        Some(("sdrive".to_string(), "sdrive@x.com".to_string()))
    );
}

#[test]
fn clients_follow_settings_and_http_client_setup() {
    let some = |v: &str| Some(v.to_string());
    let c = Clients::from_settings_and_http_client(some("true"), some("id"), some("secret"), Ok(reqwest::Client::new()));
    let g = c.google.unwrap();
    assert_eq!(g.config.client_id, "id");
    assert_eq!(g.config.client_secret, "secret");
    let c = Clients::from_settings_and_http_client(some("true"), some("id"), some("secret"), Err(anyhow::Error::msg("no TLS")));
    assert!(c.google.is_none());
    let c = Clients::from_settings_and_http_client(some("false"), some("id"), some("secret"), Ok(reqwest::Client::new()));
    assert!(c.google.is_none());
    let c = Clients::from_settings_and_http_client(some("true"), None, some("secret"), Ok(reqwest::Client::new()));
    assert!(c.google.is_none());
    assert!(Clients::from_settings(None, some("id"), some("secret")).google.is_none());
}

#[test]
fn name_escape_is_per_character_and_matches_email_escape() {
    let (a, b) = ("a b/", "c.d@e\\");
    assert_eq!(encode_drive_name(&format!("{}{}", a, b)), format!("{}{}", encode_drive_name(a), encode_drive_name(b)));
    let escaped = encode_drive_name("x@y.z/w\\v u");
    assert!(!escaped.contains(['@', '.', '/', '\\', ' ']));
    assert_eq!(encode_drive_name("john.doe@mail.com"), encode_email_for_filename("john.doe@mail.com"));
}
