//! Google Drive requests and the shaping of Drive's answers.

use vstd::prelude::*;
use vstd::string::StringExecFns;
use crate::json::{
    json_as_array, json_as_str, json_get, json_single_str_array, json_str, json_str_field,
    json_str_or_null, lemma_array_view, lemma_lookup_at, member, member_keys, member_values, object_of,
    opt_string_view, str_or, str_or_null, string_or, Json, JsonMember, JsonValue, json_empty_array,
    json_text,
};
use crate::text::{parse_u64, parse_u64_str, radix_digits, to_radix_string};
use crate::google::url::{url_encode, url_encoded};
use vstd::string::StrSliceExecFns;
use vstd::utf8::encode_utf8;

verus! {

broadcast use vstd::string::group_string_axioms;

/// The item fields asked of Drive.
pub const DRIVE_FIELDS: &'static str = "id,name,mimeType,size,parents,modifiedTime,webViewLink,webContentLink,thumbnailLink";

/// The MIME type of a Drive folder.
pub const FOLDER_MIME: &'static str = "application/vnd.google-apps.folder";

/// The request for the account's storage quota.
pub const DRIVE_ABOUT_URL: &'static str = "https://www.googleapis.com/drive/v3/about?fields=storageQuota";

/// The request that creates an item from its metadata.
pub const DRIVE_FILES_URL: &'static str = "https://www.googleapis.com/drive/v3/files";

/// The request that uploads an item with its content.
pub const DRIVE_UPLOAD_URL: &'static str = "https://www.googleapis.com/upload/drive/v3/files?uploadType=multipart";

/// The decimal text of a number.
pub open spec fn decimal(n: nat) -> Seq<char> {
    radix_digits(n, 10)
}

/// A JSON number holding `n`.
pub fn json_u64(n: u64) -> (r: JsonValue)
    ensures
        r@ == Json::Number(decimal(n as nat)),
{
    JsonValue::Number(to_radix_string(n as u128, 10))
}

/// A string field parsed as a `u64`, or 0.
pub open spec fn quota_value(field: Option<Json>) -> u64 {
    match field {
        Some(x) => match json_as_str(x) {
            Some(s) => match parse_u64(s) {
                Some(n) => n,
                None => 0,
            },
            None => 0,
        },
        None => 0,
    }
}

/// Drive's storage quota, summarized: total, used and free space and the
/// usage in the trash, in bytes; absent or unreadable numbers count as 0.
pub open spec fn drive_about_view(about: Json) -> Json {
    let quota = match json_get(about, "storageQuota"@) {
        Some(q) => q,
        None => Json::Object(Seq::empty(), Seq::empty()),
    };
    let total = quota_value(json_get(quota, "limit"@));
    let used = quota_value(
        match json_get(quota, "usageInDrive"@) {
            Some(x) => Some(x),
            None => json_get(quota, "usage"@),
        },
    );
    let trash = quota_value(json_get(quota, "usageInDriveTrash"@));
    let free: u64 = if total >= used { (total - used) as u64 } else { 0 };
    Json::Object(
        seq!["appDataUsage"@, "freeSpace"@, "totalSpace"@, "usedSpace"@],
        seq![
            Json::Number(decimal(trash as nat)),
            Json::Number(decimal(free as nat)),
            Json::Number(decimal(total as nat)),
            Json::Number(decimal(used as nat)),
        ],
    )
}

fn quota_number(field: Option<&JsonValue>) -> (n: u64)
    ensures
        n == quota_value(match field {
            Some(x) => Some(x@),
            None => None,
        }),
{
    match field {
        Some(x) => match x.as_str() {
            Some(s) => match parse_u64_str(s.as_str()) {
                Some(n) => n,
                None => 0,
            },
            None => 0,
        },
        None => 0,
    }
}

/// Summarizes Drive's `about?fields=storageQuota` answer.
pub fn drive_about_summary(about: &JsonValue) -> (r: JsonValue)
    ensures
        r@ == drive_about_view(about@),
{
    let empty = object_of(Vec::new());
    assert(member_keys(Seq::<JsonMember>::empty()) =~= Seq::<Seq<char>>::empty());
    assert(member_values(Seq::<JsonMember>::empty()) =~= Seq::<Json>::empty());
    let quota = match about.get("storageQuota") {
        Some(q) => q,
        None => &empty,
    };
    let total = quota_number(quota.get("limit"));
    let used_field = match quota.get("usageInDrive") {
        Some(x) => Some(x),
        None => quota.get("usage"),
    };
    let used = quota_number(used_field);
    let trash = quota_number(quota.get("usageInDriveTrash"));
    let free = if total >= used { total - used } else { 0 };
    let members = vec![
        member("appDataUsage", json_u64(trash)),
        member("freeSpace", json_u64(free)),
        member("totalSpace", json_u64(total)),
        member("usedSpace", json_u64(used)),
    ];
    let r = object_of(members);
    assert(member_keys(members@) =~= seq!["appDataUsage"@, "freeSpace"@, "totalSpace"@, "usedSpace"@]);
    assert(member_values(members@) =~= drive_about_view(about@)->Object_1);
    r
}

/// A Drive item as the backend reports it: id, name, MIME type, size, parents,
/// modification time, links, and whether it is a folder.
pub open spec fn drive_item_view(item: Json) -> Json {
    let mime = str_or(json_str_field(item, "mimeType"@), "application/octet-stream"@);
    Json::Object(
        seq![
            "id"@,
            "isFolder"@,
            "mimeType"@,
            "modifiedTime"@,
            "name"@,
            "parents"@,
            "size"@,
            "thumbnailLink"@,
            "webContentLink"@,
            "webViewLink"@,
        ],
        seq![
            Json::Str(str_or(json_str_field(item, "id"@), ""@)),
            Json::Bool(mime == FOLDER_MIME@),
            Json::Str(mime),
            str_or_null(json_str_field(item, "modifiedTime"@)),
            Json::Str(str_or(json_str_field(item, "name"@), ""@)),
            match json_get(item, "parents"@) {
                Some(p) => p,
                None => Json::Array(Seq::empty()),
            },
            match json_str_field(item, "size"@) {
                Some(t) => match parse_u64(t) {
                    Some(n) => Json::Number(decimal(n as nat)),
                    None => Json::Null,
                },
                None => Json::Null,
            },
            str_or_null(json_str_field(item, "thumbnailLink"@)),
            str_or_null(json_str_field(item, "webContentLink"@)),
            str_or_null(json_str_field(item, "webViewLink"@)),
        ],
    )
}

/// Reshapes one item of Drive's file resource.
pub fn map_drive_item(item: &JsonValue) -> (r: JsonValue)
    ensures
        r@ == drive_item_view(item@),
{
    let mime = string_or(item.str_field("mimeType"), "application/octet-stream");
    let is_folder = crate::text::str_eq(mime.as_str(), FOLDER_MIME);
    let size = match item.str_field("size") {
        Some(t) => match parse_u64_str(t.as_str()) {
            Some(n) => json_u64(n),
            None => JsonValue::Null,
        },
        None => JsonValue::Null,
    };
    let parents = match item.get("parents") {
        Some(p) => p.deep_clone(),
        None => json_empty_array(),
    };
    let members = vec![
        member("id", JsonValue::Str(string_or(item.str_field("id"), ""))),
        member("isFolder", JsonValue::Bool(is_folder)),
        member("mimeType", JsonValue::Str(mime)),
        member("modifiedTime", json_str_or_null(item.str_field("modifiedTime"))),
        member("name", JsonValue::Str(string_or(item.str_field("name"), ""))),
        member("parents", parents),
        member("size", size),
        member("thumbnailLink", json_str_or_null(item.str_field("thumbnailLink"))),
        member("webContentLink", json_str_or_null(item.str_field("webContentLink"))),
        member("webViewLink", json_str_or_null(item.str_field("webViewLink"))),
    ];
    let r = object_of(members);
    assert(member_keys(members@) =~= drive_item_view(item@)->Object_0);
    assert(member_values(members@) =~= drive_item_view(item@)->Object_1);
    r
}

/// Each item of an array reshaped; anything that is not an array gives `[]`.
pub open spec fn drive_items_view(files: Json) -> Json {
    match files {
        Json::Array(items) => Json::Array(items.map_values(|x: Json| drive_item_view(x))),
        _ => Json::Array(Seq::empty()),
    }
}

/// Reshapes a list of Drive items.
pub fn map_drive_items(files: &JsonValue) -> (r: JsonValue)
    ensures
        r@ == drive_items_view(files@),
{
    match files.as_array() {
        Some(items) => {
            let ghost src = json_as_array(files@)->0;
            let mut out: Vec<JsonValue> = Vec::new();
            let mut i: usize = 0;
            while i < items.len()
                invariant
                    i <= items@.len(),
                    src.len() == items@.len(),
                    forall|k: int| 0 <= k < items@.len() ==> #[trigger] src[k] == items@[k]@,
                    out@.len() == i,
                    forall|k: int| 0 <= k < i ==> (#[trigger] out@[k])@ == drive_item_view(src[k]),
                decreases items.len() - i,
            {
                out.push(map_drive_item(&items[i]));
                i = i + 1;
            }
            let r = JsonValue::Array(out);
            proof {
                lemma_array_view(r);
                assert(r@->Array_0 =~= src.map_values(|x: Json| drive_item_view(x)));
            }
            r
        },
        None => json_empty_array(),
    }
}

/// Drive's quota limit, when it is a number written as text, is reported as
/// the total space, whatever its size.
pub proof fn law_about_total_is_limit(about: Json, quota: Json, limit: Seq<char>, n: u64)
    requires
        json_get(about, "storageQuota"@) == Some(quota),
        json_get(quota, "limit"@) == Some(Json::Str(limit)),
        parse_u64(limit) == Some(n),
    ensures
        json_get(drive_about_view(about), "totalSpace"@) == Some(Json::Number(decimal(n as nat))),
{
    lemma_about_keys_differ();
    let v = drive_about_view(about);
    lemma_lookup_at(v->Object_0, v->Object_1, "totalSpace"@, 2);
}

/// With a readable limit and a readable usage that does not exceed it, the
/// used space is the usage and the free space is the limit less the usage.
pub proof fn law_about_free_is_limit_less_usage(
    about: Json,
    quota: Json,
    limit: Seq<char>,
    n: u64,
    usage: Seq<char>,
    m: u64,
)
    requires
        json_get(about, "storageQuota"@) == Some(quota),
        json_get(quota, "limit"@) == Some(Json::Str(limit)),
        parse_u64(limit) == Some(n),
        json_get(quota, "usageInDrive"@) == Some(Json::Str(usage)),
        parse_u64(usage) == Some(m),
        m <= n,
    ensures
        json_get(drive_about_view(about), "usedSpace"@) == Some(Json::Number(decimal(m as nat))),
        json_get(drive_about_view(about), "freeSpace"@) == Some(Json::Number(decimal((n - m) as nat))),
{
    lemma_about_keys_differ();
    let v = drive_about_view(about);
    lemma_lookup_at(v->Object_0, v->Object_1, "freeSpace"@, 1);
    lemma_lookup_at(v->Object_0, v->Object_1, "usedSpace"@, 3);
}

/// When the usage exceeds the limit, the free space is 0 rather than negative.
pub proof fn law_about_free_is_zero_over_limit(
    about: Json,
    quota: Json,
    limit: Seq<char>,
    n: u64,
    usage: Seq<char>,
    m: u64,
)
    requires
        json_get(about, "storageQuota"@) == Some(quota),
        json_get(quota, "limit"@) == Some(Json::Str(limit)),
        parse_u64(limit) == Some(n),
        json_get(quota, "usageInDrive"@) == Some(Json::Str(usage)),
        parse_u64(usage) == Some(m),
        n < m,
    ensures
        json_get(drive_about_view(about), "freeSpace"@) == Some(Json::Number(decimal(0))),
{
    lemma_about_keys_differ();
    let v = drive_about_view(about);
    lemma_lookup_at(v->Object_0, v->Object_1, "freeSpace"@, 1);
}

/// Without `usageInDrive`, the used space is read from `usage`.
pub proof fn law_about_used_falls_back_to_usage(about: Json, quota: Json, usage: Seq<char>, m: u64)
    requires
        json_get(about, "storageQuota"@) == Some(quota),
        json_get(quota, "usageInDrive"@) is None,
        json_get(quota, "usage"@) == Some(Json::Str(usage)),
        parse_u64(usage) == Some(m),
    ensures
        json_get(drive_about_view(about), "usedSpace"@) == Some(Json::Number(decimal(m as nat))),
{
    lemma_about_keys_differ();
    let v = drive_about_view(about);
    lemma_lookup_at(v->Object_0, v->Object_1, "usedSpace"@, 3);
}

/// The app-data usage reported is the usage in the trash, when readable; a
/// missing limit counts as a total of 0.
pub proof fn law_about_trash_and_missing_limit(about: Json, quota: Json, trash: Seq<char>, t: u64)
    requires
        json_get(about, "storageQuota"@) == Some(quota),
        json_get(quota, "usageInDriveTrash"@) == Some(Json::Str(trash)),
        parse_u64(trash) == Some(t),
    ensures
        json_get(drive_about_view(about), "appDataUsage"@) == Some(Json::Number(decimal(t as nat))),
        json_get(quota, "limit"@) is None ==> json_get(drive_about_view(about), "totalSpace"@) == Some(
            Json::Number(decimal(0)),
        ),
{
    lemma_about_keys_differ();
    let v = drive_about_view(about);
    lemma_lookup_at(v->Object_0, v->Object_1, "appDataUsage"@, 0);
    lemma_lookup_at(v->Object_0, v->Object_1, "totalSpace"@, 2);
}

proof fn lemma_about_keys_differ()
    ensures
        "appDataUsage"@ != "freeSpace"@,
        "appDataUsage"@ != "totalSpace"@,
        "appDataUsage"@ != "usedSpace"@,
        "freeSpace"@ != "totalSpace"@,
        "freeSpace"@ != "usedSpace"@,
        "totalSpace"@ != "usedSpace"@,
{
    reveal_strlit("appDataUsage");
    reveal_strlit("freeSpace");
    reveal_strlit("totalSpace");
    reveal_strlit("usedSpace");
    assert("appDataUsage"@[0] != "freeSpace"@[0]);
    assert("appDataUsage"@[0] != "totalSpace"@[0]);
    assert("appDataUsage"@[0] != "usedSpace"@[0]);
    assert("freeSpace"@[0] != "totalSpace"@[0]);
    assert("freeSpace"@[0] != "usedSpace"@[0]);
    assert("totalSpace"@[0] != "usedSpace"@[0]);
}

/// A listed array of Drive items is reshaped item by item, in order: the k-th
/// reported item is the k-th item reshaped, and carries that item's id.
pub proof fn law_drive_items_in_order(items: Seq<Json>)
    ensures
        drive_items_view(Json::Array(items)) is Array,
        drive_items_view(Json::Array(items))->Array_0.len() == items.len(),
        forall|k: int|
            0 <= k < items.len() ==> #[trigger] drive_items_view(Json::Array(items))->Array_0[k]
                == drive_item_view(items[k]),
        forall|k: int|
            0 <= k < items.len() ==> json_get(#[trigger] drive_items_view(Json::Array(items))->Array_0[k], "id"@)
                == Some(Json::Str(str_or(json_str_field(items[k], "id"@), ""@))),
{
}

/// Anything other than an array of items is reported as an empty list.
pub proof fn law_drive_items_of_non_array(files: Json)
    requires
        !(files is Array),
    ensures
        drive_items_view(files) == Json::Array(Seq::empty()),
{
}

/// `https://www.googleapis.com/drive/v3/files?q=...&fields=...&orderBy=folder,name_natural`
/// for the untrashed children of `parent_id`.
pub open spec fn list_children_url_spec(parent_id: Seq<char>) -> Seq<char> {
    "https://www.googleapis.com/drive/v3/files?q="@ + url_encoded(
        "'"@ + parent_id + "' in parents and trashed = false"@,
    ) + "&fields="@ + url_encoded("files("@ + DRIVE_FIELDS@ + ")"@) + "&orderBy=folder,name_natural"@
}

/// The request that lists the children of a folder.
pub fn list_children_url(parent_id: &str) -> (r: String)
    ensures
        r@ == list_children_url_spec(parent_id@),
{
    let mut query = "'".to_owned();
    query.append(parent_id);
    query.append("' in parents and trashed = false");
    let mut fields = "files(".to_owned();
    fields.append(DRIVE_FIELDS);
    fields.append(")");
    let mut r = "https://www.googleapis.com/drive/v3/files?q=".to_owned();
    r.append(url_encode(query.as_str()).as_str());
    r.append("&fields=");
    r.append(url_encode(fields.as_str()).as_str());
    r.append("&orderBy=folder,name_natural");
    r
}

/// `https://www.googleapis.com/drive/v3/files/{id}` followed by `suffix`, the id percent-encoded.
pub open spec fn file_url_spec(file_id: Seq<char>, suffix: Seq<char>) -> Seq<char> {
    "https://www.googleapis.com/drive/v3/files/"@ + url_encoded(file_id) + suffix
}

fn file_url(file_id: &str, suffix: &str) -> (r: String)
    ensures
        r@ == file_url_spec(file_id@, suffix@),
{
    let mut r = "https://www.googleapis.com/drive/v3/files/".to_owned();
    r.append(url_encode(file_id).as_str());
    r.append(suffix);
    r
}

/// The request for the metadata of one item.
pub fn file_metadata_url(file_id: &str) -> (r: String)
    ensures
        r@ == file_url_spec(file_id@, "?fields="@ + url_encoded(DRIVE_FIELDS@)),
{
    let mut suffix = "?fields=".to_owned();
    suffix.append(url_encode(DRIVE_FIELDS).as_str());
    file_url(file_id, suffix.as_str())
}

/// The request that deletes one item.
pub fn delete_item_url(file_id: &str) -> (r: String)
    ensures
        r@ == file_url_spec(file_id@, ""@),
{
    file_url(file_id, "")
}

/// The request that copies one item.
pub fn copy_item_url(file_id: &str) -> (r: String)
    ensures
        r@ == file_url_spec(file_id@, "/copy"@),
{
    file_url(file_id, "/copy")
}

/// The request that downloads the content of one item.
pub fn download_file_url(file_id: &str) -> (r: String)
    ensures
        r@ == file_url_spec(file_id@, "?alt=media"@),
{
    file_url(file_id, "?alt=media")
}

/// The body that creates a folder `name` inside `parent_id`.
pub fn create_folder_body(name: &str, parent_id: &str) -> (r: JsonValue)
    ensures
        r@ == Json::Object(
            seq!["mimeType"@, "name"@, "parents"@],
            seq![Json::Str(FOLDER_MIME@), Json::Str(name@), Json::Array(seq![Json::Str(parent_id@)])],
        ),
{
    let members = vec![
        member("mimeType", json_str(FOLDER_MIME)),
        member("name", json_str(name)),
        member("parents", json_single_str_array(parent_id)),
    ];
    let r = object_of(members);
    assert(member_keys(members@) =~= seq!["mimeType"@, "name"@, "parents"@]);
    assert(member_values(members@) =~= seq![Json::Str(FOLDER_MIME@), Json::Str(name@), Json::Array(seq![Json::Str(parent_id@)])]);
    r
}

/// The body that copies an item into `parent_id`, under a new name if one is given.
pub fn copy_item_body(parent_id: &str, name: Option<&str>) -> (r: JsonValue)
    ensures
        r@ == match name {
            Some(n) => Json::Object(
                seq!["name"@, "parents"@],
                seq![Json::Str(n@), Json::Array(seq![Json::Str(parent_id@)])],
            ),
            None => Json::Object(seq!["parents"@], seq![Json::Array(seq![Json::Str(parent_id@)])]),
        },
{
    match name {
        Some(n) => {
            let members = vec![member("name", json_str(n)), member("parents", json_single_str_array(parent_id))];
            let r = object_of(members);
            assert(member_keys(members@) =~= seq!["name"@, "parents"@]);
            assert(member_values(members@) =~= seq![Json::Str(n@), Json::Array(seq![Json::Str(parent_id@)])]);
            r
        },
        None => {
            let members = vec![member("parents", json_single_str_array(parent_id))];
            let r = object_of(members);
            assert(member_keys(members@) =~= seq!["parents"@]);
            assert(member_values(members@) =~= seq![Json::Array(seq![Json::Str(parent_id@)])]);
            r
        },
    }
}

/// `Drive {operation} {status}: {text}`, the error of a failed Drive call.
pub fn drive_error_message(operation: &str, status: u16, text: &str) -> (r: String)
    ensures
        r@ == "Drive "@ + operation@ + " "@ + decimal(status as nat) + ": "@ + text@,
{
    let mut r = "Drive ".to_owned();
    r.append(operation);
    r.append(" ");
    r.append(to_radix_string(status as u128, 10).as_str());
    r.append(": ");
    r.append(text);
    r
}

/// A delete succeeded when its status is a success or 204.
pub fn delete_succeeded(success: bool, status: u16) -> (r: bool)
    ensures
        r == (success || status == 204),
{
    success || status == 204
}

/// Nanoseconds since the Unix epoch (`SystemTime::now().duration_since(UNIX_EPOCH)`),
/// 0 when the clock reads earlier than the epoch.
#[verifier::external_body]
fn nanos_since_epoch() -> u128 {
    match std::time::SystemTime::now().duration_since(std::time::UNIX_EPOCH) {
        Ok(d) => d.as_nanos(),
        Err(_) => 0,
    }
}

/// The current time in nanoseconds, in lowercase hexadecimal; a unique suffix
/// for multipart boundaries.
pub fn timestamp_hex() -> (r: String)
    ensures
        exists|t: u128| r@ == #[trigger] radix_digits(t as nat, 16),
{
    let t = nanos_since_epoch();
    to_radix_string(t, 16)
}

/// `sdrive-{stamp}`, the boundary of a multipart upload.
pub fn upload_boundary(stamp: &str) -> (r: String)
    ensures
        r@ == "sdrive-"@ + stamp@,
{
    let mut r = "sdrive-".to_owned();
    r.append(stamp);
    r
}

/// `multipart/related; boundary={boundary}`
pub fn upload_content_type(boundary: &str) -> (r: String)
    ensures
        r@ == "multipart/related; boundary="@ + boundary@,
{
    let mut r = "multipart/related; boundary=".to_owned();
    r.append(boundary);
    r
}

/// The metadata part of an upload: the file name and its parent folder.
pub open spec fn upload_metadata(file_name: Seq<char>, parent_id: Seq<char>) -> Seq<char> {
    json_text(
        Json::Object(
            seq!["name"@, "parents"@],
            seq![Json::Str(file_name), Json::Array(seq![Json::Str(parent_id)])],
        ),
    )
}

/// The text of an upload before the file's bytes.
pub open spec fn upload_head(boundary: Seq<char>, metadata: Seq<char>, mime_type: Seq<char>) -> Seq<char> {
    "--"@ + boundary + "\r\nContent-Type: application/json; charset=UTF-8\r\n\r\n"@ + metadata + "\r\n--"@
        + boundary + "\r\nContent-Type: "@ + mime_type + "\r\n\r\n"@
}

/// The text of an upload after the file's bytes.
pub open spec fn upload_tail(boundary: Seq<char>) -> Seq<char> {
    "\r\n--"@ + boundary + "--"@
}

fn push_bytes(out: &mut Vec<u8>, src: &[u8])
    ensures
        final(out)@ == old(out)@ + src@,
{
    let mut i: usize = 0;
    while i < src.len()
        invariant
            i <= src@.len(),
            out@ == old(out)@ + src@.take(i as int),
        decreases src.len() - i,
    {
        out.push(src[i]);
        i = i + 1;
        assert(out@ =~= old(out)@ + src@.take(i as int));
    }
    assert(src@.take(src@.len() as int) =~= src@);
}

/// The multipart body that uploads `data` as `file_name` into `parent_id`.
pub fn multipart_upload_body(
    boundary: &str,
    file_name: &str,
    mime_type: &str,
    data: &[u8],
    parent_id: &str,
) -> (r: Vec<u8>)
    ensures
        r@ == encode_utf8(upload_head(boundary@, upload_metadata(file_name@, parent_id@), mime_type@))
            + data@ + encode_utf8(upload_tail(boundary@)),
{
    let members = vec![member("name", json_str(file_name)), member("parents", json_single_str_array(parent_id))];
    let meta_value = object_of(members);
    assert(member_keys(members@) =~= seq!["name"@, "parents"@]);
    assert(member_values(members@) =~= seq![Json::Str(file_name@), Json::Array(seq![Json::Str(parent_id@)])]);
    let metadata = meta_value.to_json_string();
    let mut head = "--".to_owned();
    head.append(boundary);
    head.append("\r\nContent-Type: application/json; charset=UTF-8\r\n\r\n");
    head.append(metadata.as_str());
    head.append("\r\n--");
    head.append(boundary);
    head.append("\r\nContent-Type: ");
    head.append(mime_type);
    head.append("\r\n\r\n");
    let mut tail = "\r\n--".to_owned();
    tail.append(boundary);
    tail.append("--");
    let mut body = head.as_str().as_bytes_vec();
    push_bytes(&mut body, data);
    push_bytes(&mut body, tail.as_str().as_bytes());
    body
}

/// The JSON part of an upload names the file and gives `parent_id` as its
/// only parent, so the file lands in that folder; the whole body frames that
/// part, the file's type and its bytes with the boundary.
pub proof fn law_upload_names_its_parent(
    boundary: Seq<char>,
    file_name: Seq<char>,
    mime_type: Seq<char>,
    data: Seq<u8>,
    parent_id: Seq<char>,
)
    ensures
        ({
            let meta = Json::Object(
                seq!["name"@, "parents"@],
                seq![Json::Str(file_name), Json::Array(seq![Json::Str(parent_id)])],
            );
            &&& upload_metadata(file_name, parent_id) == json_text(meta)
            &&& json_get(meta, "parents"@) == Some(Json::Array(seq![Json::Str(parent_id)]))
            &&& json_get(meta, "name"@) == Some(Json::Str(file_name))
            &&& encode_utf8(upload_head(boundary, upload_metadata(file_name, parent_id), mime_type)) + data
                + encode_utf8(upload_tail(boundary)) == encode_utf8(
                "--"@ + boundary + "\r\nContent-Type: application/json; charset=UTF-8\r\n\r\n"@ + json_text(meta)
                    + "\r\n--"@ + boundary + "\r\nContent-Type: "@ + mime_type + "\r\n\r\n"@,
            ) + data + encode_utf8("\r\n--"@ + boundary + "--"@)
        }),
{
    reveal_strlit("name");
    reveal_strlit("parents");
    assert("name"@[0] != "parents"@[0]);
    let meta = Json::Object(
        seq!["name"@, "parents"@],
        seq![Json::Str(file_name), Json::Array(seq![Json::Str(parent_id)])],
    );
    lemma_lookup_at(meta->Object_0, meta->Object_1, "name"@, 0);
    lemma_lookup_at(meta->Object_0, meta->Object_1, "parents"@, 1);
}

} // verus!
