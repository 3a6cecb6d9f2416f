//! The appData folder: the files that record the primary drive, secondary
//! drives, logical folders and other per-user state.

use vstd::prelude::*;
use vstd::string::StringExecFns;
use crate::filenames::{
    encode_drive_name, encode_email, encode_email_for_filename, encode_name, logical_folder_filename,
    logical_folder_name, parse_logical_folder, parse_logical_folder_filename, parse_secondary_drive,
    parse_secondary_drive_filename, secondary_drive_filename, secondary_drive_name,
};
use crate::google::url::{url_encode, url_encoded};
use crate::json::{
    json_as_array, json_empty_array, json_get, json_str, json_str_field, json_text, lemma_array_view,
    lemma_lookup_at,
    member, member_keys, member_values, object_of, opt_string_view, str_or, Json, JsonMember, JsonValue,
};
use crate::text::{replace_all, replace_str};
use crate::filename_laws::{law_secondary_drive_round_trip, secondary_drive_reads_back};
use crate::folder_name_laws::{law_logical_folder_round_trip, logical_folder_reads_back};

verus! {

broadcast use vstd::string::group_string_axioms;

/// The file that marks the primary drive.
pub const PRIMARY_MARKER_NAME: &'static str = "primary_file.json";

/// The content of the primary-drive marker.
pub const PRIMARY_MARKER_CONTENT: &'static str = "{\"is_primary\": true}";

/// The content of a new secondary-drive file.
pub const SECONDARY_DRIVE_CONTENT: &'static str = "{\"new_file\": true}";

/// The request that lists the primary-drive marker.
pub const PRIMARY_MARKER_LISTING_URL: &'static str = "https://www.googleapis.com/drive/v3/files?spaces=appDataFolder&q=name='primary_file.json'";

/// The request that uploads a new appData file.
pub const APPDATA_UPLOAD_URL: &'static str = "https://www.googleapis.com/upload/drive/v3/files?uploadType=multipart";

/// The request that lists appData files matching `query` (the query is sent as it is).
pub fn appdata_list_url(query: &str) -> (r: String)
    ensures
        r@ == "https://www.googleapis.com/drive/v3/files?q="@ + query@ + "&spaces=appDataFolder"@,
{
    let mut r = "https://www.googleapis.com/drive/v3/files?q=".to_owned();
    r.append(query);
    r.append("&spaces=appDataFolder");
    r
}

/// The request that reads the content of an appData file.
pub fn appdata_media_url(file_id: &str) -> (r: String)
    ensures
        r@ == "https://www.googleapis.com/drive/v3/files/"@ + file_id@ + "?alt=media"@,
{
    let mut r = "https://www.googleapis.com/drive/v3/files/".to_owned();
    r.append(file_id);
    r.append("?alt=media");
    r
}

/// The request that replaces the content of an appData file.
pub fn appdata_update_url(file_id: &str) -> (r: String)
    ensures
        r@ == "https://www.googleapis.com/upload/drive/v3/files/"@ + url_encoded(file_id@)
            + "?uploadType=media"@,
{
    let mut r = "https://www.googleapis.com/upload/drive/v3/files/".to_owned();
    r.append(url_encode(file_id).as_str());
    r.append("?uploadType=media");
    r
}

/// The `files` of a listing, or `[]`.
pub open spec fn listing_files(listing: Json) -> Json {
    match json_get(listing, "files"@) {
        Some(f) => f,
        None => Json::Array(Seq::empty()),
    }
}

/// `listing.get("files").cloned().unwrap_or([])`.
pub fn files_of_listing(listing: &JsonValue) -> (r: JsonValue)
    ensures
        r@ == listing_files(listing@),
{
    match listing.get("files") {
        Some(f) => f.deep_clone(),
        None => json_empty_array(),
    }
}

/// The `id` of the first listed file when `files` is a non-empty array.
pub open spec fn first_file_id(files: Json) -> Option<Seq<char>> {
    match json_as_array(files) {
        Some(items) => if items.len() > 0 {
            json_str_field(items[0], "id"@)
        } else {
            None
        },
        None => None,
    }
}

/// The id of the first listed file, if there is one with a string id.
pub fn first_listed_file_id(files: &JsonValue) -> (r: Option<String>)
    ensures
        match r {
            Some(id) => first_file_id(files@) == Some(id@),
            None => first_file_id(files@) is None,
        },
{
    match files.as_array() {
        Some(items) => {
            if items.len() > 0 {
                match items[0].str_field("id") {
                    Some(id) => Some(id.clone()),
                    None => None,
                }
            } else {
                None
            }
        },
        None => None,
    }
}

/// The id of the primary-drive marker found by a listing, or the empty text.
pub open spec fn primary_file_id_spec(listing: Json) -> Seq<char> {
    match json_get(listing, "files"@) {
        Some(files) => match json_as_array(files) {
            Some(items) => if items.len() > 0 {
                str_or(json_str_field(items[0], "id"@), ""@)
            } else {
                ""@
            },
            None => ""@,
        },
        None => ""@,
    }
}

/// Reads the id of the primary-drive marker from a listing.
pub fn primary_file_id(listing: &JsonValue) -> (r: String)
    ensures
        r@ == primary_file_id_spec(listing@),
{
    match listing.get("files") {
        Some(files) => match files.as_array() {
            Some(items) => {
                if items.len() > 0 {
                    match items[0].str_field("id") {
                        Some(id) => id.clone(),
                        None => "".to_owned(),
                    }
                } else {
                    "".to_owned()
                }
            },
            None => "".to_owned(),
        },
        None => "".to_owned(),
    }
}

/// The primary marker has to be written only when no marker was found.
pub fn needs_primary_marker(primary_file_id: &str) -> (r: bool)
    ensures
        r == (primary_file_id@.len() == 0),
{
    primary_file_id.is_empty()
}

/// `name = '{file_name}'`, the query used to test whether a file exists.
pub fn exists_query(file_name: &str) -> (r: String)
    ensures
        r@ == "name = '"@ + file_name@ + "'"@,
{
    let mut r = "name = '".to_owned();
    r.append(file_name);
    r.append("'");
    r
}

/// `name = '{file_name}'` with each `'` of the name written `\'`, the query of
/// the by-name operations.
pub fn by_name_query(file_name: &str) -> (r: String)
    ensures
        r@ == "name = '"@ + replace_all(file_name@, "'"@, "\\'"@) + "'"@,
{
    proof {
        reveal_strlit("'");
    }
    let escaped = replace_str(file_name, "'", "\\'");
    let mut r = "name = '".to_owned();
    r.append(escaped.as_str());
    r.append("'");
    r
}

/// Whether a listing shows the file `file_name`: its first file must carry that
/// exact name; a first file without a name is an error.
pub open spec fn file_exists_spec(files: Json, file_name: Seq<char>) -> Result<bool, Seq<char>> {
    match json_as_array(files) {
        Some(items) => if items.len() > 0 {
            match json_str_field(items[0], "name"@) {
                Some(n) => Ok(n == file_name),
                None => Err("Failed to get file Name"@),
            }
        } else {
            Ok(false)
        },
        None => Ok(false),
    }
}

/// Decides from a listing whether the file `file_name` exists.
pub fn appdata_file_exists_in(files: &JsonValue, file_name: &str) -> (r: Result<bool, String>)
    ensures
        match (r, file_exists_spec(files@, file_name@)) {
            (Ok(a), Ok(b)) => a == b,
            (Err(m), Err(n)) => m@ == n,
            _ => false,
        },
{
    match files.as_array() {
        Some(items) => {
            if items.len() > 0 {
                match items[0].str_field("name") {
                    Some(n) => Ok(crate::text::str_eq(n.as_str(), file_name)),
                    None => Err("Failed to get file Name".to_owned()),
                }
            } else {
                Ok(false)
            }
        },
        None => Ok(false),
    }
}

/// What to do after checking whether a file to be created already exists.
pub enum CreatePlan {
    /// The file is there: nothing to do.
    AlreadyPresent,
    /// The file is absent: upload it.
    Upload,
    /// The listing could not be read.
    Fail(String),
}

/// Creates a file only when the listing shows it absent.
pub fn plan_create_if_absent(files: &JsonValue, file_name: &str) -> (p: CreatePlan)
    ensures
        match (p, file_exists_spec(files@, file_name@)) {
            (CreatePlan::AlreadyPresent, Ok(b)) => b,
            (CreatePlan::Upload, Ok(b)) => !b,
            (CreatePlan::Fail(m), Err(n)) => m@ == n,
            _ => false,
        },
{
    match appdata_file_exists_in(files, file_name) {
        Ok(true) => CreatePlan::AlreadyPresent,
        Ok(false) => CreatePlan::Upload,
        Err(m) => CreatePlan::Fail(m),
    }
}

/// What to do to write a file by name.
pub enum UpsertPlan {
    /// Replace the content of the listed file with this id.
    Update(String),
    /// Upload a new file.
    Create,
}

/// Updates the first listed file when it has an id, creates one otherwise.
pub fn plan_upsert(files: &JsonValue) -> (p: UpsertPlan)
    ensures
        match p {
            UpsertPlan::Update(id) => first_file_id(files@) == Some(id@),
            UpsertPlan::Create => first_file_id(files@) is None,
        },
{
    match first_listed_file_id(files) {
        Some(id) => UpsertPlan::Update(id),
        None => UpsertPlan::Create,
    }
}

/// The multipart body that uploads an appData file `file_name` with `content_json`.
pub open spec fn appdata_upload_body_spec(file_name: Seq<char>, content_json: Seq<char>) -> Seq<char> {
    "--foo_bar_baz\r\nContent-Type: application/json; charset=UTF-8\r\n\r\n{\"name\": \""@ + file_name
        + "\", \"parents\": [\"appDataFolder\"]}\r\n--foo_bar_baz\r\nContent-Type: application/json\r\n\r\n"@
        + content_json + "\r\n--foo_bar_baz--"@
}

/// Builds the multipart body of an appData upload (the name is written as it is).
pub fn appdata_upload_body(file_name: &str, content_json: &str) -> (r: String)
    ensures
        r@ == appdata_upload_body_spec(file_name@, content_json@),
{
    let mut r = "--foo_bar_baz\r\nContent-Type: application/json; charset=UTF-8\r\n\r\n{\"name\": \"".to_owned();
    r.append(file_name);
    r.append("\", \"parents\": [\"appDataFolder\"]}\r\n--foo_bar_baz\r\nContent-Type: application/json\r\n\r\n");
    r.append(content_json);
    r.append("\r\n--foo_bar_baz--");
    r
}

/// `multipart/related; boundary=foo_bar_baz`
pub const APPDATA_UPLOAD_CONTENT_TYPE: &'static str = "multipart/related; boundary=foo_bar_baz";

/// `{prefix}: {detail}`, the error of a refused upload or update.
pub fn failure_message(prefix: &str, detail: &str) -> (r: String)
    ensures
        r@ == prefix@ + ": "@ + detail@,
{
    let mut r = prefix.to_owned();
    r.append(": ");
    r.append(detail);
    r
}

/// The e-mail address of the signed-in user, or the empty text.
pub open spec fn user_email(user: Json) -> Seq<char> {
    str_or(json_str_field(user, "email"@), ""@)
}

/// Reads the user's e-mail address from Google's user info.
pub fn primary_email_of(user: &JsonValue) -> (r: String)
    ensures
        r@ == user_email(user@),
{
    match user.str_field("email") {
        Some(e) => e.clone(),
        None => "".to_owned(),
    }
}

/// The escaped e-mail address under which the signed-in user's records are
/// listed; `None` when the user info carries no address, and then nothing is
/// listed.
pub fn listing_primary(user: &JsonValue) -> (r: Option<String>)
    ensures
        match r {
            Some(p) => user_email(user@).len() > 0 && p@ == encode_email(user_email(user@)),
            None => user_email(user@).len() == 0,
        },
{
    let primary = primary_email_of(user);
    if primary.as_str().is_empty() {
        None
    } else {
        Some(encode_email_for_filename(primary.as_str()))
    }
}

/// The request that lists the secondary-drive files of a primary account.
pub fn secondary_drives_listing_url(primary_email_encoded: &str) -> (r: String)
    ensures
        r@ == "https://www.googleapis.com/drive/v3/files?spaces=appDataFolder&q=name%20contains%20'sdrive---secondary-drive---"@
            + primary_email_encoded@ + "---'"@,
{
    let mut r = "https://www.googleapis.com/drive/v3/files?spaces=appDataFolder&q=name%20contains%20'sdrive---secondary-drive---".to_owned();
    r.append(primary_email_encoded);
    r.append("---'");
    r
}

/// The request that lists the logical-folder files of a primary account.
pub fn logical_folders_listing_url(primary_email_encoded: &str) -> (r: String)
    ensures
        r@ == "https://www.googleapis.com/drive/v3/files?spaces=appDataFolder&q=name%20contains%20'sdrive---logical-folder---"@
            + primary_email_encoded@ + "---'"@,
{
    let mut r = "https://www.googleapis.com/drive/v3/files?spaces=appDataFolder&q=name%20contains%20'sdrive---logical-folder---".to_owned();
    r.append(primary_email_encoded);
    r.append("---'");
    r
}

/// The name of the secondary-drive file to create for the signed-in user; an
/// error when the user info carries no e-mail address.
pub fn secondary_drive_file_for(user: &JsonValue, drive_provider: &str, new_secondary_drive_email: &str) -> (r: Result<String, String>)
    ensures
        match r {
            Ok(n) => user_email(user@).len() > 0 && n@ == secondary_drive_name(
                encode_email(user_email(user@)),
                drive_provider@,
                encode_email(new_secondary_drive_email@),
            ),
            Err(m) => user_email(user@).len() == 0 && m@ == "Failed to fetch user info"@,
        },
{
    let primary = primary_email_of(user);
    if primary.as_str().is_empty() {
        return Err("Failed to fetch user info".to_owned());
    }
    let primary = encode_email_for_filename(primary.as_str());
    let secondary = encode_email_for_filename(new_secondary_drive_email);
    Ok(secondary_drive_filename(primary.as_str(), drive_provider, secondary.as_str()))
}

/// The name of the logical-folder file to create for the signed-in user; an
/// error when the user info carries no e-mail address.
pub fn logical_folder_file_for(user: &JsonValue, drive_name: &str) -> (r: Result<String, String>)
    ensures
        match r {
            Ok(n) => user_email(user@).len() > 0 && n@ == logical_folder_name(
                encode_email(user_email(user@)),
                encode_name(drive_name@),
            ),
            Err(m) => user_email(user@).len() == 0 && m@ == "Failed to fetch user info"@,
        },
{
    let primary = primary_email_of(user);
    if primary.as_str().is_empty() {
        return Err("Failed to fetch user info".to_owned());
    }
    let primary = encode_email_for_filename(primary.as_str());
    let folder = encode_drive_name(drive_name);
    Ok(logical_folder_filename(primary.as_str(), folder.as_str()))
}

/// The content of a new logical-folder file: `{"drives":[...],"new_file":true}`.
pub open spec fn logical_folder_content_spec(drives: Seq<Seq<Seq<char>>>) -> Seq<char> {
    json_text(
        Json::Object(
            seq!["drives"@, "new_file"@],
            seq![
                Json::Array(drives.map_values(|d: Seq<Seq<char>>| Json::Array(d.map_values(|x: Seq<char>| Json::Str(x))))),
                Json::Bool(true),
            ],
        ),
    )
}

/// Writes the content of a new logical-folder file.
pub fn logical_folder_content(drives: &Vec<Vec<String>>) -> (r: String)
    ensures
        r@ == logical_folder_content_spec(drives.deep_view()),
{
    let ghost want = drives.deep_view().map_values(|d: Seq<Seq<char>>| Json::Array(d.map_values(|x: Seq<char>| Json::Str(x))));
    let mut rows: Vec<JsonValue> = Vec::new();
    let mut i: usize = 0;
    while i < drives.len()
        invariant
            i <= drives@.len(),
            rows@.len() == i,
            want == drives.deep_view().map_values(|d: Seq<Seq<char>>| Json::Array(d.map_values(|x: Seq<char>| Json::Str(x)))),
            forall|k: int| 0 <= k < i ==> (#[trigger] rows@[k])@ == want[k],
        decreases drives.len() - i,
    {
        let row = &drives[i];
        let mut cells: Vec<JsonValue> = Vec::new();
        let mut j: usize = 0;
        while j < row.len()
            invariant
                j <= row@.len(),
                cells@.len() == j,
                forall|k: int| 0 <= k < j ==> (#[trigger] cells@[k])@ == Json::Str(row@[k]@),
            decreases row.len() - j,
        {
            cells.push(json_str(row[j].as_str()));
            j = j + 1;
        }
        let cell_array = JsonValue::Array(cells);
        proof {
            lemma_array_view(cell_array);
            assert(cell_array@->Array_0 =~= row.deep_view().map_values(|x: Seq<char>| Json::Str(x)));
            assert(drives.deep_view()[i as int] == row.deep_view());
        }
        rows.push(cell_array);
        i = i + 1;
    }
    let row_array = JsonValue::Array(rows);
    proof {
        lemma_array_view(row_array);
        assert(row_array@->Array_0 =~= want);
    }
    let members = vec![member("drives", row_array), member("new_file", JsonValue::Bool(true))];
    let content = object_of(members);
    assert(member_keys(members@) =~= seq!["drives"@, "new_file"@]);
    assert(member_values(members@) =~= seq![Json::Array(want), Json::Bool(true)]);
    content.to_json_string()
}

/// The content of a new logical-folder file is the JSON object whose `drives`
/// member holds, in order, one array per given drive with that drive's
/// strings in order, and whose `new_file` member is `true`.
pub proof fn law_logical_folder_content_holds_drives(drives: Seq<Seq<Seq<char>>>, rows: Seq<Json>)
    requires
        rows.len() == drives.len(),
        forall|k: int|
            0 <= k < rows.len() ==> #[trigger] rows[k] == Json::Array(
                Seq::new(drives[k].len(), |j: int| Json::Str(drives[k][j])),
            ),
    ensures
        logical_folder_content_spec(drives) == json_text(
            Json::Object(seq!["drives"@, "new_file"@], seq![Json::Array(rows), Json::Bool(true)]),
        ),
        json_get(
            Json::Object(seq!["drives"@, "new_file"@], seq![Json::Array(rows), Json::Bool(true)]),
            "drives"@,
        ) == Some(Json::Array(rows)),
{
    let m = drives.map_values(|d: Seq<Seq<char>>| Json::Array(d.map_values(|x: Seq<char>| Json::Str(x))));
    assert forall|k: int| 0 <= k < rows.len() implies #[trigger] m[k] == rows[k] by {
        assert(drives[k].map_values(|x: Seq<char>| Json::Str(x)) =~= Seq::new(
            drives[k].len(),
            |j: int| Json::Str(drives[k][j]),
        ));
    }
    assert(m =~= rows);
    let obj = Json::Object(seq!["drives"@, "new_file"@], seq![Json::Array(rows), Json::Bool(true)]);
    lemma_lookup_at(obj->Object_0, obj->Object_1, "drives"@, 0);
}

/// The listed files that carry both a string id and a string name, as
/// (id, name) pairs in listing order.
pub open spec fn listed_id_names(listing: Json) -> Seq<(Seq<char>, Seq<char>)>
{
    match json_get(listing, "files"@) {
        Some(files) => match json_as_array(files) {
            Some(items) => id_name_pairs(items),
            None => Seq::empty(),
        },
        None => Seq::empty(),
    }
}

pub open spec fn id_name_pairs(items: Seq<Json>) -> Seq<(Seq<char>, Seq<char>)>
    decreases items.len(),
{
    if items.len() == 0 {
        Seq::empty()
    } else {
        let rest = id_name_pairs(items.drop_last());
        match (json_str_field(items.last(), "id"@), json_str_field(items.last(), "name"@)) {
            (Some(id), Some(name)) => rest.push((id, name)),
            _ => rest,
        }
    }
}

/// The (id, name) pairs of a listing.
pub fn listed_files(listing: &JsonValue) -> (r: Vec<(String, String)>)
    ensures
        r@.len() == listed_id_names(listing@).len(),
        forall|k: int| 0 <= k < r@.len() ==> (#[trigger] r@[k]).0@ == listed_id_names(listing@)[k].0
            && r@[k].1@ == listed_id_names(listing@)[k].1,
{
    let mut out: Vec<(String, String)> = Vec::new();
    match listing.get("files") {
        Some(files) => match files.as_array() {
            Some(items) => {
                let ghost src = json_as_array(json_get(listing@, "files"@)->0)->0;
                let mut i: usize = 0;
                while i < items.len()
                    invariant
                        i <= items@.len(),
                        src.len() == items@.len(),
                        forall|k: int| 0 <= k < items@.len() ==> #[trigger] src[k] == items@[k]@,
                        out@.len() == id_name_pairs(src.take(i as int)).len(),
                        forall|k: int| 0 <= k < out@.len() ==> (#[trigger] out@[k]).0@ == id_name_pairs(src.take(i as int))[k].0
                            && out@[k].1@ == id_name_pairs(src.take(i as int))[k].1,
                    decreases items.len() - i,
                {
                    proof {
                        assert(src.take(i + 1).drop_last() =~= src.take(i as int));
                        assert(src.take(i + 1).last() == items@[i as int]@);
                    }
                    let id = items[i].str_field("id");
                    let name = items[i].str_field("name");
                    match (id, name) {
                        (Some(id), Some(name)) => {
                            out.push((id.clone(), name.clone()));
                        },
                        _ => {},
                    }
                    i = i + 1;
                }
                proof {
                    assert(src.take(items@.len() as int) =~= src);
                }
            },
            None => {},
        },
        None => {},
    }
    out
}

/// One secondary drive as reported: its file id, provider and e-mail address.
pub open spec fn secondary_drive_view(file_id: Seq<char>, provider: Seq<char>, email: Seq<char>) -> Json {
    Json::Object(seq!["email"@, "file_id"@, "provider"@], seq![Json::Str(email), Json::Str(file_id), Json::Str(provider)])
}

/// The secondary drives named by the listed files; files whose name has no
/// `---` separator after stripping are left out.
pub open spec fn secondary_drives_spec(pairs: Seq<(Seq<char>, Seq<char>)>, primary_email_encoded: Seq<char>) -> Seq<Json>
    decreases pairs.len(),
{
    if pairs.len() == 0 {
        Seq::empty()
    } else {
        let rest = secondary_drives_spec(pairs.drop_last(), primary_email_encoded);
        match parse_secondary_drive(pairs.last().1, primary_email_encoded) {
            Some((provider, email)) => rest.push(secondary_drive_view(pairs.last().0, provider, email)),
            None => rest,
        }
    }
}

/// Reads the secondary drives of a primary account from a listing of its files.
pub fn secondary_drives_from_listing(listing: &JsonValue, primary_email_encoded: &str) -> (r: Vec<JsonValue>)
    ensures
        r@.len() == secondary_drives_spec(listed_id_names(listing@), primary_email_encoded@).len(),
        forall|k: int| 0 <= k < r@.len() ==> (#[trigger] r@[k])@ == secondary_drives_spec(listed_id_names(listing@), primary_email_encoded@)[k],
{
    let files = listed_files(listing);
    let ghost pairs = listed_id_names(listing@);
    let mut out: Vec<JsonValue> = Vec::new();
    let mut i: usize = 0;
    while i < files.len()
        invariant
            i <= files@.len(),
            files@.len() == pairs.len(),
            forall|k: int| 0 <= k < files@.len() ==> (#[trigger] files@[k]).0@ == pairs[k].0 && files@[k].1@ == pairs[k].1,
            out@.len() == secondary_drives_spec(pairs.take(i as int), primary_email_encoded@).len(),
            forall|k: int| 0 <= k < out@.len() ==> (#[trigger] out@[k])@ == secondary_drives_spec(pairs.take(i as int), primary_email_encoded@)[k],
        decreases files.len() - i,
    {
        proof {
            assert(pairs.take(i + 1).drop_last() =~= pairs.take(i as int));
            assert(pairs.take(i + 1).last() == pairs[i as int]);
        }
        let (id, name) = (&files[i].0, &files[i].1);
        match parse_secondary_drive_filename(name.as_str(), primary_email_encoded) {
            Some((provider, email)) => {
                let members = vec![
                    member("email", JsonValue::Str(email)),
                    member("file_id", json_str(id.as_str())),
                    member("provider", JsonValue::Str(provider)),
                ];
                let entry = object_of(members);
                proof {
                    let (p, e) = parse_secondary_drive(pairs[i as int].1, primary_email_encoded@)->0;
                    assert(member_keys(members@) =~= seq!["email"@, "file_id"@, "provider"@]);
                    assert(member_values(members@) =~= seq![Json::Str(e), Json::Str(pairs[i as int].0), Json::Str(p)]);
                }
                out.push(entry);
            },
            None => {},
        }
        i = i + 1;
    }
    proof {
        assert(pairs.take(files@.len() as int) =~= pairs);
    }
    out
}

/// One logical folder as reported: its file id, decoded name and the `drives`
/// recorded in its content (`[]` when the content is missing or has none).
pub open spec fn logical_folder_view(file_id: Seq<char>, raw_name: Seq<char>, primary_email_encoded: Seq<char>, content: Option<Json>) -> Json {
    let drives = match content {
        Some(c) => match json_get(c, "drives"@) {
            Some(d) => d,
            None => Json::Array(Seq::empty()),
        },
        None => Json::Array(Seq::empty()),
    };
    Json::Object(
        seq!["drives"@, "file_id"@, "name"@],
        seq![drives, Json::Str(file_id), Json::Str(parse_logical_folder(raw_name, primary_email_encoded))],
    )
}

/// Reports one logical folder from its listed file and the content read from it.
pub fn logical_folder_entry(file_id: &str, raw_name: &str, primary_email_encoded: &str, content: Option<&JsonValue>) -> (r: JsonValue)
    ensures
        r@ == logical_folder_view(file_id@, raw_name@, primary_email_encoded@, match content {
            Some(c) => Some(c@),
            None => None,
        }),
{
    let drives = match content {
        Some(c) => match c.get("drives") {
            Some(d) => d.deep_clone(),
            None => json_empty_array(),
        },
        None => json_empty_array(),
    };
    let name = parse_logical_folder_filename(raw_name, primary_email_encoded);
    let members = vec![member("drives", drives), member("file_id", json_str(file_id)), member("name", JsonValue::Str(name))];
    let r = object_of(members);
    assert(member_keys(members@) =~= seq!["drives"@, "file_id"@, "name"@]);
    assert(member_values(members@) =~= logical_folder_view(file_id@, raw_name@, primary_email_encoded@, match content {
        Some(c) => Some(c@),
        None => None,
    })->Object_1);
    r
}

proof fn lemma_secondary_drives_keep(pairs: Seq<(Seq<char>, Seq<char>)>, primary_email_encoded: Seq<char>, n: int)
    requires
        0 <= n <= pairs.len(),
    ensures
        forall|x: Json|
            secondary_drives_spec(pairs.take(n), primary_email_encoded).contains(x) ==> secondary_drives_spec(
                pairs,
                primary_email_encoded,
            ).contains(x),
    decreases pairs.len() - n,
{
    if n < pairs.len() {
        lemma_secondary_drives_keep(pairs, primary_email_encoded, n + 1);
        let p1 = pairs.take(n + 1);
        assert(p1.drop_last() =~= pairs.take(n));
        let rest = secondary_drives_spec(pairs.take(n), primary_email_encoded);
        assert forall|x: Json| rest.contains(x) implies secondary_drives_spec(p1, primary_email_encoded).contains(x) by {
            let j = choose|j: int| 0 <= j < rest.len() && rest[j] == x;
            match parse_secondary_drive(p1.last().1, primary_email_encoded) {
                Some((provider, email)) => {
                    assert(secondary_drives_spec(p1, primary_email_encoded) == rest.push(
                        secondary_drive_view(p1.last().0, provider, email),
                    ));
                    assert(rest.push(secondary_drive_view(p1.last().0, provider, email))[j] == x);
                },
                None => {},
            }
        }
    } else {
        assert(pairs.take(n) =~= pairs);
    }
}

/// A secondary drive whose file was written under the name that
/// `secondary_drive_file_for` gives is reported, with its file id, provider
/// and e-mail address, by `secondary_drives_from_listing` over any listing
/// that holds that file, when the three read back unambiguously.
pub proof fn law_written_secondary_drive_is_listed(
    pairs: Seq<(Seq<char>, Seq<char>)>,
    i: int,
    primary: Seq<char>,
    provider: Seq<char>,
    email: Seq<char>,
)
    requires
        secondary_drive_reads_back(primary, provider, email),
        0 <= i < pairs.len(),
        pairs[i].1 == secondary_drive_name(encode_email(primary), provider, encode_email(email)),
    ensures
        secondary_drives_spec(pairs, encode_email(primary)).contains(
            secondary_drive_view(pairs[i].0, provider, email),
        ),
        secondary_drives_spec(pairs, encode_email(primary)).contains(
            Json::Object(
                seq!["email"@, "file_id"@, "provider"@],
                seq![Json::Str(email), Json::Str(pairs[i].0), Json::Str(provider)],
            ),
        ),
{
    let pe = encode_email(primary);
    law_secondary_drive_round_trip(primary, provider, email);
    let p1 = pairs.take(i + 1);
    assert(p1.last() == pairs[i]);
    let view = secondary_drive_view(pairs[i].0, provider, email);
    let sp = secondary_drives_spec(p1, pe);
    assert(sp == secondary_drives_spec(p1.drop_last(), pe).push(view));
    assert(sp[sp.len() - 1] == view);
    assert(sp.contains(view));
    lemma_secondary_drives_keep(pairs, pe, i + 1);
}

/// A logical folder whose file was written under the name that
/// `logical_folder_file_for` gives is reported with its file id, its folder
/// name and the `drives` of its content, when the two read back unambiguously.
pub proof fn law_written_logical_folder_is_listed(
    file_id: Seq<char>,
    primary: Seq<char>,
    folder: Seq<char>,
    content: Json,
    drives: Json,
)
    requires
        logical_folder_reads_back(primary, folder),
        json_get(content, "drives"@) == Some(drives),
    ensures
        logical_folder_view(
            file_id,
            logical_folder_name(encode_email(primary), encode_name(folder)),
            encode_email(primary),
            Some(content),
        ) == Json::Object(seq!["drives"@, "file_id"@, "name"@], seq![drives, Json::Str(file_id), Json::Str(folder)]),
{
    law_logical_folder_round_trip(primary, folder);
}

} // verus!
