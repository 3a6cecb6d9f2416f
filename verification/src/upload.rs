//! The fields of a file upload form, gathered one part at a time.
//!
//! An upload arrives as `multipart/form-data` with a text part
//! `access_token`, a text part `parent_id` and a binary part `file`, whose
//! file name and content type are kept too. Other parts are ignored; a part
//! that comes again replaces the earlier one.

use vstd::prelude::*;
use crate::error::AppError;

verus! {

broadcast use vstd::string::group_string_axioms;

/// What a part of the form is for, by its name.
#[derive(Clone, Copy, Debug, PartialEq, Eq, Structural)]
pub enum UploadField {
    AccessToken,
    ParentId,
    File,
    Other,
}

/// The role of a part named `name` (a part without a name is ignored).
pub open spec fn upload_field_spec(name: Option<Seq<char>>) -> UploadField {
    match name {
        Some(n) => if n == "access_token"@ {
            UploadField::AccessToken
        } else if n == "parent_id"@ {
            UploadField::ParentId
        } else if n == "file"@ {
            UploadField::File
        } else {
            UploadField::Other
        },
        None => UploadField::Other,
    }
}

/// The text of an optional name.
pub open spec fn opt_str_view(o: Option<&str>) -> Option<Seq<char>> {
    match o {
        Some(s) => Some(s@),
        None => None,
    }
}

/// The role of a part, from its name.
pub fn upload_field(name: Option<&str>) -> (f: UploadField)
    ensures
        f == upload_field_spec(opt_str_view(name)),
{
    match name {
        Some(n) => {
            if crate::text::str_eq(n, "access_token") {
                UploadField::AccessToken
            } else if crate::text::str_eq(n, "parent_id") {
                UploadField::ParentId
            } else if crate::text::str_eq(n, "file") {
                UploadField::File
            } else {
                UploadField::Other
            }
        },
        None => UploadField::Other,
    }
}

/// The content type assumed when the file part names none.
pub const DEFAULT_UPLOAD_MIME: &'static str = "application/octet-stream";

/// The message of an upload that lacks a token, a parent or content.
pub const MISSING_UPLOAD_FIELDS: &'static str = "Missing required upload fields";

/// What has been read of the form so far.
pub struct UploadForm {
    pub access_token: String,
    pub parent_id: String,
    pub file_name: String,
    pub mime_type: String,
    pub data: Vec<u8>,
}

impl UploadForm {
    /// Nothing read yet: empty token, parent, name and content, and the
    /// default content type.
    pub fn new() -> (f: UploadForm)
        ensures
            f.access_token@ == Seq::<char>::empty(),
            f.parent_id@ == Seq::<char>::empty(),
            f.file_name@ == Seq::<char>::empty(),
            f.mime_type@ == DEFAULT_UPLOAD_MIME@,
            f.data@ == Seq::<u8>::empty(),
    {
        UploadForm {
            access_token: String::new(),
            parent_id: String::new(),
            file_name: String::new(),
            mime_type: DEFAULT_UPLOAD_MIME.to_string(),
            data: Vec::new(),
        }
    }

    /// Records the text of a part: the token for `access_token`, the parent
    /// for `parent_id`; a text for any other role changes nothing.
    pub fn set_text(&mut self, field: UploadField, text: String)
        ensures
            final(self).access_token@ == (if field == UploadField::AccessToken { text@ } else {
                old(self).access_token@
            }),
            final(self).parent_id@ == (if field == UploadField::ParentId { text@ } else {
                old(self).parent_id@
            }),
            final(self).file_name@ == old(self).file_name@,
            final(self).mime_type@ == old(self).mime_type@,
            final(self).data@ == old(self).data@,
    {
        match field {
            UploadField::AccessToken => {
                self.access_token = text;
            },
            UploadField::ParentId => {
                self.parent_id = text;
            },
            _ => {},
        }
    }

    /// Records the file part: its content, and its name and content type
    /// where the part gives them.
    pub fn set_file(&mut self, file_name: Option<String>, content_type: Option<String>, data: Vec<u8>)
        ensures
            final(self).access_token@ == old(self).access_token@,
            final(self).parent_id@ == old(self).parent_id@,
            final(self).file_name@ == (match file_name {
                Some(n) => n@,
                None => old(self).file_name@,
            }),
            final(self).mime_type@ == (match content_type {
                Some(t) => t@,
                None => old(self).mime_type@,
            }),
            final(self).data@ == data@,
    {
        if let Some(n) = file_name {
            self.file_name = n;
        }
        if let Some(t) = content_type {
            self.mime_type = t;
        }
        self.data = data;
    }

    /// A token, a parent and some content are present.
    pub open spec fn complete(&self) -> bool {
        self.access_token@.len() > 0 && self.parent_id@.len() > 0 && self.data@.len() > 0
    }

    /// The form, if it is complete; else the error the upload is refused with.
    pub fn finish(self) -> (r: Result<UploadForm, AppError>)
        ensures
            self.complete() ==> (r matches Ok(f) && f == self),
            !self.complete() ==> (r matches Err(AppError::ExternalServiceError(m))
                && m@ == MISSING_UPLOAD_FIELDS@),
    {
        if self.access_token.as_str().is_empty() || self.parent_id.as_str().is_empty() || self.data.len() == 0 {
            Err(AppError::ExternalServiceError(MISSING_UPLOAD_FIELDS.to_string()))
        } else {
            Ok(self)
        }
    }
}

} // verus!
