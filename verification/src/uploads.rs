use vstd::prelude::*;
use vstd::string::StringExecFns;

use vstd::utf8::encode_utf8;

use crate::text::ascii_lower;

verus! {

/// The directory into which uploaded files are saved before they are processed.
pub open spec fn upload_dir() -> Seq<char> {
    "/tmp/"@
}

/// A path of a file directly inside `upload_dir()`: the name after the
/// directory holds no '/' and is neither "." nor "..".
pub open spec fn directly_in_upload_dir(path: Seq<char>) -> bool {
    exists|name: Seq<char>|
        {
            &&& path == upload_dir() + name
            &&& !name.contains('/')
            &&& name != "."@
            &&& name != ".."@
        }
}

/// `a` can be had from `b` by deleting characters.
pub open spec fn is_subsequence(a: Seq<char>, b: Seq<char>) -> bool
    decreases b.len(),
{
    if a.len() == 0 {
        true
    } else if b.len() == 0 {
        false
    } else if a.last() == b.last() {
        is_subsequence(a.drop_last(), b.drop_last())
    } else {
        is_subsequence(a, b.drop_last())
    }
}

/// A character that no rule of the sanitizer deletes wherever it stands:
/// anything but a control character (U+0000 to U+001F, U+0080 to U+009F)
/// and the characters illegal in file names, / ? < > \ : * | ".
pub open spec fn plain_name_char(c: char) -> bool {
    let n = c as u32;
    &&& !(n <= 0x1f)
    &&& !(0x80 <= n <= 0x9f)
    &&& c != '/'
    &&& c != '?'
    &&& c != '<'
    &&& c != '>'
    &&& c != '\\'
    &&& c != ':'
    &&& c != '*'
    &&& c != '|'
    &&& c != '"'
}

/// `s` is one of the Windows device names "con", "prn", "aux", "nul",
/// "com0".."com9", "lpt0".."lpt9", in any case.
pub open spec fn device_stem(s: Seq<char>) -> bool {
    ||| s.len() == 3 && (
        (ascii_lower(s[0]) == 'c' && ascii_lower(s[1]) == 'o' && ascii_lower(s[2]) == 'n')
        || (ascii_lower(s[0]) == 'p' && ascii_lower(s[1]) == 'r' && ascii_lower(s[2]) == 'n')
        || (ascii_lower(s[0]) == 'a' && ascii_lower(s[1]) == 'u' && ascii_lower(s[2]) == 'x')
        || (ascii_lower(s[0]) == 'n' && ascii_lower(s[1]) == 'u' && ascii_lower(s[2]) == 'l'))
    ||| s.len() == 4 && '0' <= s[3] <= '9' && (
        (ascii_lower(s[0]) == 'c' && ascii_lower(s[1]) == 'o' && ascii_lower(s[2]) == 'm')
        || (ascii_lower(s[0]) == 'l' && ascii_lower(s[1]) == 'p' && ascii_lower(s[2]) == 't'))
}

/// `name` is a Windows device name, alone or followed by '.' and anything.
pub open spec fn is_device_name(name: Seq<char>) -> bool {
    exists|k: int|
        0 <= k <= name.len() && (k == name.len() || name[k] == '.') && device_stem(
            #[trigger] name.take(k),
        )
}

/// A file name that the sanitizer leaves as it is on every platform: at most
/// 255 bytes in UTF-8, all of its characters plain, not made only of dots,
/// not ending in '.' or ' ', and not a Windows device name.
pub open spec fn plain_file_name(name: Seq<char>) -> bool {
    &&& encode_utf8(name).len() <= 255
    &&& forall|i: int| 0 <= i < name.len() ==> plain_name_char(#[trigger] name[i])
    &&& exists|i: int| 0 <= i < name.len() && #[trigger] name[i] != '.'
    &&& name.last() != '.'
    &&& name.last() != ' '
    &&& !is_device_name(name)
}

/// What holds of the sanitized form `r` of a file name `name` on every
/// platform: `r` keeps some of the characters of `name` in order, holds no
/// '/', is neither "." nor "..", and is `name` itself when `name` is plain.
pub open spec fn sanitized_from(name: Seq<char>, r: Seq<char>) -> bool {
    &&& is_subsequence(r, name)
    &&& !r.contains('/')
    &&& r != "."@
    &&& r != ".."@
    &&& plain_file_name(name) ==> r == name
}

/// `sanitize_filename::sanitize(name)`.  Its source only deletes characters
/// (every '/' with the others illegal in file names, control characters, a
/// name made only of dots, bytes past the 255th) and, on Windows, device
/// names and trailing dots and spaces; so it keeps a plain name as it is,
/// spaces and letters outside ASCII included.
/// Beyond that the result depends on the platform and is not named.
#[verifier::external_body]
fn sanitize_file_name(name: &str) -> (r: String)
    ensures
        sanitized_from(name@, r@),
{
    sanitize_filename::sanitize(name)
}

/// The path of the file called `sanitized` inside the upload directory.
pub fn path_in_upload_dir(sanitized: &str) -> (path: String)
    ensures
        path@ == upload_dir() + sanitized@,
{
    let mut path = "/tmp/".to_owned();
    path.append(sanitized);
    path
}

/// A file name that the sanitizer keeps is saved under that very name in the
/// upload directory: whatever `upload_path` gives for a plain name is the
/// upload directory followed by the name.
pub proof fn lemma_plain_name_is_kept(file_name: Seq<char>, path: Seq<char>)
    requires
        plain_file_name(file_name),
        exists|r: Seq<char>| path == upload_dir() + r && sanitized_from(file_name, r),
    ensures
        path == upload_dir() + file_name,
{
}

/// Where an uploaded file that the client calls `file_name` is saved: its
/// sanitized name inside the upload directory.
pub fn upload_path(file_name: &str) -> (path: String)
    ensures
        exists|r: Seq<char>| path@ == upload_dir() + r && sanitized_from(file_name@, r),
        directly_in_upload_dir(path@),
{
    let name = sanitize_file_name(file_name);
    let path = path_in_upload_dir(name.as_str());
    assert(path@ == upload_dir() + name@);
    path
}

/// The account under which images are uploaded to Cloudinary.
#[derive(Debug)]
pub struct CloudinaryConfig {
    pub cloud_name: String,
    pub api_key: String,
    pub api_secret: String,
}

/// Why an upload gave no image address.
#[derive(Debug, Clone, Copy, PartialEq, Eq, Structural)]
pub enum UploadError {
    /// The service's reply was not JSON.
    ReplyNotJson,
    /// The reply has no text member "secure_url" ("Failed to get secure URL").
    MissingSecureUrl,
}

/// What serde_json finds in `body` at member `key`: `None` when `body` is not
/// JSON, `Some(None)` when it has no such member or the member is not a
/// string, else `Some(Some(text))`.
pub uninterp spec fn json_text_member(body: Seq<u8>, key: Seq<char>) -> Option<Option<Seq<char>>>;

/// `serde_json::from_slice::<Value>(body)`, then `get(key)` and `as_str()`
/// on the value.  The answer is named `json_text_member`.
#[verifier::external_body]
fn read_json_text_member(body: &[u8], key: &str) -> (r: Option<Option<String>>)
    ensures
        match r {
            None => json_text_member(body@, key@) is None,
            Some(None) => json_text_member(body@, key@) == Some(None::<Seq<char>>),
            Some(Some(s)) => json_text_member(body@, key@) == Some(Some(s@)),
        },
{
    match serde_json::from_slice::<serde_json::Value>(body) {
        Ok(value) => match value.get(key) {
            Some(member) => Some(member.as_str().map(String::from)),
            None => Some(None),
        },
        Err(_) => None,
    }
}

/// The member of an upload reply that holds the image's address.
pub open spec fn secure_url_key() -> Seq<char> {
    "secure_url"@
}

/// What an upload reply `body` gives: the image's address, or why not.
pub open spec fn upload_outcome(body: Seq<u8>, r: Result<String, UploadError>) -> bool {
    match json_text_member(body, secure_url_key()) {
        None => r == Err::<String, UploadError>(UploadError::ReplyNotJson),
        Some(None) => r == Err::<String, UploadError>(UploadError::MissingSecureUrl),
        Some(Some(url)) => r matches Ok(u) && u@ == url,
    }
}

impl CloudinaryConfig {
    /// The account named `cloud_name`, with its API credentials.
    pub fn new(cloud_name: String, api_key: String, api_secret: String) -> (c: CloudinaryConfig)
        ensures
            c.cloud_name == cloud_name,
            c.api_key == api_key,
            c.api_secret == api_secret,
    {
        CloudinaryConfig { cloud_name, api_key, api_secret }
    }

    /// The address to which images of this account are posted.
    pub open spec fn upload_url_spec(&self) -> Seq<char> {
        "https://api.cloudinary.com/v1_1/"@ + self.cloud_name@ + "/image/upload"@
    }

    /// The address to which images of this account are posted.
    pub fn upload_url(&self) -> (url: String)
        ensures
            url@ == self.upload_url_spec(),
    {
        let mut url = "https://api.cloudinary.com/v1_1/".to_owned();
        url.append(self.cloud_name.as_str());
        url.append("/image/upload");
        url
    }

    /// The address of the uploaded image, read from the upload service's
    /// reply `body`.
    pub fn secure_url(body: &[u8]) -> (r: Result<String, UploadError>)
        ensures
            upload_outcome(body@, r),
    {
        match read_json_text_member(body, "secure_url") {
            None => Err(UploadError::ReplyNotJson),
            Some(None) => Err(UploadError::MissingSecureUrl),
            Some(Some(url)) => Ok(url),
        }
    }
}

} // verus!
