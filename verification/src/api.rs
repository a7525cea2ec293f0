//! What the HTTP server decides around the store: which asset a request
//! path names, and the status, error text and live-update notice that each
//! outcome of an API call is answered with.

use crate::text::{ascii_lowered, decimal, decimal_text, push_text_char};
use vstd::prelude::*;

verus! {

// ----------------------------------------------------------------------------
// Static assets
// ----------------------------------------------------------------------------

/// The path without its leading slashes.
pub open spec fn without_leading_slashes(s: Seq<char>) -> Seq<char>
    decreases s.len(),
{
    if s.len() > 0 && s[0] == '/' {
        without_leading_slashes(s.drop_first())
    } else {
        s
    }
}

/// The asset a request path names: the path without its leading slashes,
/// or the index page when nothing is left.
pub open spec fn asset_name(path: Seq<char>) -> Seq<char> {
    if without_leading_slashes(path).len() == 0 {
        "index.html"@
    } else {
        without_leading_slashes(path)
    }
}

/// The asset that a request path names.
pub fn asset_path(path: &str) -> (r: String)
    ensures
        r@ == asset_name(path@),
{
    let n = path.unicode_len();
    let mut i: usize = 0;
    assert(path@.subrange(0, n as int) =~= path@);
    while i < n && path.get_char(i) == '/'
        invariant
            n == path@.len(),
            i <= n,
            without_leading_slashes(path@) == without_leading_slashes(path@.subrange(i as int, n as int)),
        decreases n - i,
    {
        assert(path@.subrange(i as int, n as int).drop_first() =~= path@.subrange(i + 1, n as int));
        i = i + 1;
    }
    assert(without_leading_slashes(path@.subrange(i as int, n as int)) == path@.subrange(i as int, n as int));
    if i == n {
        String::from_str("index.html")
    } else {
        let mut out = String::new();
        let mut j: usize = i;
        while j < n
            invariant
                n == path@.len(),
                i <= j <= n,
                out@ == path@.subrange(i as int, j as int),
            decreases n - j,
        {
            let c = path.get_char(j);
            push_text_char(&mut out, c);
            assert(out@ =~= path@.subrange(i as int, j + 1));
            j = j + 1;
        }
        out
    }
}

/// The content type that `mime_guess` guesses for a path from its
/// extension, `application/octet-stream` when it knows none.
pub uninterp spec fn mime_type_of(path: Seq<char>) -> Seq<char>;

/// The type that `mime_guess`'s extension table gives for some common
/// extensions, written in lower case.
pub open spec fn table_type(ext: Seq<char>) -> Option<Seq<char>> {
    if ext == "css"@ {
        Some("text/css"@)
    } else if ext == "gif"@ {
        Some("image/gif"@)
    } else if ext == "htm"@ || ext == "html"@ {
        Some("text/html"@)
    } else if ext == "ico"@ {
        Some("image/x-icon"@)
    } else if ext == "jpeg"@ || ext == "jpg"@ {
        Some("image/jpeg"@)
    } else if ext == "js"@ {
        Some("text/javascript"@)
    } else if ext == "json"@ {
        Some("application/json"@)
    } else if ext == "map"@ || ext == "txt"@ {
        Some("text/plain"@)
    } else if ext == "png"@ {
        Some("image/png"@)
    } else if ext == "svg"@ {
        Some("image/svg+xml"@)
    } else if ext == "wasm"@ {
        Some("application/wasm"@)
    } else if ext == "woff2"@ {
        Some("font/woff2"@)
    } else {
        None
    }
}

/// `ext` is the extension of the path's file name: the path ends in a dot
/// and `ext`, `ext` holds no dot or separator, and the dot is not the first
/// character of the file name (the character before it is no separator, a
/// backslash or a colon counted as one, as on some platforms).
pub open spec fn has_extension(path: Seq<char>, ext: Seq<char>) -> bool {
    &&& ext.len() > 0
    &&& path.len() >= ext.len() + 2
    &&& path.subrange(path.len() - ext.len(), path.len() as int) == ext
    &&& path[path.len() - ext.len() - 1] == '.'
    &&& path[path.len() - ext.len() - 2] != '/'
    &&& path[path.len() - ext.len() - 2] != '\\'
    &&& path[path.len() - ext.len() - 2] != ':'
    &&& forall|i: int| 0 <= i < ext.len() ==> #[trigger] ext[i] != '.' && ext[i] != '/' && ext[i] != '\\'
}

/// The path holds no dot, so its file name has no extension.
pub open spec fn without_dot(path: Seq<char>) -> bool {
    forall|i: int| 0 <= i < path.len() ==> #[trigger] path[i] != '.'
}

/// Calls `mime_guess::from_path(..).first_or_octet_stream()` and writes the
/// type out. The guess depends on the path alone (a fixed table of
/// extensions, looked up without regard to case); the table itself is only
/// named here. Of it this is claimed: the entries of `table_type`, as
/// `mime_guess`'s table lists them, and `application/octet-stream` for a
/// path whose file name has no extension.
#[verifier::external_body]
fn content_type(path: &str) -> (r: String)
    ensures
        r@ == mime_type_of(path@),
        forall|ext: Seq<char>| #[trigger] has_extension(path@, ext) && table_type(ascii_lowered(ext)) is Some
            ==> r@ == table_type(ascii_lowered(ext))->0,
        without_dot(path@) ==> r@ == "application/octet-stream"@,
{
    mime_guess::from_path(path).first_or_octet_stream().to_string()
}

/// How the server answers a request for a static file.
pub enum AssetReply {
    /// The asset under `path`, sent with its content type.
    Asset { path: String, content_type: String },
    /// The index page, sent as HTML, for a path that names no asset.
    Index { content_type: String },
    /// A 404 with its message, when not even the index page is there.
    NotFound { message: String },
}

/// How a request for the raw path `path` is answered, given whether the
/// asset it names exists and whether the index page exists: the asset with
/// the type guessed from its name; failing that the index page as
/// `text/html`; failing that a 404.
pub fn asset_reply(path: &str, asset_found: bool, index_found: bool) -> (r: AssetReply)
    ensures
        asset_found ==> (r matches AssetReply::Asset { path: p, content_type: c } && p@ == asset_name(path@)
            && c@ == mime_type_of(asset_name(path@))),
        asset_found ==> forall|ext: Seq<char>| #[trigger] has_extension(asset_name(path@), ext) && table_type(
            ascii_lowered(ext),
        ) is Some ==> (r matches AssetReply::Asset { content_type: c, .. } && c@ == table_type(
            ascii_lowered(ext),
        )->0),
        asset_found && without_dot(asset_name(path@)) ==> (r matches AssetReply::Asset { content_type: c, .. }
            && c@ == "application/octet-stream"@),
        !asset_found && index_found ==> (r matches AssetReply::Index { content_type: c } && c@
            == "text/html"@),
        !asset_found && !index_found ==> (r matches AssetReply::NotFound { message: m } && m@
            == "404 Not Found"@),
{
    if asset_found {
        let name = asset_path(path);
        let kind = content_type(name.as_str());
        AssetReply::Asset { path: name, content_type: kind }
    } else if index_found {
        AssetReply::Index { content_type: String::from_str("text/html") }
    } else {
        AssetReply::NotFound { message: String::from_str("404 Not Found") }
    }
}

// ----------------------------------------------------------------------------
// Replies
// ----------------------------------------------------------------------------

/// How the server answers an API call: the status code, the error text when
/// it is an error, and whether pages are told to reload.
pub struct Reply {
    pub status: u16,
    pub error: Option<String>,
    pub notify: bool,
}

/// The error text for an id that holds no item.
pub open spec fn not_found_text(id: u32) -> Seq<char> {
    "ID "@ + decimal(id as nat) + " tidak ditemukan"@
}

/// The error text for an id that holds no item.
pub fn not_found_message(id: u32) -> (r: String)
    ensures
        r@ == not_found_text(id),
{
    let digits = decimal_text(id);
    String::from_str("ID ").concat(digits.as_str()).concat(" tidak ditemukan")
}

/// The view of an error text that may be absent.
pub open spec fn error_view(e: Option<String>) -> Option<Seq<char>> {
    match e {
        Some(s) => Some(s@),
        None => None,
    }
}

/// The answer to a listing: 200, or 500 with the store's error.
pub fn list_reply(result: Result<(), String>) -> (r: Reply)
    ensures
        result is Ok ==> r.status == 200 && r.error is None,
        result matches Err(e) ==> r.status == 500 && error_view(r.error) == Some(e@),
        !r.notify,
{
    match result {
        Ok(()) => Reply { status: 200, error: None, notify: false },
        Err(e) => Reply { status: 500, error: Some(e), notify: false },
    }
}

/// The answer to a creation: 201 and a notice to reload, or 500 with the
/// store's error.
pub fn create_reply(result: Result<(), String>) -> (r: Reply)
    ensures
        result is Ok ==> r.status == 201 && r.error is None && r.notify,
        result matches Err(e) ==> r.status == 500 && error_view(r.error) == Some(e@) && !r.notify,
{
    match result {
        Ok(()) => Reply { status: 201, error: None, notify: true },
        Err(e) => Reply { status: 500, error: Some(e), notify: false },
    }
}

/// The answer to an update of `id`: 200 and a notice when the id held an
/// item, 404 naming the id when it held none, 500 with the store's error.
pub fn update_reply(id: u32, result: Result<bool, String>) -> (r: Reply)
    ensures
        result == Ok::<bool, String>(true) ==> r.status == 200 && r.error is None && r.notify,
        result == Ok::<bool, String>(false) ==> r.status == 404 && error_view(r.error) == Some(not_found_text(id))
            && !r.notify,
        result matches Err(e) ==> r.status == 500 && error_view(r.error) == Some(e@) && !r.notify,
{
    match result {
        Ok(true) => Reply { status: 200, error: None, notify: true },
        Ok(false) => Reply { status: 404, error: Some(not_found_message(id)), notify: false },
        Err(e) => Reply { status: 500, error: Some(e), notify: false },
    }
}

/// The answer to a deletion of `id`: 204 and a notice when the id held an
/// item, 404 naming the id when it held none, 500 with the store's error.
pub fn delete_reply(id: u32, result: Result<bool, String>) -> (r: Reply)
    ensures
        result == Ok::<bool, String>(true) ==> r.status == 204 && r.error is None && r.notify,
        result == Ok::<bool, String>(false) ==> r.status == 404 && error_view(r.error) == Some(not_found_text(id))
            && !r.notify,
        result matches Err(e) ==> r.status == 500 && error_view(r.error) == Some(e@) && !r.notify,
{
    match result {
        Ok(true) => Reply { status: 204, error: None, notify: true },
        Ok(false) => Reply { status: 404, error: Some(not_found_message(id)), notify: false },
        Err(e) => Reply { status: 500, error: Some(e), notify: false },
    }
}

} // verus!
