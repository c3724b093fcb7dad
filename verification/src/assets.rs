use vstd::prelude::*;

use vstd::slice::slice_to_vec;
use vstd::utf8::encode_utf8;

verus! {

/// The content type that `mime_guess` guesses for a path: the first type it knows for the
/// path's extension, or `application/octet-stream` when it knows none.
pub uninterp spec fn spec_guessed_content_type(path: Seq<char>) -> Seq<char>;

/// Calls `mime_guess::from_path(path).first_or_octet_stream()` and gives the MIME type as text.
/// The guess is a table lookup on the extension, so it is named, not spelled out.
#[verifier::external_body]
fn guess_content_type(path: &str) -> (res: String)
    ensures
        res@ == spec_guessed_content_type(path@),
{
    let mime = mime_guess::from_path(path).first_or_octet_stream();
    let text: &str = mime.as_ref();
    text.to_string()
}

/// The file served for the site root.
pub open spec fn spec_index_file() -> Seq<char> {
    "index.html"@
}

/// The embedded file that a request path names: `index.html` for the root `"/"`, otherwise the
/// path without its leading character.
pub open spec fn spec_asset_path(request_path: Seq<char>) -> Seq<char> {
    if request_path == "/"@ {
        spec_index_file()
    } else {
        request_path.drop_first()
    }
}

/// The name of the embedded file that a request path asks for.
pub fn asset_path(request_path: &str) -> (res: String)
    requires
        request_path@.len() > 0,
        (request_path@[0] as int) < 128,
    ensures
        res@ == spec_asset_path(request_path@),
        request_path@ == "/"@ ==> res@ == "index.html"@,
        request_path@ != "/"@ ==> res@ == request_path@.drop_first(),
{
    proof {
        reveal_strlit("/");
        reveal_strlit("index.html");
    }
    let n = request_path.unicode_len();
    if n == 1 && request_path.get_char(0) == '/' {
        assert(request_path@ =~= "/"@);
        String::from_str("index.html")
    } else {
        assert(request_path@ != "/"@);
        let rest = request_path.substring_char(1, n);
        assert(rest@ =~= request_path@.drop_first());
        rest.to_owned()
    }
}

/// The body of the answer when no embedded file has the path.
pub open spec fn spec_not_found_body() -> Seq<u8> {
    encode_utf8("404 Not found"@)
}

/// An HTTP answer for an asset request.
pub struct AssetResponse {
    pub status: u16,
    pub content_type: Option<String>,
    pub body: Vec<u8>,
}

/// The answer when the embedded file was found: `200`, its content type, its bytes.
pub fn found_response(content_type: String, body: Vec<u8>) -> (res: AssetResponse)
    ensures
        res.status == 200,
        res.content_type == Some(content_type),
        res.body@ == body@,
{
    AssetResponse { status: 200, content_type: Some(content_type), body }
}

/// The answer when no embedded file has the path: `404`, no content type, the text
/// `404 Not found`.
pub fn not_found_response() -> (res: AssetResponse)
    ensures
        res.status == 404,
        res.content_type is None,
        res.body@ == spec_not_found_body(),
{
    let text = "404 Not found";
    AssetResponse { status: 404, content_type: None, body: slice_to_vec(text.as_bytes()) }
}

/// The answer to a request for the embedded file `path`, given what the lookup found: `200`
/// with the content type guessed from `path` and the file's bytes, or `404` with the text
/// `404 Not found` and no content type.
pub fn asset_response(path: &str, content: Option<Vec<u8>>) -> (res: AssetResponse)
    ensures
        match content {
            Some(bytes) => {
                &&& res.status == 200
                &&& res.content_type matches Some(ct) && ct@ == spec_guessed_content_type(path@)
                &&& res.body@ == bytes@
            },
            None => {
                &&& res.status == 404
                &&& res.content_type is None
                &&& res.body@ == spec_not_found_body()
            },
        },
{
    match content {
        Some(bytes) => found_response(guess_content_type(path), bytes),
        None => not_found_response(),
    }
}

} // verus!

verus! {

/// The answer, as status, content type and body, that `asset_response` gives for the embedded
/// file `path` when the lookup found `found`.
pub open spec fn spec_file_answer(path: Seq<char>, found: Option<Seq<u8>>) -> (
    u16,
    Option<Seq<char>>,
    Seq<u8>,
) {
    match found {
        Some(bytes) => (200, Some(spec_guessed_content_type(path)), bytes),
        None => (404, None, spec_not_found_body()),
    }
}

/// The answer to a request with path `request_path`, where `lookup` gives what the embedded
/// files hold under each name: `asset_path` picks the name, `asset_response` answers.
pub open spec fn spec_request_answer(
    request_path: Seq<char>,
    lookup: spec_fn(Seq<char>) -> Option<Seq<u8>>,
) -> (u16, Option<Seq<char>>, Seq<u8>) {
    spec_file_answer(spec_asset_path(request_path), lookup(spec_asset_path(request_path)))
}

/// The answer to an asset request depends on the request's path alone: two requests with the
/// same path, whatever else differs between them, get the same status, content type and
/// body from the same embedded files.
pub proof fn lemma_answer_depends_on_path_alone(
    first_path: Seq<char>,
    second_path: Seq<char>,
    lookup: spec_fn(Seq<char>) -> Option<Seq<u8>>,
)
    requires
        first_path == second_path,
    ensures
        spec_request_answer(first_path, lookup) == spec_request_answer(second_path, lookup),
{
}

/// `asset_response` gives the answer that `spec_file_answer` describes.
pub proof fn lemma_asset_response_answer(path: Seq<char>, found: Option<Seq<u8>>, res: AssetResponse)
    requires
        match found {
            Some(bytes) => {
                &&& res.status == 200
                &&& res.content_type matches Some(ct) && ct@ == spec_guessed_content_type(path)
                &&& res.body@ == bytes
            },
            None => {
                &&& res.status == 404
                &&& res.content_type is None
                &&& res.body@ == spec_not_found_body()
            },
        },
    ensures
        (res.status, match res.content_type {
            Some(ct) => Some(ct@),
            None => None,
        }, res.body@) == spec_file_answer(path, found),
{
}

/// The file name is the request path without its leading character, every other character
/// kept in place and unchanged; only the root `"/"` names `index.html`.
pub proof fn lemma_asset_path_keeps_characters(request_path: Seq<char>)
    requires
        request_path.len() > 0,
    ensures
        request_path == "/"@ ==> spec_asset_path(request_path) == "index.html"@,
        request_path != "/"@ ==> spec_asset_path(request_path).len() == request_path.len() - 1,
        request_path != "/"@ ==> forall|k: int|
            0 <= k < request_path.len() - 1 ==> #[trigger] spec_asset_path(request_path)[k]
                == request_path[k + 1],
{
}

/// The not-found body is the 13 ASCII bytes of `404 Not found`.
pub proof fn lemma_not_found_body_bytes()
    ensures
        spec_not_found_body() == seq![
            52u8,
            48u8,
            52u8,
            32u8,
            78u8,
            111u8,
            116u8,
            32u8,
            102u8,
            111u8,
            117u8,
            110u8,
            100u8,
        ],
{
    reveal_strlit("404 Not found");
    let t = "404 Not found"@;
    assert(vstd::utf8::is_ascii_chars(t));
    vstd::utf8::is_ascii_chars_encode_utf8(t);
    assert(spec_not_found_body() =~= seq![
        52u8,
        48u8,
        52u8,
        32u8,
        78u8,
        111u8,
        116u8,
        32u8,
        102u8,
        111u8,
        117u8,
        110u8,
        100u8,
    ]);
}

} // verus!
