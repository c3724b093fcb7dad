use vstd::prelude::*;

use crate::text::{decimal_string, lemma_decimal_value, spec_decimal, spec_digits_value};

verus! {

/// Whether two strings hold the same characters.
pub fn str_equal(a: &str, b: &str) -> (res: bool)
    ensures
        res == (a@ == b@),
{
    let n = a.unicode_len();
    if n != b.unicode_len() {
        return false;
    }
    let mut i: usize = 0;
    while i < n
        invariant
            n == a@.len(),
            n == b@.len(),
            i <= n,
            forall|k: int| 0 <= k < i ==> a@[k] == b@[k],
        decreases n - i,
    {
        if a.get_char(i) != b.get_char(i) {
            return false;
        }
        i = i + 1;
    }
    assert(a@ =~= b@);
    true
}

/// What the page asks of the program through its script message handler.
#[derive(Debug, Clone, Copy, PartialEq, Eq, Structural)]
pub enum ScriptAction {
    /// Make a key pair, store it, and hand the public key to the page.
    GenerateKey,
    /// A message the program does not act on.
    Ignore,
}

/// The action for a script message: `genkey` asks for a key pair, anything else is ignored.
pub fn script_action(message: &str) -> (res: ScriptAction)
    ensures
        res == (if message@ == "genkey"@ {
            ScriptAction::GenerateKey
        } else {
            ScriptAction::Ignore
        }),
{
    if str_equal(message, "genkey") {
        ScriptAction::GenerateKey
    } else {
        ScriptAction::Ignore
    }
}

/// The script that stores the public key in the page's local storage under `pubkey`.
pub open spec fn spec_pubkey_storage_script(pubkey: Seq<char>) -> Seq<char> {
    "window.localStorage.setItem('pubkey', `"@ + pubkey + "`);"@
}

/// The script that stores `pubkey` in the page's local storage under the key `pubkey`.
pub fn pubkey_storage_script(pubkey: &str) -> (res: String)
    ensures
        res@ == spec_pubkey_storage_script(pubkey@),
        res@ == "window.localStorage.setItem('pubkey', `"@ + pubkey@ + "`);"@,
{
    let mut res = String::from_str("window.localStorage.setItem('pubkey', `");
    res.append(pubkey);
    res.append("`);");
    res
}

/// The address on which the program serves its pages.
pub open spec fn spec_server_uri(port: u16) -> Seq<char> {
    "http://127.3.6.9:"@ + spec_decimal(port as nat)
}

/// The URI of the local page server listening on `port`.
pub fn server_uri(port: u16) -> (res: String)
    ensures
        res@ == spec_server_uri(port),
        res@ == "http://127.3.6.9:"@ + spec_decimal(port as nat),
{
    let mut res = String::from_str("http://127.3.6.9:");
    let number = decimal_string(port as u64);
    res.append(number.as_str());
    res
}

/// A request the page posts: its number; its payload is not read.
pub struct Request {
    pub id: usize,
}

/// The answer to a request: the request's number and a string payload.
pub struct Response {
    pub id: usize,
    pub data: String,
}

/// The answer to a request: same number, payload `pong`.
pub fn respond(request: &Request) -> (res: Response)
    ensures
        res.id == request.id,
        res.data@ == "pong"@,
{
    Response { id: request.id, data: String::from_str("pong") }
}

/// The script that hands a serialized response back to the page.
pub open spec fn spec_response_script(response_json: Seq<char>) -> Seq<char> {
    "window._myPostMessageResponse("@ + response_json + ");"@
}

/// The script that resolves the page's pending request with `response_json`.
pub fn response_script(response_json: &str) -> (res: String)
    ensures
        res@ == spec_response_script(response_json@),
        res@ == "window._myPostMessageResponse("@ + response_json@ + ");"@,
{
    let mut res = String::from_str("window._myPostMessageResponse(");
    res.append(response_json);
    res.append(");");
    res
}

/// The storage script holds the whole key, unchanged, between the 39-character call prefix
/// and the 3-character closing: nothing of the key is cut, added or altered.
pub proof fn lemma_storage_script_holds_key(pubkey: Seq<char>)
    ensures
        spec_pubkey_storage_script(pubkey).len() == pubkey.len() + 42,
        spec_pubkey_storage_script(pubkey).subrange(39, 39 + pubkey.len() as int) == pubkey,
        spec_pubkey_storage_script(pubkey).subrange(0, 39) == "window.localStorage.setItem('pubkey', `"@,
{
    reveal_strlit("window.localStorage.setItem('pubkey', `");
    reveal_strlit("`);");
    let s = spec_pubkey_storage_script(pubkey);
    assert(s.subrange(39, 39 + pubkey.len() as int) =~= pubkey);
    assert(s.subrange(0, 39) =~= "window.localStorage.setItem('pubkey', `"@);
}

/// The response script passes the whole JSON, unchanged, to `_myPostMessageResponse`:
/// it sits between the 30-character call prefix and the 2-character closing.
pub proof fn lemma_response_script_holds_json(response_json: Seq<char>)
    ensures
        spec_response_script(response_json).len() == response_json.len() + 32,
        spec_response_script(response_json).subrange(30, 30 + response_json.len() as int)
            == response_json,
        spec_response_script(response_json).subrange(0, 30) == "window._myPostMessageResponse("@,
{
    reveal_strlit("window._myPostMessageResponse(");
    reveal_strlit(");");
    let s = spec_response_script(response_json);
    assert(s.subrange(30, 30 + response_json.len() as int) =~= response_json);
    assert(s.subrange(0, 30) =~= "window._myPostMessageResponse("@);
}

/// The server address names the port in decimal after the fixed host: the text after the
/// 17-character prefix is the port's digits, which read back as the port.
pub proof fn lemma_server_uri_names_port(port: u16)
    ensures
        spec_server_uri(port).subrange(0, 17) == "http://127.3.6.9:"@,
        spec_digits_value(spec_server_uri(port).skip(17)) == port,
{
    reveal_strlit("http://127.3.6.9:");
    let s = spec_server_uri(port);
    assert(s.subrange(0, 17) =~= "http://127.3.6.9:"@);
    assert(s.skip(17) =~= spec_decimal(port as nat));
    lemma_decimal_value(port as nat);
}

} // verus!
