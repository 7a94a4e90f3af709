use vstd::prelude::*;

verus! {

/// A bearer token for the resource API.
pub struct AccessToken {
    pub secret: String,
}

/// The name of the member that holds the secret in a cache record.
pub open spec fn token_key() -> Seq<char> {
    "access_token"@
}

/// The string value of member `key` of the JSON object in `text`, when
/// `text` is JSON, an object, and that member is a string.
pub uninterp spec fn string_member_of(text: Seq<char>, key: Seq<char>) -> Option<Seq<char>>;

/// The JSON string literal that serialises `s`.
pub uninterp spec fn json_quoted(s: Seq<char>) -> Seq<char>;

/// Relies on serde_json::from_str into serde_json::Value, then Value::get
/// and Value::as_str: the member read depends on the text and key alone.
#[verifier::external_body]
fn read_string_member(text: &str, key: &str) -> (r: Option<String>)
    ensures
        match string_member_of(text@, key@) {
            Some(t) => r matches Some(x) && x@ == t,
            None => r is None,
        },
{
    let value: serde_json::Value = serde_json::from_str(text).ok()?;
    value.get(key)?.as_str().map(|t| t.to_string())
}

/// Relies on serde_json::to_string on a str: a quoted, escaped JSON string
/// that depends on the text alone. Serialising a str into memory cannot
/// fail, so the `unwrap` never panics.
#[verifier::external_body]
fn json_string(s: &str) -> (r: String)
    ensures
        r@ == json_quoted(s@),
{
    serde_json::to_string(s).unwrap()
}

/// The secret a cache read yields: none for a missing file or for a
/// record without a string `access_token` member (such a record is treated
/// as absent); otherwise that member, whatever it holds.
pub open spec fn cached_secret(content: Option<Seq<char>>) -> Option<Seq<char>> {
    match content {
        None => None,
        Some(text) => string_member_of(text, token_key()),
    }
}

/// Turns the `access_token` member read from a cache record into a token.
pub fn token_from_member(member: Option<String>) -> (r: Option<AccessToken>)
    ensures
        match member {
            Some(t) => r matches Some(tok) && tok.secret@ == t@,
            None => r is None,
        },
{
    match member {
        Some(t) => Some(AccessToken { secret: t }),
        None => None,
    }
}

/// Reads a token from the cache file's content, `None` when there is no
/// file. A record that does not parse is treated as absent.
pub fn load_cached_token(content: Option<String>) -> (r: Option<AccessToken>)
    ensures
        match cached_secret(
            match content {
                Some(t) => Some(t@),
                None => None,
            },
        ) {
            Some(s) => r matches Some(tok) && tok.secret@ == s,
            None => r is None,
        },
{
    match content {
        None => None,
        Some(text) => token_from_member(read_string_member(text.as_str(), "access_token")),
    }
}

/// A missing cache file and a record that yields nothing both leave the
/// flow without a token, exactly as if no cache were configured.
pub proof fn lemma_missing_cache_is_no_cache(text: Seq<char>)
    requires
        string_member_of(text, token_key()) is None,
    ensures
        cached_secret(None) is None,
        cached_secret(Some(text)) == cached_secret(None),
{
}

/// The cache record whose `access_token` member is the JSON string
/// literal `quoted`.
pub open spec fn record_text(quoted: Seq<char>) -> Seq<char> {
    "{\"access_token\":"@ + quoted + "}"@
}

/// Serialises `token` as the cache record `{"access_token": ...}`.
pub fn cache_record(token: &AccessToken) -> (r: String)
    ensures
        r@ == record_text(json_quoted(token.secret@)),
{
    let q = json_string(token.secret.as_str());
    let mut out = String::from_str("{\"access_token\":");
    out.append(q.as_str());
    out.append("}");
    out
}

} // verus!
