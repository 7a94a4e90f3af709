use vstd::prelude::*;

use crate::callback::same_text;
use oauth2::basic::BasicClient;
use oauth2::{AuthUrl, ClientId, CsrfToken, Scope};

verus! {

/// The registered application's credentials.
pub struct ClientCredentials {
    pub client_id: String,
    pub client_secret: String,
}

/// The provider's authorization and token endpoints.
pub struct ProviderEndpoints {
    pub authorize_url: String,
    pub token_url: String,
}

/// A configuration that no authorization can start from.
#[derive(Clone, Copy, Debug, PartialEq, Eq, Structural)]
pub enum ConfigError {
    MissingClientId,
    MissingClientSecret,
    MalformedAuthorizeUrl,
    MalformedTokenUrl,
}

/// The URL shown to the user, with the state it carries and the scopes it
/// asks for.
pub struct AuthorizationRequest {
    pub url: String,
    pub csrf_token: String,
    pub scopes: Vec<String>,
}

/// Whether `s` parses as an absolute URL.
pub uninterp spec fn url_parses(s: Seq<char>) -> bool;

/// The authorization URL for the given endpoint, client id, scopes and
/// state, as the OAuth2 client serialises it.
pub uninterp spec fn authorization_url_of(
    auth_url: Seq<char>,
    client_id: Seq<char>,
    scopes: Seq<Seq<char>>,
    state: Seq<char>,
) -> Seq<char>;

/// Relies on url::Url::parse (which oauth2's AuthUrl::new and TokenUrl::new
/// call): whether the text is a URL depends on the text alone.
#[verifier::external_body]
fn parses_as_url(s: &str) -> (r: bool)
    ensures
        r == url_parses(s@),
{
    oauth2::url::Url::parse(s).is_ok()
}

/// Relies on oauth2's Client::authorize_url with AuthorizationRequest::add_scopes
/// and AuthorizationRequest::url: the URL depends on the arguments alone.
#[verifier::external_body]
fn oauth2_authorize_url(auth_url: &str, client_id: &str, scopes: &Vec<String>, state: &str) -> (r:
    String)
    requires
        url_parses(auth_url@),
    ensures
        r@ == authorization_url_of(auth_url@, client_id@, scopes@.map_values(|s: String| s@), state@),
{
    let client = BasicClient::new(
        ClientId::new(client_id.to_string()),
        None,
        AuthUrl::new(auth_url.to_string()).unwrap(),
        None,
    );
    let (url, _) = client.authorize_url(|| CsrfToken::new(state.to_string())).add_scopes(
        scopes.iter().map(|s| Scope::new(s.clone())),
    ).url();
    url.to_string()
}

/// Relies on oauth2's CsrfToken::new_random: 16 random bytes in unpadded
/// URL-safe base64, so 22 characters.
#[verifier::external_body]
fn random_csrf_token() -> (r: String)
    ensures
        r@.len() == 22,
{
    CsrfToken::new_random().secret().clone()
}

/// The scopes in order of first request, each once.
pub open spec fn unique_scopes(s: Seq<Seq<char>>) -> Seq<Seq<char>>
    decreases s.len(),
{
    if s.len() == 0 {
        Seq::empty()
    } else {
        let p = unique_scopes(s.drop_last());
        if p.contains(s.last()) {
            p
        } else {
            p.push(s.last())
        }
    }
}

/// Requesting a list of scopes asks for each of them exactly once, whatever
/// their order and repetitions, and for nothing else.
pub proof fn lemma_each_scope_once(s: Seq<Seq<char>>)
    ensures
        unique_scopes(s).no_duplicates(),
        forall|x: Seq<char>| s.contains(x) <==> unique_scopes(s).contains(x),
    decreases s.len(),
{
    if s.len() > 0 {
        let p = s.drop_last();
        let l = s.last();
        let u = unique_scopes(p);
        lemma_each_scope_once(p);
        if !u.contains(l) {
            assert forall|a: int, b: int|
                0 <= a < b < u.push(l).len() implies u.push(l)[a] != u.push(l)[b] by {
                if b == u.len() {
                    assert(u.contains(u[a]));
                }
            }
        }
        assert forall|x: Seq<char>| s.contains(x) <==> unique_scopes(s).contains(x) by {
            if s.contains(x) {
                let i = choose|i: int| 0 <= i < s.len() && s[i] == x;
                if i < s.len() - 1 {
                    assert(p[i] == x);
                    assert(p.contains(x));
                    assert(u.contains(x));
                    let k = choose|k: int| 0 <= k < u.len() && u[k] == x;
                    if !u.contains(l) {
                        assert(u.push(l)[k] == x);
                    }
                } else if !u.contains(l) {
                    assert(u.push(l)[u.len() as int] == x);
                }
            }
            if unique_scopes(s).contains(x) {
                if x == l {
                    assert(s[s.len() - 1] == x);
                } else {
                    let k = choose|k: int|
                        0 <= k < unique_scopes(s).len() && unique_scopes(s)[k] == x;
                    assert(u[k] == x);
                    assert(u.contains(x));
                    assert(p.contains(x));
                    let j = choose|j: int| 0 <= j < p.len() && p[j] == x;
                    assert(s[j] == x);
                }
            }
        }
    }
}

fn contains_text(v: &Vec<String>, x: &String) -> (r: bool)
    ensures
        r == v@.map_values(|s: String| s@).contains(x@),
{
    let ghost m = v@.map_values(|s: String| s@);
    let mut i: usize = 0;
    while i < v.len()
        invariant
            i <= v.len(),
            m == v@.map_values(|s: String| s@),
            forall|j: int| 0 <= j < i ==> m[j] != x@,
        decreases v.len() - i,
    {
        if same_text(&v[i], x) {
            assert(m[i as int] == x@);
            return true;
        }
        i = i + 1;
    }
    false
}

/// Drops repeated scopes, keeping the first request of each.
pub fn dedup_scopes(scopes: &Vec<String>) -> (r: Vec<String>)
    ensures
        r@.map_values(|s: String| s@) == unique_scopes(scopes@.map_values(|s: String| s@)),
{
    let ghost s = scopes@.map_values(|s: String| s@);
    let mut out: Vec<String> = Vec::new();
    let mut i: usize = 0;
    while i < scopes.len()
        invariant
            i <= scopes.len(),
            s == scopes@.map_values(|s: String| s@),
            out@.map_values(|s: String| s@) == unique_scopes(s.subrange(0, i as int)),
        decreases scopes.len() - i,
    {
        let ghost before = out@.map_values(|s: String| s@);
        assert(s.subrange(0, i + 1).drop_last() =~= s.subrange(0, i as int));
        if !contains_text(&out, &scopes[i]) {
            out.push(scopes[i].clone());
            assert(out@.map_values(|s: String| s@) =~= before.push(scopes@[i as int]@));
        }
        i = i + 1;
    }
    assert(s.subrange(0, scopes.len() as int) =~= s);
    out
}

/// The configuration errors of `creds` and `endpoints`, first one first.
pub open spec fn config_check(
    client_id: Seq<char>,
    client_secret: Seq<char>,
    authorize_url: Seq<char>,
    token_url: Seq<char>,
) -> Result<(), ConfigError> {
    if client_id.len() == 0 {
        Err(ConfigError::MissingClientId)
    } else if client_secret.len() == 0 {
        Err(ConfigError::MissingClientSecret)
    } else if !url_parses(authorize_url) {
        Err(ConfigError::MalformedAuthorizeUrl)
    } else if !url_parses(token_url) {
        Err(ConfigError::MalformedTokenUrl)
    } else {
        Ok(())
    }
}

/// Checks the configuration before any network activity.
pub fn check_config(creds: &ClientCredentials, endpoints: &ProviderEndpoints) -> (r: Result<
    (),
    ConfigError,
>)
    ensures
        r == config_check(
            creds.client_id@,
            creds.client_secret@,
            endpoints.authorize_url@,
            endpoints.token_url@,
        ),
{
    if creds.client_id.as_str().unicode_len() == 0 {
        Err(ConfigError::MissingClientId)
    } else if creds.client_secret.as_str().unicode_len() == 0 {
        Err(ConfigError::MissingClientSecret)
    } else if !parses_as_url(endpoints.authorize_url.as_str()) {
        Err(ConfigError::MalformedAuthorizeUrl)
    } else if !parses_as_url(endpoints.token_url.as_str()) {
        Err(ConfigError::MalformedTokenUrl)
    } else {
        Ok(())
    }
}

/// Builds the authorization request that carries the state `state`.
pub fn authorization_request_with_state(
    creds: &ClientCredentials,
    endpoints: &ProviderEndpoints,
    scopes: &Vec<String>,
    state: String,
) -> (r: Result<AuthorizationRequest, ConfigError>)
    ensures
        match config_check(
            creds.client_id@,
            creds.client_secret@,
            endpoints.authorize_url@,
            endpoints.token_url@,
        ) {
            Err(e) => r == Err::<AuthorizationRequest, ConfigError>(e),
            Ok(_) => r matches Ok(req) && req.csrf_token@ == state@ && req.scopes@.map_values(
                |s: String| s@,
            ) == unique_scopes(scopes@.map_values(|s: String| s@)) && req.url@
                == authorization_url_of(
                endpoints.authorize_url@,
                creds.client_id@,
                unique_scopes(scopes@.map_values(|s: String| s@)),
                state@,
            ),
        },
{
    match check_config(creds, endpoints) {
        Err(e) => Err(e),
        Ok(()) => {
            let unique = dedup_scopes(scopes);
            let url = oauth2_authorize_url(
                endpoints.authorize_url.as_str(),
                creds.client_id.as_str(),
                &unique,
                state.as_str(),
            );
            Ok(AuthorizationRequest { url, csrf_token: state, scopes: unique })
        },
    }
}

/// Builds the authorization request with a freshly drawn random state.
pub fn build_authorization_url(
    creds: &ClientCredentials,
    endpoints: &ProviderEndpoints,
    scopes: &Vec<String>,
) -> (r: Result<AuthorizationRequest, ConfigError>)
    ensures
        match config_check(
            creds.client_id@,
            creds.client_secret@,
            endpoints.authorize_url@,
            endpoints.token_url@,
        ) {
            Err(e) => r == Err::<AuthorizationRequest, ConfigError>(e),
            Ok(_) => r matches Ok(req) && req.csrf_token@.len() == 22 && req.scopes@.map_values(
                |s: String| s@,
            ) == unique_scopes(scopes@.map_values(|s: String| s@)) && req.url@
                == authorization_url_of(
                endpoints.authorize_url@,
                creds.client_id@,
                unique_scopes(scopes@.map_values(|s: String| s@)),
                req.csrf_token@,
            ),
        },
{
    let state = random_csrf_token();
    authorization_request_with_state(creds, endpoints, scopes, state)
}

} // verus!
