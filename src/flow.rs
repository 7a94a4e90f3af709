use vstd::prelude::*;

use crate::cache::AccessToken;

verus! {

/// How the authorization code reaches the flow.
#[derive(Clone, Copy, Debug, PartialEq, Eq, Structural)]
pub enum CodeSource {
    LocalListener,
    ManualPaste,
}

/// Whether a token obtained interactively is kept for later runs.
#[derive(Clone, Copy, Debug, PartialEq, Eq, Structural)]
pub enum TokenMode {
    Ephemeral,
    Cached,
}

pub struct FlowConfig {
    pub code_source: CodeSource,
    pub token_mode: TokenMode,
}

/// Why the token endpoint gave no token.
pub enum TokenExchangeError {
    /// The provider answered with an OAuth2 error payload.
    Provider { error: String, description: Option<String> },
    /// The request did not complete.
    Transport { detail: String },
    /// The provider's answer could not be read.
    MalformedResponse { detail: String },
}

pub open spec fn exchange_message(e: &TokenExchangeError) -> Seq<char> {
    match e {
        TokenExchangeError::Provider { error, description } => match description {
            Some(d) => "token endpoint refused the code: "@ + error@ + ": "@ + d@,
            None => "token endpoint refused the code: "@ + error@,
        },
        TokenExchangeError::Transport { detail } => "token request failed: "@ + detail@,
        TokenExchangeError::MalformedResponse { detail } => "unreadable token response: "@
            + detail@,
    }
}

impl TokenExchangeError {
    /// A human-readable account of the failure, with the provider's payload.
    pub fn message(&self) -> (r: String)
        ensures
            r@ == exchange_message(self),
    {
        match self {
            TokenExchangeError::Provider { error, description } => {
                let mut m = String::from_str("token endpoint refused the code: ");
                m.append(error.as_str());
                match description {
                    Some(d) => {
                        m.append(": ");
                        m.append(d.as_str());
                    },
                    None => {},
                }
                m
            },
            TokenExchangeError::Transport { detail } => {
                let mut m = String::from_str("token request failed: ");
                m.append(detail.as_str());
                m
            },
            TokenExchangeError::MalformedResponse { detail } => {
                let mut m = String::from_str("unreadable token response: ");
                m.append(detail.as_str());
                m
            },
        }
    }
}

/// Why a run ends without a token.
pub enum FlowError {
    /// The wait for a code ended with none.
    NoCode,
    TokenExchange(TokenExchangeError),
    /// An event that the current phase does not expect.
    UnexpectedEvent,
}

/// Where one run of the flow stands.
#[derive(Clone, Copy, Debug, PartialEq, Eq, Structural)]
pub enum Phase {
    Start,
    AwaitingCode,
    Exchanging,
    Done,
}

/// What the surroundings report to the flow.
pub enum Event {
    /// The token cache was consulted.
    CacheLoaded(Option<AccessToken>),
    /// An authorization code arrived, through the listener or a paste.
    CodeDelivered(String),
    /// The wait for a code ended without one.
    CodeUnavailable,
    TokenIssued(AccessToken),
    ExchangeFailed(TokenExchangeError),
}

/// What the surroundings are to do next.
pub enum Action {
    /// Start the callback listener, then show the authorization URL.
    ListenThenShowUrl,
    /// Show the authorization URL and read the code from the console.
    ShowUrlThenPrompt,
    /// Exchange this code for a token.
    Exchange(String),
    /// Use the token; store it in the cache first if `store`.
    UseToken { token: AccessToken, store: bool },
    Fail(FlowError),
}

/// One decision of the flow: from phase `phase` and event `event`, the next
/// phase and the action to perform.
pub fn step(config: &FlowConfig, phase: Phase, event: Event) -> (r: (Phase, Action))
    ensures
        match (phase, event) {
            (Phase::Start, Event::CacheLoaded(Some(t))) => r.0 == Phase::Done && (
            r.1 matches Action::UseToken { token, store } && token.secret@ == t.secret@ && !store),
            (Phase::Start, Event::CacheLoaded(None)) => r.0 == Phase::AwaitingCode && (
            config.code_source == CodeSource::LocalListener ==> r.1 is ListenThenShowUrl) && (
            config.code_source == CodeSource::ManualPaste ==> r.1 is ShowUrlThenPrompt),
            (Phase::AwaitingCode, Event::CodeDelivered(c)) => r.0 == Phase::Exchanging && (
            r.1 matches Action::Exchange(x) && x@ == c@),
            (Phase::AwaitingCode, Event::CodeUnavailable) => r.0 == Phase::Done && (
            r.1 matches Action::Fail(FlowError::NoCode)),
            (Phase::Exchanging, Event::TokenIssued(t)) => r.0 == Phase::Done && (
            r.1 matches Action::UseToken { token, store } && token.secret@ == t.secret@ && store
                == (config.token_mode == TokenMode::Cached)),
            (Phase::Exchanging, Event::ExchangeFailed(e)) => r.0 == Phase::Done && (
            r.1 matches Action::Fail(FlowError::TokenExchange(x)) && exchange_message(&x)
                == exchange_message(&e)),
            _ => r.0 == Phase::Done && (r.1 matches Action::Fail(FlowError::UnexpectedEvent)),
        },
{
    match (phase, event) {
        (Phase::Start, Event::CacheLoaded(Some(t))) => (
            Phase::Done,
            Action::UseToken { token: t, store: false },
        ),
        (Phase::Start, Event::CacheLoaded(None)) => {
            match config.code_source {
                CodeSource::LocalListener => (Phase::AwaitingCode, Action::ListenThenShowUrl),
                CodeSource::ManualPaste => (Phase::AwaitingCode, Action::ShowUrlThenPrompt),
            }
        },
        (Phase::AwaitingCode, Event::CodeDelivered(c)) => (Phase::Exchanging, Action::Exchange(c)),
        (Phase::AwaitingCode, Event::CodeUnavailable) => (
            Phase::Done,
            Action::Fail(FlowError::NoCode),
        ),
        (Phase::Exchanging, Event::TokenIssued(t)) => {
            let store = match config.token_mode {
                TokenMode::Cached => true,
                TokenMode::Ephemeral => false,
            };
            (Phase::Done, Action::UseToken { token: t, store })
        },
        (Phase::Exchanging, Event::ExchangeFailed(e)) => (
            Phase::Done,
            Action::Fail(FlowError::TokenExchange(e)),
        ),
        _ => (Phase::Done, Action::Fail(FlowError::UnexpectedEvent)),
    }
}

pub open spec fn is_blank(c: char) -> bool {
    c == ' ' || c == '\t' || c == '\r' || c == '\n'
}

/// `s` without the blanks at either end.
pub open spec fn trimmed(s: Seq<char>) -> Seq<char>
    decreases s.len(),
{
    if s.len() == 0 {
        s
    } else if is_blank(s[0]) {
        trimmed(s.drop_first())
    } else if is_blank(s.last()) {
        trimmed(s.drop_last())
    } else {
        s
    }
}

/// The authorization code in a line pasted on the console: the line
/// without surrounding blanks, or `None` when nothing else is left.
pub fn pasted_code(line: &str) -> (r: Option<String>)
    ensures
        trimmed(line@).len() == 0 ==> r is None,
        trimmed(line@).len() > 0 ==> (r matches Some(c) && c@ == trimmed(line@)),
{
    let n = line.unicode_len();
    let mut i: usize = 0;
    assert(line@.subrange(0, n as int) =~= line@);
    while i < n && is_blank_char(line.get_char(i))
        invariant
            n == line@.len(),
            i <= n,
            trimmed(line@) == trimmed(line@.subrange(i as int, n as int)),
        decreases n - i,
    {
        assert(line@.subrange(i as int, n as int).drop_first() =~= line@.subrange(
            i + 1,
            n as int,
        ));
        i = i + 1;
    }
    let mut j: usize = n;
    while j > i && is_blank_char(line.get_char(j - 1))
        invariant
            n == line@.len(),
            i <= j <= n,
            i < j ==> !is_blank(line@[i as int]),
            trimmed(line@) == trimmed(line@.subrange(i as int, j as int)),
        decreases j - i,
    {
        let ghost t = line@.subrange(i as int, j as int);
        assert(t[0] == line@[i as int]);
        assert(t.drop_last() =~= line@.subrange(i as int, j - 1));
        j = j - 1;
    }
    if i == j {
        assert(line@.subrange(i as int, j as int).len() == 0);
        return None;
    }
    let ghost t = line@.subrange(i as int, j as int);
    assert(t[0] == line@[i as int]);
    assert(t.last() == line@[j - 1]);
    Some(String::from_str(line.substring_char(i, j)))
}

fn is_blank_char(c: char) -> (r: bool)
    ensures
        r == is_blank(c),
{
    c == ' ' || c == '\t' || c == '\r' || c == '\n'
}

/// The value of the `Authorization` header that carries `token`.
pub fn bearer_value(token: &AccessToken) -> (r: String)
    ensures
        r@ == "Bearer "@ + token.secret@,
{
    let mut v = String::from_str("Bearer ");
    v.append(token.secret.as_str());
    v
}

} // verus!
