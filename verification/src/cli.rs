//! The command line's decisions: which mode runs, which session a startup
//! answer picks, what the provider listing shows, how an API key answer is
//! checked, where the OAuth callback is awaited and what the callback
//! answers. Reading the terminal and serving HTTP are the caller's part.

use vstd::prelude::*;

use crate::auth::{pair_views, KnownProvider};
use crate::hashline::{lowercase, unicode_lowercase};
use crate::model_spec::{opt_text, ModelSpec};
use crate::models::Session;
use crate::oauth::{last_value, last_value_of};
use crate::session_dialog::{label_of, session_label};
use crate::order::{sort_by_key_stable, stable_perm};
use crate::skill::chars_le;
use crate::text::{decimal, parse_usize, parse_usize_spec, push_char, push_str, push_usize, to_chars, trim, trim_str};

verus! {

// ---------------------------------------------------------------------------
// Modes
// ---------------------------------------------------------------------------

/// A subcommand.
#[derive(Debug, Clone)]
pub enum CliCommand {
    /// Start the terminal UI (the default), optionally from a directory.
    Tui { cwd: Option<String> },
    /// Start the desktop GUI.
    Gui,
    /// List known providers and their models.
    Providers,
}

/// The parsed command line.
#[derive(Debug, Clone)]
pub struct Cli {
    pub command: Option<CliCommand>,
    /// Backward-compatible alias for the `providers` subcommand.
    pub providers: bool,
}

/// What the program runs.
#[derive(Debug, Clone, Copy, PartialEq, Eq, Structural)]
pub enum Mode {
    Tui,
    Gui,
    Providers,
}

impl Cli {
    /// The mode: the `--providers` flag lists providers; else the
    /// subcommand decides, the terminal UI by default.
    pub fn mode(&self) -> (m: Mode)
        ensures
            m == (if self.providers {
                Mode::Providers
            } else {
                match self.command {
                    Some(CliCommand::Gui) => Mode::Gui,
                    Some(CliCommand::Providers) => Mode::Providers,
                    _ => Mode::Tui,
                }
            }),
    {
        if self.providers {
            return Mode::Providers;
        }
        match &self.command {
            Some(CliCommand::Gui) => Mode::Gui,
            Some(CliCommand::Providers) => Mode::Providers,
            _ => Mode::Tui,
        }
    }

    /// The directory the terminal UI is asked to run from.
    pub fn tui_cwd(&self) -> (r: Option<&String>)
        ensures
            match self.command {
                Some(CliCommand::Tui { cwd: Some(d) }) => r matches Some(x) && x@ == d@,
                _ => r is None,
            },
    {
        match &self.command {
            Some(CliCommand::Tui { cwd }) => match cwd {
                Some(d) => Some(d),
                None => None,
            },
            _ => None,
        }
    }
}

// ---------------------------------------------------------------------------
// Choosing a session at startup
// ---------------------------------------------------------------------------

/// What an answer to the startup question asks for.
#[derive(Debug, Clone, Copy, PartialEq, Eq, Structural)]
pub enum StartupSelection {
    /// Create a new session.
    New,
    /// Leave (offered in GUI mode only).
    Quit,
    /// Continue the listed session at this index.
    Pick(usize),
    /// Not an answer: ask again.
    Invalid,
}

/// What an answer means, with `count` sessions listed: `n` a new session,
/// `q` leaving (GUI mode only), a number from 1 to `count` that session;
/// the answer is trimmed and lowercased first.
pub open spec fn selection_of(input: Seq<char>, count: nat, gui: bool) -> StartupSelection {
    let normalized = unicode_lowercase(trim(input));
    if normalized == "n"@ {
        StartupSelection::New
    } else if gui && normalized == "q"@ {
        StartupSelection::Quit
    } else {
        match parse_usize_spec(normalized) {
            Some(n) => if 1 <= n <= count {
                StartupSelection::Pick((n - 1) as usize)
            } else {
                StartupSelection::Invalid
            },
            None => StartupSelection::Invalid,
        }
    }
}

/// Reads one answer to the startup question.
pub fn read_selection(input: &str, count: usize, gui: bool) -> (r: StartupSelection)
    ensures
        r == selection_of(input@, count as nat, gui),
{
    let trimmed = trim_str(input);
    let normalized = lowercase(trimmed.as_str());
    let n_text = "n".to_owned();
    let q_text = "q".to_owned();
    proof {
        reveal_strlit("n");
        reveal_strlit("q");
    }
    if normalized == n_text {
        return StartupSelection::New;
    }
    if gui && normalized == q_text {
        return StartupSelection::Quit;
    }
    let cs = to_chars(normalized.as_str());
    assert(cs@.subrange(0, cs.len() as int) == cs@);
    match parse_usize(&cs, 0, cs.len()) {
        Some(n) => {
            if 1 <= n && n <= count {
                StartupSelection::Pick(n - 1)
            } else {
                StartupSelection::Invalid
            }
        },
        None => StartupSelection::Invalid,
    }
}

/// `  k. label` for the session listed `k`-th (from 1).
pub open spec fn listed_line(k: nat, s: Session) -> Seq<char> {
    "  "@ + decimal(k) + ". "@ + label_of(s)
}

/// The startup question: how many sessions exist, each of them numbered
/// from 1, the new-session choice, and in GUI mode the quit choice.
pub open spec fn startup_lines(sessions: Seq<Session>, gui: bool) -> Seq<Seq<char>> {
    let head = seq![
        "Found "@ + decimal(sessions.len()) + " existing session(s). Select one to continue or create a new session:"@,
    ];
    let listed = Seq::new(sessions.len(), |i: int| listed_line((i + 1) as nat, sessions[i]));
    let tail = if gui {
        seq!["  n. Create new session"@, "  q. Quit"@]
    } else {
        seq!["  n. Create new session"@]
    };
    head + listed + tail
}

/// The lines of the startup question.
pub fn startup_prompt_lines(sessions: &Vec<Session>, gui: bool) -> (r: Vec<String>)
    ensures
        r@.map_values(|l: String| l@) == startup_lines(sessions@, gui),
{
    let mut out: Vec<String> = Vec::new();
    let mut head = String::new();
    push_str(&mut head, "Found ");
    push_usize(&mut head, sessions.len());
    push_str(&mut head, " existing session(s). Select one to continue or create a new session:");
    out.push(head);
    for i in 0..sessions.len()
        invariant
            out.len() == i + 1,
            out@[0]@ == "Found "@ + decimal(sessions.len() as nat)
                + " existing session(s). Select one to continue or create a new session:"@,
            forall|j: int| 0 <= j < i ==> (#[trigger] out@[j + 1])@ == listed_line((j + 1) as nat, sessions@[j]),
    {
        let mut line = String::new();
        push_str(&mut line, "  ");
        push_usize(&mut line, i + 1);
        push_str(&mut line, ". ");
        let label = session_label(&sessions[i]);
        push_str(&mut line, label.as_str());
        out.push(line);
    }
    out.push("  n. Create new session".to_owned());
    if gui {
        out.push("  q. Quit".to_owned());
    }
    let ghost want = startup_lines(sessions@, gui);
    assert(out@.map_values(|l: String| l@) =~= want) by {
        assert forall|j: int| 0 <= j < sessions.len() implies (#[trigger] out@[j + 1])@ == want[j + 1] by {
            assert(out@[j + 1]@ == listed_line((j + 1) as nat, sessions@[j]));
        }
    }
    out
}

// ---------------------------------------------------------------------------
// The provider listing
// ---------------------------------------------------------------------------

/// `id (name) [method | configured | compatible]`, or `no-factory` in
/// place of `compatible` for a provider no factory serves.
pub open spec fn provider_header(p: KnownProvider) -> Seq<char> {
    p.id@ + " ("@ + p.name@ + ") ["@ + p.auth_method@ + " | configured | "@ + (if p.compatible {
        "compatible"@
    } else {
        "no-factory"@
    }) + "]"@
}

/// A text padded with spaces to at least `width` characters.
pub open spec fn padded(s: Seq<char>, width: nat) -> Seq<char> {
    if s.len() >= width {
        s
    } else {
        s + Seq::new((width - s.len()) as nat, |i: int| ' ')
    }
}

/// `  id` padded to 30 characters, a space, and the model's name (empty if
/// it has none).
pub open spec fn model_line(m: ModelSpec) -> Seq<char> {
    "  "@ + padded(m.id@, 30) + " "@ + match opt_text(m.name) {
        Some(n) => n,
        None => Seq::empty(),
    }
}

fn push_padded(out: &mut String, s: &str, width: usize)
    ensures
        final(out)@ == old(out)@ + padded(s@, width as nat),
{
    let cs = to_chars(s);
    push_str(out, s);
    if cs.len() < width {
        let ghost start = out@;
        let mut k: usize = cs.len();
        while k < width
            invariant
                cs.len() <= k <= width,
                out@ == start + Seq::new((k - cs.len()) as nat, |i: int| ' '),
            decreases width - k,
        {
            push_char(out, ' ');
            assert(out@ =~= start + Seq::new((k + 1 - cs.len()) as nat, |i: int| ' '));
            k = k + 1;
        }
    }
}

/// The listing line of a provider.
pub fn provider_header_line(p: &KnownProvider) -> (l: String)
    ensures
        l@ == provider_header(*p),
{
    let mut l = String::new();
    push_str(&mut l, p.id.as_str());
    push_str(&mut l, " (");
    push_str(&mut l, p.name.as_str());
    push_str(&mut l, ") [");
    push_str(&mut l, p.auth_method.as_str());
    push_str(&mut l, " | configured | ");
    if p.compatible {
        push_str(&mut l, "compatible");
    } else {
        push_str(&mut l, "no-factory");
    }
    push_str(&mut l, "]");
    l
}

/// The listing line of a model.
pub fn model_listing_line(m: &ModelSpec) -> (l: String)
    ensures
        l@ == model_line(*m),
{
    let mut l = String::new();
    push_str(&mut l, "  ");
    push_padded(&mut l, m.id.as_str(), 30);
    push_str(&mut l, " ");
    match &m.name {
        Some(n) => push_str(&mut l, n.as_str()),
        None => {},
    }
    assert(l@ =~= model_line(*m));
    l
}

/// The identifier of a model entry, as a function.
pub open spec fn model_id_fn() -> spec_fn(ModelSpec) -> Seq<char> {
    |m: ModelSpec| m.id@
}

/// Model entries in order of identifier.
pub open spec fn sorted_by_id(v: Seq<ModelSpec>) -> bool {
    forall|i: int, j: int| 0 <= i < j < v.len() ==> chars_le((#[trigger] v[i]).id@, (#[trigger] v[j]).id@)
}

/// Sorts model entries by identifier (repeatedly taking the first entry of
/// least identifier, so entries of equal identifiers keep their order).
pub fn sort_models_by_id(models: Vec<ModelSpec>) -> (r: Vec<ModelSpec>)
    ensures
        r@.to_multiset() == models@.to_multiset(),
        sorted_by_id(r@),
        exists|pos: Seq<int>| #[trigger] stable_perm(models@, r@, model_id_fn(), pos),
{
    let mut keys: Vec<Vec<char>> = Vec::new();
    for i in 0..models.len()
        invariant
            keys.len() == i,
            forall|k: int| 0 <= k < i ==> (#[trigger] keys@[k])@ == models@[k].id@,
    {
        keys.push(to_chars(models[i].id.as_str()));
    }
    let ghost key = model_id_fn();
    let r = sort_by_key_stable(models, keys, Ghost(key));
    assert(sorted_by_id(r@)) by {
        assert forall|i: int, j: int| 0 <= i < j < r@.len() implies chars_le((#[trigger] r@[i]).id@, (#[trigger] r@[j]).id@) by {
            assert(chars_le(key(r@[i]), key(r@[j])));
        }
    }
    r
}

/// The listing of one provider: its line, then a line for each of its
/// models in order of identifier.
pub fn provider_listing(p: &KnownProvider, models: Vec<ModelSpec>) -> (r: Vec<String>)
    ensures
        r.len() == models.len() + 1,
        r@[0]@ == provider_header(*p),
        exists|s: Seq<ModelSpec>, pos: Seq<int>|
            #[trigger] stable_perm(models@, s, model_id_fn(), pos) && sorted_by_id(s) && forall|i: int|
                0 <= i < s.len() ==> (#[trigger] r@[i + 1])@ == model_line(s[i]),
{
    let ghost original = models@;
    let sorted = sort_models_by_id(models);
    let ghost pos = choose|pos: Seq<int>| #[trigger] stable_perm(original, sorted@, model_id_fn(), pos);
    let mut r: Vec<String> = Vec::new();
    r.push(provider_header_line(p));
    for i in 0..sorted.len()
        invariant
            r.len() == i + 1,
            r@[0]@ == provider_header(*p),
            forall|k: int| 0 <= k < i ==> (#[trigger] r@[k + 1])@ == model_line(sorted@[k]),
    {
        r.push(model_listing_line(&sorted[i]));
    }
    assert(stable_perm(original, sorted@, model_id_fn(), pos));
    r
}

// ---------------------------------------------------------------------------
// Credentials at startup
// ---------------------------------------------------------------------------

/// The question asked for an API key.
pub fn api_key_prompt(provider_name: &str) -> (p: String)
    ensures
        p@ == "Enter API key for "@ + provider_name@ + ": "@,
{
    let mut p = String::new();
    push_str(&mut p, "Enter API key for ");
    push_str(&mut p, provider_name);
    push_str(&mut p, ": ");
    p
}

/// An API key answer must hold more than whitespace.
pub fn check_api_key_input(provider_name: &str, value: &str) -> (r: Result<(), String>)
    ensures
        trim(value@).len() > 0 ==> r is Ok,
        trim(value@).len() == 0 ==> (r matches Err(m) && m@ == "no API key provided for "@ + provider_name@),
{
    let t = trim_str(value);
    if t.as_str().is_empty() {
        let mut m = String::new();
        push_str(&mut m, "no API key provided for ");
        push_str(&mut m, provider_name);
        Err(m)
    } else {
        Ok(())
    }
}

// ---------------------------------------------------------------------------
// The OAuth callback
// ---------------------------------------------------------------------------

/// The parts of a URL the callback listener needs: scheme, host, port
/// (given, else the scheme's default) and path.
pub struct UrlParts {
    pub scheme: String,
    pub host: Option<String>,
    pub port: Option<u16>,
    pub path: String,
}

/// What `url::Url::parse` followed by `scheme`, `host_str`,
/// `port_or_known_default` and `path` gives for a text (`None`: it does not
/// parse).
pub uninterp spec fn url_parts(s: Seq<char>) -> Option<(Seq<char>, Option<Seq<char>>, Option<u16>, Seq<char>)>;

/// Calls `url::Url::parse`, then `scheme`, `host_str`,
/// `port_or_known_default` and `path`; their results are named by
/// `url_parts`. A text that does not parse gives the parser's message.
#[verifier::external_body]
fn parse_url_parts(s: &str) -> (r: Result<UrlParts, String>)
    ensures
        match url_parts(s@) {
            Some((scheme, host, port, path)) => r matches Ok(p) && p.scheme@ == scheme && opt_text(p.host) == host
                && p.port == port && p.path@ == path,
            None => r is Err,
        },
{
    match url::Url::parse(s) {
        Ok(u) => Ok(UrlParts {
            scheme: u.scheme().to_string(),
            host: u.host_str().map(|h| h.to_string()),
            port: u.port_or_known_default(),
            path: u.path().to_string(),
        }),
        Err(e) => Err(e.to_string()),
    }
}

/// Where to await the OAuth callback.
#[derive(Debug, Clone)]
pub struct CallbackListener {
    pub bind_host: String,
    pub port: u16,
    /// The path the callback must arrive on.
    pub path: String,
}

/// Where the callback of a redirect URL can be awaited: only a plain-HTTP
/// redirect to this machine (`127.0.0.1` or `localhost`, the host taken as
/// `127.0.0.1` when absent); `localhost` is bound as `127.0.0.1`, and the
/// port is the URL's (else 80).
pub open spec fn listener_of(parts: (Seq<char>, Option<Seq<char>>, Option<u16>, Seq<char>)) -> Option<(Seq<char>, u16, Seq<char>)> {
    let (scheme, host, port, path) = parts;
    let h = match host {
        Some(x) => x,
        None => "127.0.0.1"@,
    };
    if scheme != "http"@ {
        None
    } else if h != "127.0.0.1"@ && h != "localhost"@ {
        None
    } else {
        let bind = if h == "localhost"@ {
            "127.0.0.1"@
        } else {
            h
        };
        let p = match port {
            Some(x) => x,
            None => 80u16,
        };
        Some((bind, p, path))
    }
}

/// Where to await the callback of the configured redirect URL (`None`:
/// the code is to be pasted instead); a redirect URL that does not parse is
/// an error.
pub fn callback_listener(redirect_url: &str) -> (r: Result<Option<CallbackListener>, String>)
    ensures
        match url_parts(redirect_url@) {
            Some(parts) => match listener_of(parts) {
                Some((bind, port, path)) => r matches Ok(Some(l)) && l.bind_host@ == bind && l.port == port
                    && l.path@ == path,
                None => r matches Ok(None),
            },
            None => r is Err,
        },
{
    let parts = match parse_url_parts(redirect_url) {
        Ok(p) => p,
        Err(e) => return Err(e),
    };
    let http = "http".to_owned();
    let loopback = "127.0.0.1".to_owned();
    let local = "localhost".to_owned();
    proof {
        reveal_strlit("http");
        reveal_strlit("127.0.0.1");
        reveal_strlit("localhost");
    }
    if parts.scheme != http {
        return Ok(None);
    }
    let host = match parts.host {
        Some(h) => h,
        None => loopback.clone(),
    };
    if host != loopback && host != local {
        return Ok(None);
    }
    let bind_host = if host == local {
        loopback
    } else {
        host
    };
    let port = match parts.port {
        Some(p) => p,
        None => 80,
    };
    Ok(Some(CallbackListener { bind_host, port, path: parts.path }))
}

/// The page shown once the callback delivered a code.
pub const OAUTH_SUCCESS_HTML: &'static str = "<!doctype html><html><head><meta charset=\"utf-8\" /><title>Authentication successful</title></head><body><p>Authentication successful. Return to your terminal.</p></body></html>";

/// What the callback server answers a request, and what it hands to the
/// waiting sign-in (`None`: nothing).
#[derive(Debug)]
pub struct CallbackReply {
    pub status: u16,
    pub body: String,
    pub delivered: Option<Result<String, String>>,
}

/// The answer to a request on `path` with query pairs `query` (the last
/// value of a repeated key counts): another path is not found; a state
/// other than the expected one is refused and reported; a request without
/// a code is refused and reported; else the code is delivered.
pub fn callback_reply(path: &str, query: &Vec<(String, String)>, expected_path: &str, expected_state: &str) -> (r: CallbackReply)
    ensures
        path@ != expected_path@ ==> r.status == 404 && r.body@ == "Not found"@ && r.delivered is None,
        path@ == expected_path@ && last_value(pair_views(query@), "state"@) != Some(expected_state@) ==> r.status
            == 400 && r.body@ == "State mismatch"@ && (r.delivered matches Some(Err(m)) && m@
            == "oauth callback state mismatch"@),
        path@ == expected_path@ && last_value(pair_views(query@), "state"@) == Some(expected_state@) ==> match last_value(
            pair_views(query@),
            "code"@,
        ) {
            None => r.status == 400 && r.body@ == "Missing authorization code"@ && (r.delivered matches Some(Err(m))
                && m@ == "missing authorization code in callback"@),
            Some(c) => r.status == 200 && r.body@ == OAUTH_SUCCESS_HTML@ && (r.delivered matches Some(Ok(x)) && x@
                == c),
        },
{
    let p = path.to_owned();
    let e = expected_path.to_owned();
    if p != e {
        return CallbackReply { status: 404, body: "Not found".to_owned(), delivered: None };
    }
    let expected = expected_state.to_owned();
    proof {
        reveal_strlit("state");
        reveal_strlit("code");
    }
    let state_ok = match last_value_of(query, "state") {
        Some(s) => s == expected,
        None => false,
    };
    if !state_ok {
        return CallbackReply {
            status: 400,
            body: "State mismatch".to_owned(),
            delivered: Some(Err("oauth callback state mismatch".to_owned())),
        };
    }
    match last_value_of(query, "code") {
        None => CallbackReply {
            status: 400,
            body: "Missing authorization code".to_owned(),
            delivered: Some(Err("missing authorization code in callback".to_owned())),
        },
        Some(code) => CallbackReply { status: 200, body: OAUTH_SUCCESS_HTML.to_owned(), delivered: Some(Ok(code)) },
    }
}

} // verus!
