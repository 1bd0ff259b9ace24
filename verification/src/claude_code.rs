//! The provider that runs the coding-agent CLI in headless mode: directives in
//! the message, the session store used for `--resume`, the command line, and
//! the processing of the CLI's output.
//!
//! The provider recognizes directives prepended to the message:
//! `[ZEROCLAW_CWD:/path]` gives the working directory of the CLI and
//! `[ZEROCLAW_SESSION_KEY:key]` the key under which the CLI session is kept,
//! so that later requests with the same key resume it.
use vstd::prelude::*;
use vstd::hash_map::StringHashMap;
use vstd::utf8::{decode_utf8, valid_utf8};
use std::string::FromUtf8Error;
use crate::text::{
    chars_of, has_char, push_signed_decimal, signed_decimal, str_eq, string_of_range,
    trim, trim_bounds, trim_ws,
};
use crate::directive::{
    directive_parts, extract, extract_directive, lemma_directive_parts_of,
    law_directive_round_trip, law_no_directive_keeps_message, opt_view, parse_directive,
    starts_with,
};

verus! {

/// Model name meaning "use the CLI's own default model".
pub const DEFAULT_MODEL_MARKER: &'static str = "default";

/// Longest stderr excerpt, in characters, kept in an error message.
pub const MAX_CLAUDE_CODE_STDERR_CHARS: usize = 512;

/// Prefix of the working-directory directive.
pub const CWD_DIRECTIVE: &'static str = "[ZEROCLAW_CWD:";

/// Prefix of the session-key directive.
pub const SESSION_KEY_DIRECTIVE: &'static str = "[ZEROCLAW_SESSION_KEY:";

/// Prefix under which a new CLI session id travels at the head of a response.
pub const NEW_SESSION_DIRECTIVE: &'static str = "[ZEROCLAW_NEW_SESSION:";

/// `std::string::FromUtf8Error`, carried opaquely inside `CliOutputError`.
#[verifier::external_type_specification]
#[verifier::external_body]
pub struct ExFromUtf8Error(FromUtf8Error);

/// The text that `String::from_utf8_lossy` decodes from `bytes`.
pub uninterp spec fn utf8_lossy(bytes: Seq<u8>) -> Seq<char>;

/// `String::from_utf8_lossy`: the bytes decoded as UTF-8, each invalid
/// sequence replaced by U+FFFD.  The contract names the result and states that
/// valid UTF-8 decodes to its characters; what replacement yields is left to
/// the name.
#[verifier::external_body]
fn decode_lossy(bytes: &[u8]) -> (s: String)
    ensures
        s@ == utf8_lossy(bytes@),
        valid_utf8(bytes@) ==> s@ == decode_utf8(bytes@),
{
    String::from_utf8_lossy(bytes).into_owned()
}

/// `String::from_utf8`: succeeds exactly on valid UTF-8, with its characters.
#[verifier::external_body]
fn string_from_utf8(bytes: Vec<u8>) -> (r: Result<String, FromUtf8Error>)
    ensures
        match r {
            Ok(s) => valid_utf8(bytes@) && s@ == decode_utf8(bytes@),
            Err(_) => !valid_utf8(bytes@),
        },
{
    String::from_utf8(bytes)
}

/// `Some(s@)` for `Some(s)`.
pub open spec fn opt_str_view(o: Option<&str>) -> Option<Seq<char>> {
    match o {
        Some(s) => Some(s@),
        None => None,
    }
}

/// The binary path: a configured override unless it is blank, else the
/// default binary name.
pub open spec fn binary_path_for(path_override: Option<Seq<char>>, default_binary: Seq<char>) -> Seq<char> {
    match path_override {
        Some(p) => if trim_ws(p).len() > 0 {
            p
        } else {
            default_binary
        },
        None => default_binary,
    }
}

/// A model is passed to the CLI unless it is blank or the default marker.
pub open spec fn forwards_model(model: Seq<char>) -> bool {
    trim_ws(model).len() > 0 && trim_ws(model) != DEFAULT_MODEL_MARKER@
}

/// The trimmed text, clipped to its first 512 characters followed by `...`
/// when it is longer.
pub open spec fn redacted(text: Seq<char>) -> Seq<char> {
    let t = trim_ws(text);
    if t.len() <= MAX_CLAUDE_CODE_STDERR_CHARS as int {
        t
    } else {
        t.take(MAX_CLAUDE_CODE_STDERR_CHARS as int) + "..."@
    }
}

/// The value stored under `k`, if any.
pub open spec fn lookup(m: Map<Seq<char>, Seq<char>>, k: Seq<char>) -> Option<Seq<char>> {
    if m.contains_key(k) {
        Some(m[k])
    } else {
        None
    }
}

/// The working directory named by a message.
pub open spec fn cwd_of(msg: Seq<char>) -> Option<Seq<char>> {
    extract_directive(msg, CWD_DIRECTIVE@).0
}

/// The session key named by a message: the session-key directive that
/// follows the (optional) working-directory directive.
pub open spec fn session_key_of(msg: Seq<char>) -> Option<Seq<char>> {
    extract_directive(extract_directive(msg, CWD_DIRECTIVE@).1, SESSION_KEY_DIRECTIVE@).0
}

/// The prompt sent to the CLI: the message without its directives.
pub open spec fn prompt_of(msg: Seq<char>) -> Seq<char> {
    extract_directive(extract_directive(msg, CWD_DIRECTIVE@).1, SESSION_KEY_DIRECTIVE@).1
}

/// The session id to resume for a message: the one stored under its key.
pub open spec fn resume_for(sessions: Map<Seq<char>, Seq<char>>, msg: Seq<char>) -> Option<Seq<char>> {
    match session_key_of(msg) {
        Some(k) => lookup(sessions, k),
        None => None,
    }
}

/// The store once the key of a failed resume is forgotten.
pub open spec fn forget(sessions: Map<Seq<char>, Seq<char>>, key: Option<Seq<char>>) -> Map<Seq<char>, Seq<char>> {
    match key {
        Some(k) => sessions.remove(k),
        None => sessions,
    }
}

/// A response that carries a new session id at its head.
pub open spec fn tagged_response(text: Seq<char>, new_session_id: Option<Seq<char>>) -> Seq<char> {
    match new_session_id {
        Some(id) => NEW_SESSION_DIRECTIVE@ + id + "]\n"@ + text,
        None => text,
    }
}

/// The new session id that a response carries at its head.
pub open spec fn new_session_id_of(response: Seq<char>) -> Option<Seq<char>> {
    match directive_parts(response, NEW_SESSION_DIRECTIVE@) {
        Some((id, _)) => Some(id),
        None => None,
    }
}

/// The response once its new-session directive, if any, is taken off.
pub open spec fn response_after_store(response: Seq<char>) -> Seq<char> {
    match directive_parts(response, NEW_SESSION_DIRECTIVE@) {
        Some((_, rest)) => rest,
        None => response,
    }
}

/// The store once the new session id of `response`, if any, is kept under `key`.
pub open spec fn sessions_after_store(
    sessions: Map<Seq<char>, Seq<char>>,
    key: Option<Seq<char>>,
    response: Seq<char>,
) -> Map<Seq<char>, Seq<char>> {
    match (directive_parts(response, NEW_SESSION_DIRECTIVE@), key) {
        (Some((id, _)), Some(k)) => sessions.insert(k, id),
        _ => sessions,
    }
}

/// The command-line arguments of one CLI call.
pub open spec fn cli_args_for(model: Seq<char>, resume: Option<Seq<char>>) -> Seq<Seq<char>> {
    seq!["--print"@, "--dangerously-skip-permissions"@, "--output-format"@, "json"@] + (match resume {
        Some(id) => seq!["--resume"@, id],
        None => Seq::<Seq<char>>::empty(),
    }) + (if forwards_model(model) {
        seq!["--model"@, model]
    } else {
        Seq::<Seq<char>>::empty()
    }) + seq!["-"@]
}

/// The error message for a run of the CLI (named `product` in messages) that
/// exited with a non-zero status.
pub open spec fn exit_failure_text(product: Seq<char>, code: int, excerpt: Seq<char>) -> Seq<char> {
    product + " exited with non-zero status "@ + signed_decimal(code) + ". Check that "@ + product
        + " is authenticated and the CLI is supported."@ + (if excerpt.len() == 0 {
        Seq::<char>::empty()
    } else {
        " Stderr: "@ + excerpt
    })
}

/// The message sent for a chat turn: a non-empty system prompt, a blank line,
/// then the user message.
pub open spec fn composed_message(system_prompt: Option<Seq<char>>, message: Seq<char>) -> Seq<char> {
    match system_prompt {
        Some(s) => if s.len() > 0 {
            s + "\n\n"@ + message
        } else {
            message
        },
        None => message,
    }
}

/// What the CLI printed as JSON (with `--print --output-format json`).
pub struct ClaudeJsonOutput {
    /// The assistant's response text.
    pub result: Option<String>,
    /// Session id for resuming this conversation.
    pub session_id: Option<String>,
    /// Whether the result represents an error.
    pub is_error: bool,
}

/// One call of the CLI: where it runs, which session key the message named,
/// the prompt written to its stdin and the session it resumes.
pub struct CliInvocation {
    pub cwd: Option<String>,
    pub session_key: Option<String>,
    pub prompt: String,
    pub resume_session_id: Option<String>,
}

/// Why the output of a successful CLI run could not be used.
pub enum CliOutputError {
    /// Stdout was not valid UTF-8.
    NonUtf8Output(FromUtf8Error),
}

/// Provider that runs the CLI, remembering for each session key the CLI
/// session to resume.
pub struct ClaudeCodeProvider {
    binary_path: String,
    product_name: String,
    sessions: StringHashMap<String>,
}

impl ClaudeCodeProvider {
    /// Path of the CLI binary.
    pub closed spec fn binary_path_view(&self) -> Seq<char> {
        self.binary_path@
    }

    /// The CLI's product name, as error messages show it.
    pub closed spec fn product_name_view(&self) -> Seq<char> {
        self.product_name@
    }

    /// Session keys mapped to the CLI session ids stored for them.
    pub closed spec fn sessions_view(&self) -> Map<Seq<char>, Seq<char>> {
        self.sessions@.map_values(|v: String| v@)
    }

    /// A provider with no stored sessions; `path_override` is the configured
    /// binary path (the `CLAUDE_CODE_PATH` variable), ignored when blank, in
    /// which case the CLI's executable name `default_binary` is used (found
    /// through `PATH`); `product_name` is how error messages name the CLI.
    pub fn new(path_override: Option<String>, default_binary: &str, product_name: &str) -> (p: Self)
        ensures
            p.binary_path_view() == binary_path_for(opt_view(path_override), default_binary@),
            p.product_name_view() == product_name@,
            p.sessions_view() == Map::<Seq<char>, Seq<char>>::empty(),
    {
        let binary_path = match path_override {
            Some(path) => {
                let t = trim(path.as_str());
                if t.as_str().is_empty() {
                    default_binary.to_owned()
                } else {
                    path
                }
            },
            None => default_binary.to_owned(),
        };
        let sessions = StringHashMap::<String>::new();
        let p = ClaudeCodeProvider { binary_path, product_name: product_name.to_owned(), sessions };
        assert(p.sessions_view() =~= Map::<Seq<char>, Seq<char>>::empty());
        p
    }

    /// Path of the CLI binary.
    pub fn binary_path(&self) -> (r: &str)
        ensures
            r@ == self.binary_path_view(),
    {
        self.binary_path.as_str()
    }

    /// The CLI's product name, as error messages show it.
    pub fn product_name(&self) -> (r: &str)
        ensures
            r@ == self.product_name_view(),
    {
        self.product_name.as_str()
    }

    /// Whether the model argument is forwarded to the CLI.
    pub fn should_forward_model(model: &str) -> (r: bool)
        ensures
            r == forwards_model(model@),
    {
        let t = trim(model);
        !t.as_str().is_empty() && !str_eq(t.as_str(), DEFAULT_MODEL_MARKER)
    }

    /// The stderr excerpt kept in an error message, from already decoded text.
    pub fn redact_text(text: &str) -> (r: String)
        ensures
            r@ == redacted(text@),
    {
        let v = chars_of(text);
        let (a, b) = trim_bounds(&v, 0, v.len());
        proof {
            assert(v@.subrange(0, v@.len() as int) =~= v@);
        }
        if b - a <= MAX_CLAUDE_CODE_STDERR_CHARS {
            string_of_range(&v, a, b)
        } else {
            let mut s = string_of_range(&v, a, a + MAX_CLAUDE_CODE_STDERR_CHARS);
            s.append("...");
            proof {
                assert(v@.subrange(a as int, a + MAX_CLAUDE_CODE_STDERR_CHARS) =~= v@.subrange(
                    a as int,
                    b as int,
                ).take(MAX_CLAUDE_CODE_STDERR_CHARS as int));
            }
            s
        }
    }

    /// The stderr excerpt kept in an error message: the lossily decoded
    /// stderr, trimmed and clipped.
    pub fn redact_stderr(stderr: &[u8]) -> (r: String)
        ensures
            r@ == redacted(utf8_lossy(stderr@)),
            valid_utf8(stderr@) ==> r@ == redacted(decode_utf8(stderr@)),
    {
        let text = decode_lossy(stderr);
        Self::redact_text(text.as_str())
    }

    /// Takes a `[ZEROCLAW_CWD:/path]` directive off the start of the message:
    /// the working directory and the rest of the message.
    pub fn extract_cwd(message: &str) -> (r: (Option<String>, String))
        ensures
            (opt_view(r.0), r.1@) == extract_directive(message@, CWD_DIRECTIVE@),
    {
        extract(message, CWD_DIRECTIVE)
    }

    /// Takes a `[ZEROCLAW_SESSION_KEY:key]` directive off the start of the
    /// message: the session key and the rest of the message.
    pub fn extract_session_key(message: &str) -> (r: (Option<String>, String))
        ensures
            (opt_view(r.0), r.1@) == extract_directive(message@, SESSION_KEY_DIRECTIVE@),
    {
        extract(message, SESSION_KEY_DIRECTIVE)
    }

    /// The session id stored for `key`.
    pub fn get_session(&self, key: &str) -> (r: Option<String>)
        ensures
            opt_view(r) == lookup(self.sessions_view(), key@),
    {
        match self.sessions.get(key) {
            Some(id) => Some(id.clone()),
            None => None,
        }
    }

    /// Stores `session_id` for `key`, replacing what was stored before.
    pub fn set_session(&mut self, key: String, session_id: String)
        ensures
            final(self).sessions_view() == old(self).sessions_view().insert(key@, session_id@),
            final(self).binary_path_view() == old(self).binary_path_view(),
            final(self).product_name_view() == old(self).product_name_view(),
    {
        let ghost before = self.sessions@;
        self.sessions.insert(key, session_id);
        proof {
            assert(self.sessions@.map_values(|v: String| v@) =~= before.map_values(
                |v: String| v@,
            ).insert(key@, session_id@));
        }
    }

    /// Forgets the session stored for `key`, if any.
    pub fn clear_session(&mut self, key: &str)
        ensures
            final(self).sessions_view() == old(self).sessions_view().remove(key@),
            final(self).binary_path_view() == old(self).binary_path_view(),
            final(self).product_name_view() == old(self).product_name_view(),
    {
        let ghost before = self.sessions@;
        self.sessions.remove(key);
        proof {
            assert(self.sessions@.map_values(|v: String| v@) =~= before.map_values(
                |v: String| v@,
            ).remove(key@));
        }
    }

    /// The response text and session id of the CLI's output.  `decoded` is the
    /// JSON object read from the trimmed output, if it is one; otherwise the
    /// trimmed output itself is the response (an older CLI without JSON output).
    pub fn parse_output(stdout: &str, decoded: Option<ClaudeJsonOutput>) -> (r: (String, Option<String>))
        ensures
            match decoded {
                Some(out) => {
                    &&& r.0@ == (match out.result {
                        Some(t) => t@,
                        None => Seq::<char>::empty(),
                    })
                    &&& opt_view(r.1) == opt_view(out.session_id)
                },
                None => r.0@ == trim_ws(stdout@) && r.1 is None,
            },
    {
        match decoded {
            Some(out) => {
                let text = match out.result {
                    Some(t) => t,
                    None => String::new(),
                };
                (text, out.session_id)
            },
            None => (trim(stdout), None),
        }
    }

    /// The response of a CLI run: a new session id, if the CLI reported one,
    /// travels at its head as `[ZEROCLAW_NEW_SESSION:id]` and a newline.
    pub fn session_response(text: String, new_session_id: Option<String>) -> (r: String)
        ensures
            r@ == tagged_response(text@, opt_view(new_session_id)),
    {
        match new_session_id {
            Some(id) => {
                let mut r = NEW_SESSION_DIRECTIVE.to_owned();
                r.append(id.as_str());
                r.append("]\n");
                r.append(text.as_str());
                r
            },
            None => text,
        }
    }

    /// Takes the new-session directive off the response and, when the request
    /// named a session key, stores the new session id under it.
    pub fn store_session_from_response(&mut self, response: &mut String, session_key: Option<&str>)
        ensures
            final(response)@ == response_after_store(old(response)@),
            final(self).sessions_view() == sessions_after_store(
                old(self).sessions_view(),
                opt_str_view(session_key),
                old(response)@,
            ),
            final(self).binary_path_view() == old(self).binary_path_view(),
            final(self).product_name_view() == old(self).product_name_view(),
    {
        match parse_directive(response.as_str(), NEW_SESSION_DIRECTIVE) {
            Some((new_id, remainder)) => {
                match session_key {
                    Some(key) => self.set_session(key.to_owned(), new_id),
                    None => {},
                }
                *response = remainder;
            },
            None => {},
        }
    }

    /// The command-line arguments of a CLI call; the prompt itself goes to
    /// stdin (the final `-`), not into the arguments.
    pub fn cli_args(model: &str, resume_session_id: Option<&str>) -> (r: Vec<String>)
        ensures
            r@.map_values(|a: String| a@) == cli_args_for(model@, opt_str_view(resume_session_id)),
    {
        let mut args: Vec<String> = Vec::new();
        args.push("--print".to_owned());
        args.push("--dangerously-skip-permissions".to_owned());
        args.push("--output-format".to_owned());
        args.push("json".to_owned());
        match resume_session_id {
            Some(id) => {
                args.push("--resume".to_owned());
                args.push(id.to_owned());
            },
            None => {},
        }
        if Self::should_forward_model(model) {
            args.push("--model".to_owned());
            args.push(model.to_owned());
        }
        args.push("-".to_owned());
        assert(args@.map_values(|a: String| a@) =~= cli_args_for(
            model@,
            opt_str_view(resume_session_id),
        ));
        args
    }

    /// Reads the directives of a message and looks up the session to resume.
    pub fn plan_invocation(&self, message: &str) -> (r: CliInvocation)
        ensures
            opt_view(r.cwd) == cwd_of(message@),
            opt_view(r.session_key) == session_key_of(message@),
            r.prompt@ == prompt_of(message@),
            opt_view(r.resume_session_id) == resume_for(self.sessions_view(), message@),
    {
        let (cwd, after_cwd) = Self::extract_cwd(message);
        let (session_key, prompt) = Self::extract_session_key(after_cwd.as_str());
        let resume_session_id = match &session_key {
            Some(key) => self.get_session(key.as_str()),
            None => None,
        };
        CliInvocation { cwd, session_key, prompt, resume_session_id }
    }

    /// After a failed CLI call: a call that resumed a session is retried once
    /// without `--resume`, and the stale session is forgotten; a call that
    /// resumed nothing is not retried.
    pub fn retry_after_failure(&mut self, attempt: CliInvocation) -> (r: Option<CliInvocation>)
        ensures
            final(self).binary_path_view() == old(self).binary_path_view(),
            final(self).product_name_view() == old(self).product_name_view(),
            attempt.resume_session_id is None ==> r is None && final(self).sessions_view()
                == old(self).sessions_view(),
            attempt.resume_session_id is Some ==> {
                &&& r is Some
                &&& r->0.resume_session_id is None
                &&& opt_view(r->0.cwd) == opt_view(attempt.cwd)
                &&& opt_view(r->0.session_key) == opt_view(attempt.session_key)
                &&& r->0.prompt@ == attempt.prompt@
                &&& final(self).sessions_view() == forget(
                    old(self).sessions_view(),
                    opt_view(attempt.session_key),
                )
            },
    {
        match attempt.resume_session_id {
            None => None,
            Some(_) => {
                match &attempt.session_key {
                    Some(key) => self.clear_session(key.as_str()),
                    None => {},
                }
                Some(
                    CliInvocation {
                        cwd: attempt.cwd,
                        session_key: attempt.session_key,
                        prompt: attempt.prompt,
                        resume_session_id: None,
                    },
                )
            },
        }
    }

    /// The error message of a CLI run that exited unsuccessfully; `code` is
    /// its exit code (none when a signal ended it, shown as -1).
    pub fn exit_failure_message(&self, code: Option<i32>, stderr: &[u8]) -> (r: String)
        ensures
            r@ == exit_failure_text(
                self.product_name_view(),
                match code {
                    Some(c) => c as int,
                    None => -1,
                },
                redacted(utf8_lossy(stderr@)),
            ),
            valid_utf8(stderr@) ==> r@ == exit_failure_text(
                self.product_name_view(),
                match code {
                    Some(c) => c as int,
                    None => -1,
                },
                redacted(decode_utf8(stderr@)),
            ),
    {
        let c: i32 = match code {
            Some(c) => c,
            None => -1,
        };
        let excerpt = Self::redact_stderr(stderr);
        let mut r = self.product_name.clone();
        r.append(" exited with non-zero status ");
        push_signed_decimal(&mut r, c as i64);
        r.append(". Check that ");
        r.append(self.product_name.as_str());
        r.append(" is authenticated and the CLI is supported.");
        if !excerpt.as_str().is_empty() {
            r.append(" Stderr: ");
            r.append(excerpt.as_str());
        }
        r
    }

    /// The stdout of a successful CLI run as text.
    pub fn decode_cli_stdout(stdout: Vec<u8>) -> (r: Result<String, CliOutputError>)
        ensures
            r is Ok <==> valid_utf8(stdout@),
            r matches Ok(s) ==> s@ == decode_utf8(stdout@),
    {
        match string_from_utf8(stdout) {
            Ok(s) => Ok(s),
            Err(e) => Err(CliOutputError::NonUtf8Output(e)),
        }
    }

    /// The message of a chat turn: the system prompt, when non-empty, and a
    /// blank line before the user message.
    pub fn compose_message(system_prompt: Option<&str>, message: &str) -> (r: String)
        ensures
            r@ == composed_message(opt_str_view(system_prompt), message@),
    {
        match system_prompt {
            Some(system) => {
                if system.is_empty() {
                    message.to_owned()
                } else {
                    let mut r = system.to_owned();
                    r.append("\n\n");
                    r.append(message);
                    r
                }
            },
            None => message.to_owned(),
        }
    }

    /// The session key of a chat message, read after its working-directory
    /// directive, as the CLI call reads it.
    pub fn chat_session_key(full_message: &str) -> (r: Option<String>)
        ensures
            opt_view(r) == session_key_of(full_message@),
    {
        let (_, after_cwd) = Self::extract_cwd(full_message);
        let (session_key, _) = Self::extract_session_key(after_cwd.as_str());
        session_key
    }
}

/// A stderr excerpt is never longer than 512 characters and `...`, and it is
/// empty exactly when the text is blank.
pub proof fn law_redacted_excerpt_bounds(text: Seq<char>)
    ensures
        redacted(text).len() <= MAX_CLAUDE_CODE_STDERR_CHARS + 3,
        (redacted(text).len() == 0) == (trim_ws(text).len() == 0),
{
    reveal_strlit("...");
}

/// A stored session id is read back for its key; storing replaces the
/// previous id; other keys are untouched.
pub proof fn law_session_store_then_lookup(
    sessions: Map<Seq<char>, Seq<char>>,
    key: Seq<char>,
    id: Seq<char>,
    other: Seq<char>,
)
    requires
        other != key,
    ensures
        lookup(sessions.insert(key, id), key) == Some(id),
        lookup(sessions.insert(key, id), other) == lookup(sessions, other),
{
}

/// A cleared key has no session; clearing a key that has none changes nothing;
/// other keys are untouched.
pub proof fn law_session_clear(sessions: Map<Seq<char>, Seq<char>>, key: Seq<char>, other: Seq<char>)
    requires
        other != key,
    ensures
        lookup(sessions.remove(key), key) is None,
        lookup(sessions.remove(key), other) == lookup(sessions, other),
        !sessions.contains_key(key) ==> sessions.remove(key) == sessions,
{
    if !sessions.contains_key(key) {
        assert(sessions.remove(key) =~= sessions);
    }
}

/// Round trip of the session id through the response: a response tagged
/// with a trimmed session id that holds no `]`, around a text that does not
/// start with a newline, gives back that text and stores that id under the
/// request's key.
pub proof fn law_session_response_round_trip(
    sessions: Map<Seq<char>, Seq<char>>,
    key: Seq<char>,
    id: Seq<char>,
    text: Seq<char>,
)
    requires
        trim_ws(id) == id,
        !has_char(id, ']'),
        !(text.len() > 0 && text[0] == '\n'),
    ensures
        response_after_store(tagged_response(text, Some(id))) == text,
        sessions_after_store(sessions, Some(key), tagged_response(text, Some(id))) == sessions.insert(
            key,
            id,
        ),
{
    reveal_strlit("]\n");
    assert forall|i: int| 0 <= i < seq!['\n'].len() implies #[trigger] seq!['\n'][i] == '\n' by {}
    lemma_directive_parts_of(NEW_SESSION_DIRECTIVE@, id, seq!['\n'], text);
    assert(NEW_SESSION_DIRECTIVE@ + id + "]\n"@ + text =~= NEW_SESSION_DIRECTIVE@ + id + seq![']']
        + seq!['\n'] + text);
}

/// A session id kept for a chat message's key is the one the next CLI call
/// with the same key resumes.
pub proof fn law_stored_session_is_resumed(
    sessions: Map<Seq<char>, Seq<char>>,
    first: Seq<char>,
    response: Seq<char>,
    next: Seq<char>,
)
    requires
        session_key_of(first) is Some,
        session_key_of(next) == session_key_of(first),
        directive_parts(response, NEW_SESSION_DIRECTIVE@) is Some,
    ensures
        resume_for(sessions_after_store(sessions, session_key_of(first), response), next)
            == new_session_id_of(response),
{
}

/// A composed chat message keeps the whole system prompt: for a non-empty
/// system prompt `s` it is `s`, a blank line, then the message, so its length
/// is `|s| + 2 + |message|`.
pub proof fn law_composed_message_keeps_system_prompt(s: Seq<char>, message: Seq<char>)
    requires
        s.len() > 0,
    ensures
        composed_message(Some(s), message).len() == s.len() + 2 + message.len(),
        composed_message(Some(s), message).take(s.len() as int) == s,
        composed_message(Some(s), message)[s.len() as int] == '\n',
        composed_message(Some(s), message)[s.len() as int + 1] == '\n',
        composed_message(Some(s), message).skip(s.len() as int + 2) == message,
        composed_message(None, message) == message,
{
    reveal_strlit("\n\n");
    let c = composed_message(Some(s), message);
    assert(c.take(s.len() as int) =~= s);
    assert(c.skip(s.len() as int + 2) =~= message);
}

/// The command line depends on the resume id and the model independently:
/// the fixed head, `--resume <id>` right after it exactly when an id is given
/// (whatever the model), `--model <model>` exactly when the model is forwarded
/// (whatever the id), and `-` last.
pub proof fn law_cli_args_layout(model: Seq<char>, resume: Option<Seq<char>>)
    ensures
        ({
            let a = cli_args_for(model, resume);
            let r: int = if resume is Some { 2 } else { 0 };
            let m: int = if forwards_model(model) { 2 } else { 0 };
            &&& a.len() == 5 + r + m
            &&& a[0] == "--print"@
            &&& a[1] == "--dangerously-skip-permissions"@
            &&& a[2] == "--output-format"@
            &&& a[3] == "json"@
            &&& (resume matches Some(id) ==> a[4] == "--resume"@ && a[5] == id)
            &&& (forwards_model(model) ==> a[4 + r] == "--model"@ && a[5 + r] == model)
            &&& a[a.len() - 1] == "-"@
        }),
{
}

/// The prompt does not depend on whether a working-directory directive was
/// taken off first: for a message made of a working-directory directive
/// (trimmed non-empty value without `]`) and a rest that starts with neither
/// a newline nor another working-directory directive, the directory is the
/// value and the session key and prompt are those of the rest alone.
pub proof fn law_cwd_directive_is_taken_off(value: Seq<char>, rest: Seq<char>)
    requires
        value.len() > 0,
        trim_ws(value) == value,
        !has_char(value, ']'),
        !(rest.len() > 0 && rest[0] == '\n'),
        !starts_with(rest, CWD_DIRECTIVE@),
    ensures
        cwd_of(CWD_DIRECTIVE@ + value + seq![']'] + rest) == Some(value),
        session_key_of(CWD_DIRECTIVE@ + value + seq![']'] + rest) == session_key_of(rest),
        prompt_of(CWD_DIRECTIVE@ + value + seq![']'] + rest) == prompt_of(rest),
{
    law_directive_round_trip(CWD_DIRECTIVE@, value, rest);
    law_no_directive_keeps_message(rest, CWD_DIRECTIVE@);
}

/// A message that carries a working-directory directive and no session-key
/// directive is sent without the directive: the prompt is the rest.
pub proof fn law_cwd_only_prompt_is_rest(value: Seq<char>, rest: Seq<char>)
    requires
        value.len() > 0,
        trim_ws(value) == value,
        !has_char(value, ']'),
        !(rest.len() > 0 && rest[0] == '\n'),
        !starts_with(rest, CWD_DIRECTIVE@),
        !starts_with(rest, SESSION_KEY_DIRECTIVE@),
    ensures
        prompt_of(CWD_DIRECTIVE@ + value + seq![']'] + rest) == rest,
        session_key_of(CWD_DIRECTIVE@ + value + seq![']'] + rest) is None,
{
    law_cwd_directive_is_taken_off(value, rest);
    law_no_directive_keeps_message(rest, SESSION_KEY_DIRECTIVE@);
}

} // verus!
