//! Persistent-session configuration and the session capability.
//!
//! The supervisor keeps one long-lived subprocess alive behind a simple
//! request/response interface.  Its behaviour is configured once, here, and
//! the configuration is never mutated afterwards.  Budgets are held in
//! cents so that every amount is an exact integer.

use vstd::prelude::*;

use crate::engine::SessionError;
use crate::text::{chars_to_string, str_to_chars};

verus! {

/// Configuration for persistent session behaviour.
#[derive(Debug, Clone)]
pub struct SessionConfig {
    /// Name of the terminal session that tracks the subprocess.
    pub session_name: String,
    /// Prompt marker of the interactive subprocess.
    pub prompt_marker: String,
    /// Polling interval for response completion, in milliseconds.
    pub poll_interval_ms: u64,
    /// Deadline for one response, in seconds.
    pub response_timeout_secs: u64,
    /// Deadline for session startup, in seconds.
    pub startup_timeout_secs: u64,
    /// Interval between automatic compactions, in seconds.
    pub compact_interval_secs: u64,
    /// Restart ceiling of the health monitor.
    pub max_restart_attempts: u32,
    /// Model name.
    pub model: String,
    /// Turn limit per session.
    pub max_turns: u32,
    /// Budget per session, in cents.
    pub max_budget_cents: u64,
    /// Tools to allow; empty means the default set.
    pub allowed_tools: Vec<String>,
    /// Tools to disallow.
    pub disallowed_tools: Vec<String>,
    /// Text appended to the system prompt.
    pub append_system_prompt: String,
}

/// The default session name.
pub fn default_session_name() -> (r: String)
    ensures
        r@ == "cc-demon-session"@,
{
    let c = str_to_chars("cc-demon-session");
    chars_to_string(&c)
}

/// The default prompt marker of the interactive subprocess.
pub fn default_prompt_marker() -> (r: String)
    ensures
        r@ == "\u{276F}"@,
{
    let c = str_to_chars("\u{276F}");
    chars_to_string(&c)
}

/// The default polling interval, in milliseconds.
pub fn default_poll_interval_ms() -> (r: u64)
    ensures
        r == 200,
{
    200
}

/// The default per-response deadline, in seconds.
pub fn default_response_timeout_secs() -> (r: u64)
    ensures
        r == 300,
{
    300
}

/// The default startup deadline, in seconds.
pub fn default_startup_timeout_secs() -> (r: u64)
    ensures
        r == 60,
{
    60
}

/// The default compaction interval, in seconds.
pub fn default_compact_interval_secs() -> (r: u64)
    ensures
        r == 3600,
{
    3600
}

/// The default restart ceiling.
pub fn default_max_restart_attempts() -> (r: u32)
    ensures
        r == 3,
{
    3
}

/// The default model name.
pub fn default_model() -> (r: String)
    ensures
        r@ == "sonnet"@,
{
    let c = str_to_chars("sonnet");
    chars_to_string(&c)
}

/// The default turn limit of a persistent session.
pub fn default_max_turns() -> (r: u32)
    ensures
        r == 100,
{
    100
}

/// The default budget of a persistent session, in cents.
pub fn default_max_budget_cents() -> (r: u64)
    ensures
        r == 1000,
{
    1000
}

impl Default for SessionConfig {
    /// The stock session configuration.
    fn default() -> (r: SessionConfig)
        ensures
            r.session_name@ == "cc-demon-session"@,
            r.prompt_marker@ == "\u{276F}"@,
            r.poll_interval_ms == 200,
            r.response_timeout_secs == 300,
            r.startup_timeout_secs == 60,
            r.compact_interval_secs == 3600,
            r.max_restart_attempts == 3,
            r.model@ == "sonnet"@,
            r.max_turns == 100,
            r.max_budget_cents == 1000,
            r.allowed_tools@ == Seq::<String>::empty(),
            r.disallowed_tools@ == Seq::<String>::empty(),
            r.append_system_prompt@ == Seq::<char>::empty(),
    {
        SessionConfig {
            session_name: default_session_name(),
            prompt_marker: default_prompt_marker(),
            poll_interval_ms: default_poll_interval_ms(),
            response_timeout_secs: default_response_timeout_secs(),
            startup_timeout_secs: default_startup_timeout_secs(),
            compact_interval_secs: default_compact_interval_secs(),
            max_restart_attempts: default_max_restart_attempts(),
            model: default_model(),
            max_turns: default_max_turns(),
            max_budget_cents: default_max_budget_cents(),
            allowed_tools: Vec::new(),
            disallowed_tools: Vec::new(),
            append_system_prompt: String::new(),
        }
    }
}

/// A session backend: one long-lived subprocess behind a request/response
/// interface.  Abstracting the backend keeps the supervisor testable with a
/// scripted double and open to other transports.
pub trait ClaudeSession {
    /// Send a message and wait for the response.
    fn send_message(&mut self, msg: &str) -> Result<String, SessionError>;

    /// Whether the session's subprocess is still alive.
    fn is_alive(&self) -> bool;

    /// Restart the session: kill the current generation and start another.
    fn restart(&mut self) -> Result<(), SessionError>;

    /// Run the maintenance command to bound context growth.
    fn compact(&mut self) -> Result<(), SessionError>;
}

/// The launch arguments for the persistent subprocess, in order: print
/// mode, line-based input and output, the model and limits, the tool
/// allowances, and the system-prompt addendum.
pub open spec fn spec_session_args(c: SessionConfig) -> Seq<Seq<char>> {
    let head = seq!["-p"@, "--input-format"@, "stream-json"@, "--output-format"@,
        "stream-json"@, "--verbose"@];
    let model: Seq<Seq<char>> = if c.model@.len() > 0 {
        seq!["--model"@, c.model@]
    } else {
        Seq::empty()
    };
    let turns = seq!["--max-turns"@, crate::text::spec_dec(c.max_turns as nat)];
    let budget = seq!["--max-budget-usd"@, spec_budget_arg(c.max_budget_cents)];
    let tools = spec_tool_args(c.allowed_tools.deep_view(), "--allowedTools"@) + spec_tool_args(
        c.disallowed_tools.deep_view(),
        "--disallowedTools"@,
    );
    let sys: Seq<Seq<char>> = if c.append_system_prompt@.len() > 0 {
        seq!["--append-system-prompt"@, c.append_system_prompt@]
    } else {
        Seq::empty()
    };
    head + model + turns + budget + tools + sys
}

/// A budget in cents written as dollars with two digits after the point.
pub open spec fn spec_budget_arg(cents: u64) -> Seq<char> {
    crate::text::spec_dec((cents / 100) as nat) + seq!['.'] + seq![
        crate::codec::hex_digit_char(((cents % 100) / 10) as u32),
        crate::codec::hex_digit_char((cents % 10) as u32),
    ]
}

/// A budget in cents written as dollars with two digits after the point.
pub fn budget_arg(cents: u64) -> (r: String)
    ensures
        r@ == spec_budget_arg(cents),
{
    let mut out = crate::text::dec_chars(cents / 100);
    out.push('.');
    out.push(crate::codec::hex_char(((cents % 100) / 10) as u32));
    out.push(crate::codec::hex_char((cents % 10) as u32));
    proof {
        assert(out@ =~= spec_budget_arg(cents));
    }
    chars_to_string(&out)
}

/// Flag-value pairs for a tool list.
pub open spec fn spec_tool_args(tools: Seq<Seq<char>>, flag: Seq<char>) -> Seq<Seq<char>>
    decreases tools.len(),
{
    if tools.len() == 0 {
        Seq::empty()
    } else {
        seq![flag, tools[0]] + spec_tool_args(tools.drop_first(), flag)
    }
}

/// Append flag-value pairs for a tool list.
fn push_tool_args(out: &mut Vec<String>, tools: &Vec<String>, flag: &str)
    ensures
        final(out).deep_view() == old(out).deep_view() + spec_tool_args(
            tools.deep_view(),
            flag@,
        ),
{
    let mut i: usize = 0;
    proof {
        assert(tools.deep_view().skip(0) =~~= tools.deep_view());
        assert(old(out).deep_view() + Seq::<Seq<char>>::empty() =~~= old(out).deep_view());
    }
    while i < tools.len()
        invariant
            i <= tools@.len(),
            tools.deep_view().len() == tools@.len(),
            out.deep_view() + spec_tool_args(tools.deep_view().skip(i as int), flag@) == old(
                out,
            ).deep_view() + spec_tool_args(tools.deep_view(), flag@),
        decreases tools@.len() - i,
    {
        proof {
            assert(tools.deep_view().skip(i as int)[0] == tools.deep_view()[i as int]);
            assert(tools.deep_view().skip(i as int).drop_first() =~~= tools.deep_view().skip(
                i + 1,
            ));
            assert(tools.deep_view()[i as int] == tools@[i as int]@);
        }
        let fc = str_to_chars(flag);
        let ghost ov0 = out.deep_view();
        out.push(chars_to_string(&fc));
        let tc = str_to_chars(tools[i].as_str());
        out.push(chars_to_string(&tc));
        proof {
            assert(out.deep_view() =~~= ov0 + seq![flag@, tools.deep_view()[i as int]]);
            assert((ov0 + seq![flag@, tools.deep_view()[i as int]]) + spec_tool_args(
                tools.deep_view().skip(i + 1),
                flag@,
            ) =~~= ov0 + (seq![flag@, tools.deep_view()[i as int]] + spec_tool_args(
                tools.deep_view().skip(i + 1),
                flag@,
            )));
        }
        i += 1;
    }
    proof {
        assert(spec_tool_args(tools.deep_view().skip(tools@.len() as int), flag@)
            =~~= Seq::<Seq<char>>::empty());
        assert(out.deep_view() + Seq::<Seq<char>>::empty() =~~= out.deep_view());
    }
}

/// The launch arguments for the persistent subprocess.
#[verifier::rlimit(60)]
pub fn build_session_args(c: &SessionConfig) -> (r: Vec<String>)
    ensures
        r.deep_view() == spec_session_args(*c),
{
    let mut out: Vec<String> = Vec::new();
    let p0 = str_to_chars("-p");
    out.push(chars_to_string(&p0));
    let p1 = str_to_chars("--input-format");
    out.push(chars_to_string(&p1));
    let p2 = str_to_chars("stream-json");
    out.push(chars_to_string(&p2));
    let p3 = str_to_chars("--output-format");
    out.push(chars_to_string(&p3));
    let p4 = str_to_chars("stream-json");
    out.push(chars_to_string(&p4));
    let p5 = str_to_chars("--verbose");
    out.push(chars_to_string(&p5));
    let ghost head = seq!["-p"@, "--input-format"@, "stream-json"@, "--output-format"@,
        "stream-json"@, "--verbose"@];
    proof {
        assert(out.deep_view() =~~= head);
    }
    if crate::text::str_len_positive(c.model.as_str()) {
        let ghost ov0 = out.deep_view();
        let fc = str_to_chars("--model");
        out.push(chars_to_string(&fc));
        let mc = str_to_chars(c.model.as_str());
        out.push(chars_to_string(&mc));
        proof {
            assert(out.deep_view() =~~= ov0 + seq!["--model"@, c.model@]);
        }
    }
    let ghost after_model = out.deep_view();
    let fc2 = str_to_chars("--max-turns");
    let ghost ov1 = out.deep_view();
    out.push(chars_to_string(&fc2));
    let tc = crate::text::dec_chars(c.max_turns as u64);
    out.push(chars_to_string(&tc));
    proof {
        assert(out.deep_view() =~~= ov1 + seq!["--max-turns"@, crate::text::spec_dec(
            c.max_turns as nat,
        )]);
    }
    let ghost ovb = out.deep_view();
    let fcb = str_to_chars("--max-budget-usd");
    out.push(chars_to_string(&fcb));
    out.push(budget_arg(c.max_budget_cents));
    proof {
        assert(out.deep_view() =~~= ovb + seq!["--max-budget-usd"@, spec_budget_arg(
            c.max_budget_cents,
        )]);
    }
    push_tool_args(&mut out, &c.allowed_tools, "--allowedTools");
    push_tool_args(&mut out, &c.disallowed_tools, "--disallowedTools");
    if crate::text::str_len_positive(c.append_system_prompt.as_str()) {
        let ghost ov2 = out.deep_view();
        let fc3 = str_to_chars("--append-system-prompt");
        out.push(chars_to_string(&fc3));
        let sc = str_to_chars(c.append_system_prompt.as_str());
        out.push(chars_to_string(&sc));
        proof {
            assert(out.deep_view() =~~= ov2 + seq!["--append-system-prompt"@,
                c.append_system_prompt@]);
        }
    }
    proof {
        assert(out.deep_view() =~~= spec_session_args(*c));
    }
    out
}

} // verus!
