//! Decision logic of the chat gateway.
//!
//! The transport itself — receiving messages, sending replies — is I/O and
//! lives outside this crate.  Here are the decisions: which chats are
//! allowed, when an idle session is resumed, and how the gateway's settings
//! become a persistent-session configuration.

use vstd::prelude::*;

use crate::config::GatewayConfig;
use crate::session::SessionConfig;
use crate::text::{chars_to_string, str_to_chars};

verus! {

/// Whether a chat is on the allow list.
pub fn is_chat_allowed(allowed: &Vec<i64>, chat_id: i64) -> (r: bool)
    ensures
        r == allowed@.contains(chat_id),
{
    let mut i: usize = 0;
    while i < allowed.len()
        invariant
            i <= allowed@.len(),
            forall|k: int| 0 <= k < i ==> allowed@[k] != chat_id,
        decreases allowed@.len() - i,
    {
        if allowed[i] == chat_id {
            assert(allowed@.contains(chat_id));
            return true;
        }
        i += 1;
    }
    assert(!allowed@.contains(chat_id));
    false
}

/// Whether an existing spawn-mode session is fresh enough to resume.
pub fn should_resume(idle_secs: u64, session_timeout_secs: u64) -> (r: bool)
    ensures
        r == (idle_secs < session_timeout_secs),
{
    idle_secs < session_timeout_secs
}

/// The persistent-session configuration derived from the gateway settings:
/// the per-response deadline scales with the turn limit, and the turn and
/// budget limits are raised tenfold for the long-lived session.
pub fn session_config_for_gateway(gw: &GatewayConfig) -> (r: SessionConfig)
    requires
        gw.max_turns <= 100_000_000,
        gw.max_budget_cents <= 1_000_000_000,
    ensures
        r.session_name@ == gw.tmux_session_name@,
        r.prompt_marker@ == gw.prompt_marker@,
        r.poll_interval_ms == 200,
        r.response_timeout_secs == gw.max_turns as u64 * 30 + 60,
        r.startup_timeout_secs == 60,
        r.compact_interval_secs == gw.compact_interval_secs,
        r.max_restart_attempts == 3,
        r.model@ == gw.default_model@,
        r.max_turns == gw.max_turns * 10,
        r.max_budget_cents == gw.max_budget_cents * 10,
        r.allowed_tools.deep_view() == gw.allowed_tools.deep_view(),
        r.disallowed_tools.deep_view() == gw.disallowed_tools.deep_view(),
        r.append_system_prompt@ == gw.append_system_prompt@,
{
    let sn = str_to_chars(gw.tmux_session_name.as_str());
    let pm = str_to_chars(gw.prompt_marker.as_str());
    let md = str_to_chars(gw.default_model.as_str());
    let sp = str_to_chars(gw.append_system_prompt.as_str());
    SessionConfig {
        session_name: chars_to_string(&sn),
        prompt_marker: chars_to_string(&pm),
        poll_interval_ms: 200,
        response_timeout_secs: gw.max_turns as u64 * 30 + 60,
        startup_timeout_secs: 60,
        compact_interval_secs: gw.compact_interval_secs,
        max_restart_attempts: 3,
        model: chars_to_string(&md),
        max_turns: gw.max_turns * 10,
        max_budget_cents: gw.max_budget_cents * 10,
        allowed_tools: clone_strings(&gw.allowed_tools),
        disallowed_tools: clone_strings(&gw.disallowed_tools),
        append_system_prompt: chars_to_string(&sp),
    }
}

/// The task command's payload, when a chat message carries one: the text
/// after the `/task ` prefix.
pub fn strip_task_prefix(text: &str) -> (r: Option<String>)
    ensures
        ({
            let is_task = text@.len() >= 6 && text@.subrange(0, 6) == "/task "@;
            match r {
                Some(rest) => is_task && rest@ == text@.skip(6),
                None => !is_task,
            }
        }),
{
    let chars = str_to_chars(text);
    if chars.len() < 6 {
        return None;
    }
    let pre = crate::text::subvec(&chars, 0, 6);
    if !crate::text::chars_eq_str(&pre, "/task ") {
        return None;
    }
    let rest = crate::text::subvec(&chars, 6, chars.len());
    proof {
        assert(rest@ =~= text@.skip(6));
    }
    Some(chars_to_string(&rest))
}

/// A copy of a list of strings.
pub fn clone_strings(v: &Vec<String>) -> (r: Vec<String>)
    ensures
        r.deep_view() == v.deep_view(),
{
    let mut out: Vec<String> = Vec::new();
    let mut i: usize = 0;
    while i < v.len()
        invariant
            i <= v@.len(),
            out.deep_view().len() == i,
            forall|k: int| 0 <= k < i ==> out.deep_view()[k] == v.deep_view()[k],
        decreases v@.len() - i,
    {
        let c = str_to_chars(v[i].as_str());
        let ghost ov0 = out.deep_view();
        out.push(chars_to_string(&c));
        proof {
            assert(out.deep_view() =~~= ov0.push(v@[i as int]@));
        }
        i += 1;
    }
    proof {
        assert(out.deep_view() =~~= v.deep_view());
    }
    out
}

} // verus!
