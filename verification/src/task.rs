//! Agent and task system: triggers, profiles, and the decisions around
//! classifying a message and routing its output.
//!
//! Tasks define triggers with descriptions and keywords; agents define
//! execution profiles.  Classification tries keywords first and only then
//! asks the language model; both the keyword match and the reading of the
//! model's answer are decided here, over plain values.  Loading the
//! definition files and spawning the executor are I/O and live outside this
//! crate.

use vstd::prelude::*;

use crate::text::{chars_to_string, spec_find, str_to_chars};

verus! {

/// Agent execution profile.
#[derive(Debug, Clone)]
pub struct AgentProfile {
    pub id: String,
    pub name: String,
    pub working_dir: String,
    pub model: String,
    pub fallback_model: String,
    pub max_turns: u32,
    /// Budget in cents.
    pub max_budget_cents: u64,
    pub allowed_tools: Vec<String>,
    pub disallowed_tools: Vec<String>,
    pub system_prompt: String,
    pub append_system_prompt: String,
    pub mcp_config: String,
}

/// Task trigger definition.
#[derive(Debug, Clone)]
pub struct TaskDefinition {
    pub id: String,
    pub name: String,
    pub agent_id: String,
    pub description: String,
    pub keywords: Vec<String>,
    pub output_file: String,
    pub enabled: bool,
}

/// The default output-file template of a task.
pub fn default_output_file() -> (r: String)
    ensures
        r@ == "{home}/.demon/task-outputs/{agent}/{date}_{time}_{task}.md"@,
{
    let c = str_to_chars("{home}/.demon/task-outputs/{agent}/{date}_{time}_{task}.md");
    chars_to_string(&c)
}

/// The lower-case form of a text.
pub uninterp spec fn lower_of(s: Seq<char>) -> Seq<char>;

/// Relies on `str::to_lowercase`: the result depends on the characters
/// alone.
#[verifier::external_body]
pub fn lowercase(s: &str) -> (r: String)
    ensures
        r@ == lower_of(s@),
{
    s.to_lowercase()
}

/// Whether the lower-cased message mentions one of the task's keywords.
pub open spec fn spec_keyword_hit(msg_lower: Seq<char>, keywords: Seq<Seq<char>>) -> bool {
    exists|k: int|
        0 <= k < keywords.len() && spec_find(msg_lower, lower_of(keywords[k]), 0) is Some
}

/// Whether the task matches the message by keyword.
pub open spec fn spec_task_matches(msg_lower: Seq<char>, t: TaskDefinition) -> bool {
    t.enabled && spec_keyword_hit(msg_lower, t.keywords.deep_view())
}

/// Whether one of the trigger's keywords occurs in the lower-cased message.
fn task_keyword_hit(msg_lower: &Vec<char>, t: &TaskDefinition) -> (r: bool)
    ensures
        r == spec_keyword_hit(msg_lower@, t.keywords.deep_view()),
{
    let mut k: usize = 0;
    while k < t.keywords.len()
        invariant
            k <= t.keywords@.len(),
            t.keywords.deep_view().len() == t.keywords@.len(),
            forall|m: int|
                0 <= m < k ==> spec_find(
                    msg_lower@,
                    lower_of(t.keywords.deep_view()[m]),
                    0,
                ) is None,
        decreases t.keywords@.len() - k,
    {
        proof {
            assert(t.keywords.deep_view()[k as int] == t.keywords@[k as int]@);
        }
        let kw = lowercase(t.keywords[k].as_str());
        let kwc = str_to_chars(kw.as_str());
        if kwc.len() > 0 {
            match crate::text::find_from(msg_lower, &kwc, 0) {
                Some(_) => {
                    assert(spec_keyword_hit(msg_lower@, t.keywords.deep_view()));
                    return true;
                },
                None => {},
            }
        } else {
            // an empty keyword occurs at position zero of any message
            proof {
                assert(msg_lower@.subrange(0, 0) =~= kwc@);
                assert(spec_find(msg_lower@, kwc@, 0) is Some);
                assert(spec_keyword_hit(msg_lower@, t.keywords.deep_view()));
            }
            return true;
        }
        k += 1;
    }
    assert(!spec_keyword_hit(msg_lower@, t.keywords.deep_view()));
    false
}

/// The first enabled task one of whose keywords occurs in the lower-cased
/// message, by index; tasks are tried in order.
pub fn classify_by_keyword(message: &str, tasks: &Vec<TaskDefinition>) -> (r: Option<usize>)
    ensures
        (match r {
            Some(i) => 0 <= i < tasks@.len() && spec_task_matches(
                lower_of(message@),
                tasks@[i as int],
            ) && (forall|j: int|
                0 <= j < i ==> !spec_task_matches(lower_of(message@), tasks@[j])),
            None => forall|j: int|
                0 <= j < tasks@.len() ==> !spec_task_matches(lower_of(message@), tasks@[j]),
        }),
{
    let low = lowercase(message);
    let msg_lower = str_to_chars(low.as_str());
    let mut i: usize = 0;
    while i < tasks.len()
        invariant
            i <= tasks@.len(),
            msg_lower@ == lower_of(message@),
            forall|j: int| 0 <= j < i ==> !spec_task_matches(lower_of(message@), tasks@[j]),
        decreases tasks@.len() - i,
    {
        let t = &tasks[i];
        if t.enabled {
            if task_keyword_hit(&msg_lower, t) {
                return Some(i);
            }
        }
        i += 1;
    }
    None
}

/// Leading and trailing whitespace dropped.
pub open spec fn spec_trim(s: Seq<char>) -> Seq<char> {
    let a = crate::codec::spec_skip_ws(s, 0);
    let b = spec_trim_end_from(s, s.len() as int);
    if a <= b {
        s.subrange(a, b)
    } else {
        Seq::empty()
    }
}

/// The end of `s` with trailing whitespace dropped, scanning down from `e`.
pub open spec fn spec_trim_end_from(s: Seq<char>, e: int) -> int
    decreases e,
{
    if e <= 0 {
        0
    } else if e <= s.len() && crate::codec::is_ws(s[e - 1]) {
        spec_trim_end_from(s, e - 1)
    } else {
        e
    }
}

/// Drop leading and trailing whitespace.
pub fn trim_chars(s: &Vec<char>) -> (r: Vec<char>)
    ensures
        r@ == spec_trim(s@),
{
    let a = crate::codec::skip_ws(s, 0);
    let mut b = s.len();
    while b > 0 && (s[b - 1] == ' ' || s[b - 1] == '\t' || s[b - 1] == '\n' || s[b - 1] == '\r')
        invariant
            b <= s@.len(),
            spec_trim_end_from(s@, s@.len() as int) == spec_trim_end_from(s@, b as int),
        decreases b,
    {
        assert(spec_trim_end_from(s@, b as int) == spec_trim_end_from(s@, b - 1));
        b -= 1;
    }
    assert(spec_trim_end_from(s@, b as int) == b as int);
    if a <= b {
        crate::text::subvec(s, a, b)
    } else {
        let v: Vec<char> = Vec::new();
        assert(v@ =~= Seq::<char>::empty());
        v
    }
}

/// The task the model's answer names: the trimmed, lower-cased answer must
/// equal a task's lower-cased identifier; `none` and the empty answer name
/// nothing.
pub fn parse_classification_response(response: &str, tasks: &Vec<TaskDefinition>) -> (r:
    Option<usize>)
    ensures
        ({
            let wanted = spec_trim(lower_of(response@));
            match r {
                Some(i) => 0 <= i < tasks@.len() && wanted != "none"@ && wanted.len() > 0
                    && lower_of(tasks@[i as int].id@) == wanted && (forall|j: int|
                    0 <= j < i ==> lower_of(tasks@[j].id@) != wanted),
                None => wanted == "none"@ || wanted.len() == 0 || (forall|j: int|
                    0 <= j < tasks@.len() ==> lower_of(tasks@[j].id@) != wanted),
            }
        }),
{
    let low = lowercase(response);
    let lowc = str_to_chars(low.as_str());
    let wanted = trim_chars(&lowc);
    if crate::text::chars_eq_str(&wanted, "none") {
        return None;
    }
    if wanted.len() == 0 {
        return None;
    }
    let mut i: usize = 0;
    while i < tasks.len()
        invariant
            i <= tasks@.len(),
            wanted@ == spec_trim(lower_of(response@)),
            wanted@ != "none"@,
            wanted@.len() > 0,
            forall|j: int| 0 <= j < i ==> lower_of(tasks@[j].id@) != wanted@,
        decreases tasks@.len() - i,
    {
        let idl = lowercase(tasks[i].id.as_str());
        let idc = str_to_chars(idl.as_str());
        if crate::text::chars_eq(&idc, &wanted) {
            return Some(i);
        }
        i += 1;
    }
    None
}

/// The first task whose name or identifier equals `name`, by index.
pub fn find_task_by_name(tasks: &Vec<TaskDefinition>, name: &str) -> (r: Option<usize>)
    ensures
        (match r {
            Some(i) => 0 <= i < tasks@.len() && (tasks@[i as int].name@ == name@
                || tasks@[i as int].id@ == name@) && (forall|j: int|
                0 <= j < i ==> tasks@[j].name@ != name@ && tasks@[j].id@ != name@),
            None => forall|j: int|
                0 <= j < tasks@.len() ==> tasks@[j].name@ != name@ && tasks@[j].id@ != name@,
        }),
{
    let mut i: usize = 0;
    while i < tasks.len()
        invariant
            i <= tasks@.len(),
            forall|j: int| 0 <= j < i ==> tasks@[j].name@ != name@ && tasks@[j].id@ != name@,
        decreases tasks@.len() - i,
    {
        let nc = str_to_chars(tasks[i].name.as_str());
        if crate::text::chars_eq_str(&nc, name) {
            return Some(i);
        }
        let ic = str_to_chars(tasks[i].id.as_str());
        if crate::text::chars_eq_str(&ic, name) {
            return Some(i);
        }
        i += 1;
    }
    None
}

/// The first agent with this identifier, by index.
pub fn find_agent(agents: &Vec<AgentProfile>, agent_id: &str) -> (r: Option<usize>)
    ensures
        (match r {
            Some(i) => 0 <= i < agents@.len() && agents@[i as int].id@ == agent_id@ && (forall|
                j: int,
            |
                0 <= j < i ==> agents@[j].id@ != agent_id@),
            None => forall|j: int| 0 <= j < agents@.len() ==> agents@[j].id@ != agent_id@,
        }),
{
    let mut i: usize = 0;
    while i < agents.len()
        invariant
            i <= agents@.len(),
            forall|j: int| 0 <= j < i ==> agents@[j].id@ != agent_id@,
        decreases agents@.len() - i,
    {
        let ic = str_to_chars(agents[i].id.as_str());
        if crate::text::chars_eq_str(&ic, agent_id) {
            return Some(i);
        }
        i += 1;
    }
    None
}

/// A path template with its variables substituted: `{home}`, `{agent}`,
/// `{task}`, `{date}` and `{time}`, in that order, and a leading `~/`
/// expanded to the home directory.
pub open spec fn spec_expand_template(
    template: Seq<char>,
    task_id: Seq<char>,
    agent_id: Seq<char>,
    home: Seq<char>,
    date: Seq<char>,
    time: Seq<char>,
) -> Seq<char> {
    let s1 = crate::text::spec_replace_all(template, "{home}"@, home);
    let s2 = crate::text::spec_replace_all(s1, "{agent}"@, agent_id);
    let s3 = crate::text::spec_replace_all(s2, "{task}"@, task_id);
    let s4 = crate::text::spec_replace_all(s3, "{date}"@, date);
    let s5 = crate::text::spec_replace_all(s4, "{time}"@, time);
    if s5.len() >= 2 && s5[0] == '~' && s5[1] == '/' {
        home + s5.skip(1)
    } else {
        s5
    }
}

/// Substitute template variables with the given values.
pub fn expand_template(
    template: &str,
    task_id: &str,
    agent_id: &str,
    home: &str,
    date: &str,
    time: &str,
) -> (r: String)
    ensures
        r@ == spec_expand_template(template@, task_id@, agent_id@, home@, date@, time@),
{
    let tc = str_to_chars(template);
    let homec = str_to_chars(home);
    let taskc = str_to_chars(task_id);
    let agentc = str_to_chars(agent_id);
    let datec = str_to_chars(date);
    let timec = str_to_chars(time);
    let p1 = str_to_chars("{home}");
    let p2 = str_to_chars("{agent}");
    let p3 = str_to_chars("{task}");
    let p4 = str_to_chars("{date}");
    let p5 = str_to_chars("{time}");
    proof {
        reveal_strlit("{home}");
        reveal_strlit("{agent}");
        reveal_strlit("{task}");
        reveal_strlit("{date}");
        reveal_strlit("{time}");
    }
    let s1 = crate::text::replace_all(&tc, &p1, &homec);
    let s2 = crate::text::replace_all(&s1, &p2, &agentc);
    let s3 = crate::text::replace_all(&s2, &p3, &taskc);
    let s4 = crate::text::replace_all(&s3, &p4, &datec);
    let s5 = crate::text::replace_all(&s4, &p5, &timec);
    if s5.len() >= 2 && s5[0] == '~' && s5[1] == '/' {
        let mut out: Vec<char> = Vec::new();
        crate::text::push_all(&mut out, &homec);
        let tail = crate::text::subvec(&s5, 1, s5.len());
        proof {
            assert(tail@ =~= s5@.skip(1));
        }
        crate::text::push_all(&mut out, &tail);
        chars_to_string(&out)
    } else {
        chars_to_string(&s5)
    }
}

/// Expand a task's output-path template against the current home directory
/// and the local date and time.  The home directory and the clock belong to
/// the host, so the result is pinned only relative to some such values.
pub fn expand_path_template(template: &str, task_id: &str, agent_id: &str) -> (r: String)
    ensures
        exists|home: Seq<char>, date: Seq<char>, time: Seq<char>|
            r@ == spec_expand_template(template@, task_id@, agent_id@, home, date, time),
{
    let home = match crate::host::home_dir_string() {
        Some(h) => h,
        None => {
            let c = str_to_chars(".");
            chars_to_string(&c)
        },
    };
    let (date, time) = crate::host::now_local_stamp();
    let r = expand_template(
        template,
        task_id,
        agent_id,
        home.as_str(),
        date.as_str(),
        time.as_str(),
    );
    proof {
        assert(r@ == spec_expand_template(
            template@,
            task_id@,
            agent_id@,
            home@,
            date@,
            time@,
        ));
    }
    r
}

} // verus!
