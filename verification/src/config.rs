//! Daemon configuration: paths under the base directory, gateway settings,
//! job defaults, and job definitions.
//!
//! Budgets are held in cents so that every amount is an exact integer.
//! Loading and saving the configuration files is I/O and lives outside this
//! crate; the types here are the plain data the daemon's decisions read.

use vstd::prelude::*;

use crate::formatter::MessageFormat;
use crate::text::{chars_to_string, str_to_chars};

verus! {

/// Where the daemon keeps its files.
#[derive(Debug, Clone)]
pub struct PathsConfig {
    /// The base directory; when absent, a directory under the user's home.
    pub base_dir: Option<String>,
}

impl Default for PathsConfig {
    /// By default no base directory is set.
    fn default() -> (r: PathsConfig)
        ensures
            r.base_dir is None,
    {
        PathsConfig { base_dir: None }
    }
}

/// `base` with `/` and `name` appended.
pub open spec fn spec_path_join(base: Seq<char>, name: Seq<char>) -> Seq<char> {
    base + seq!['/'] + name
}

/// Join a base directory and a file name.
fn path_join(base: &str, name: &str) -> (r: String)
    ensures
        r@ == spec_path_join(base@, name@),
{
    let mut out: Vec<char> = Vec::new();
    crate::text::push_str_chars(&mut out, base);
    out.push('/');
    crate::text::push_str_chars(&mut out, name);
    proof {
        assert(out@ =~= spec_path_join(base@, name@));
    }
    chars_to_string(&out)
}

impl PathsConfig {
    /// The base directory: the configured one, else `.demon` under the
    /// user's home (or bare `.demon` when the platform knows no home).
    pub fn base_dir(&self) -> (r: String)
        ensures
            (self.base_dir matches Some(b) ==> r@ == b@),
            self.base_dir is None ==> r@ == ".demon"@ || (exists|home: Seq<char>|
                r@ == spec_path_join(home, ".demon"@)),
    {
        match &self.base_dir {
            Some(b) => {
                let c = str_to_chars(b.as_str());
                chars_to_string(&c)
            },
            None => {
                match crate::host::home_dir_string() {
                    Some(h) => path_join(h.as_str(), ".demon"),
                    None => {
                        let c = str_to_chars(".demon");
                        chars_to_string(&c)
                    },
                }
            },
        }
    }

    /// The daemon configuration file.
    pub fn config_file(&self) -> (r: String)
        ensures
            (exists|base: Seq<char>|
                r@ == #[trigger] spec_path_join(base, "config.toml"@) && (self.base_dir matches Some(
                    b,
                ) ==> base == b@)),
    {
        let base = self.base_dir();
        let r = path_join(base.as_str(), "config.toml");
        proof {
            assert(r@ == spec_path_join(base@, "config.toml"@));
        }
        r
    }

    /// The job definitions file.
    pub fn jobs_file(&self) -> (r: String)
        ensures
            (exists|base: Seq<char>|
                r@ == #[trigger] spec_path_join(base, "jobs.toml"@) && (self.base_dir matches Some(
                    b,
                ) ==> base == b@)),
    {
        let base = self.base_dir();
        let r = path_join(base.as_str(), "jobs.toml");
        proof {
            assert(r@ == spec_path_join(base@, "jobs.toml"@));
        }
        r
    }

    /// The directory job output is saved under.
    pub fn output_dir(&self) -> (r: String)
        ensures
            (exists|base: Seq<char>|
                r@ == #[trigger] spec_path_join(base, "output"@) && (self.base_dir matches Some(
                    b,
                ) ==> base == b@)),
    {
        let base = self.base_dir();
        let r = path_join(base.as_str(), "output");
        proof {
            assert(r@ == spec_path_join(base@, "output"@));
        }
        r
    }

    /// The directory log files live in.
    pub fn logs_dir(&self) -> (r: String)
        ensures
            (exists|base: Seq<char>|
                r@ == #[trigger] spec_path_join(base, "logs"@) && (self.base_dir matches Some(
                    b,
                ) ==> base == b@)),
    {
        let base = self.base_dir();
        let r = path_join(base.as_str(), "logs");
        proof {
            assert(r@ == spec_path_join(base@, "logs"@));
        }
        r
    }

    /// The daemon's PID file.
    pub fn pid_file(&self) -> (r: String)
        ensures
            (exists|base: Seq<char>|
                r@ == #[trigger] spec_path_join(base, "demon.pid"@) && (self.base_dir matches Some(
                    b,
                ) ==> base == b@)),
    {
        let base = self.base_dir();
        let r = path_join(base.as_str(), "demon.pid");
        proof {
            assert(r@ == spec_path_join(base@, "demon.pid"@));
        }
        r
    }

    /// The agent profiles file.
    pub fn agents_file(&self) -> (r: String)
        ensures
            (exists|base: Seq<char>|
                r@ == #[trigger] spec_path_join(base, "agents.toml"@) && (self.base_dir matches Some(
                    b,
                ) ==> base == b@)),
    {
        let base = self.base_dir();
        let r = path_join(base.as_str(), "agents.toml");
        proof {
            assert(r@ == spec_path_join(base@, "agents.toml"@));
        }
        r
    }

    /// The task definitions file.
    pub fn tasks_file(&self) -> (r: String)
        ensures
            (exists|base: Seq<char>|
                r@ == #[trigger] spec_path_join(base, "tasks.toml"@) && (self.base_dir matches Some(
                    b,
                ) ==> base == b@)),
    {
        let base = self.base_dir();
        let r = path_join(base.as_str(), "tasks.toml");
        proof {
            assert(r@ == spec_path_join(base@, "tasks.toml"@));
        }
        r
    }

    /// The directory task output is saved under.
    pub fn task_outputs_dir(&self) -> (r: String)
        ensures
            (exists|base: Seq<char>|
                r@ == #[trigger] spec_path_join(base, "task-outputs"@) && (self.base_dir matches Some(
                    b,
                ) ==> base == b@)),
    {
        let base = self.base_dir();
        let r = path_join(base.as_str(), "task-outputs");
        proof {
            assert(r@ == spec_path_join(base@, "task-outputs"@));
        }
        r
    }
}

/// Chat-gateway settings.
#[derive(Debug, Clone)]
pub struct GatewayConfig {
    pub enabled: bool,
    pub bot_token: String,
    pub allowed_chat_ids: Vec<i64>,
    pub default_model: String,
    pub max_turns: u32,
    /// Budget per session, in cents.
    pub max_budget_cents: u64,
    pub allowed_tools: Vec<String>,
    pub disallowed_tools: Vec<String>,
    pub append_system_prompt: String,
    /// Seconds of inactivity before a new session, in spawn mode.
    pub session_timeout_secs: u64,
    /// Whether to keep one persistent session rather than spawning per
    /// message.
    pub use_persistent_session: bool,
    pub tmux_session_name: String,
    pub prompt_marker: String,
    pub compact_interval_secs: u64,
    pub message_format: MessageFormat,
}

/// The default model name.
pub fn default_model() -> (r: String)
    ensures
        r@ == "sonnet"@,
{
    let c = str_to_chars("sonnet");
    chars_to_string(&c)
}

/// The default turn limit for one-shot jobs.
pub fn default_max_turns() -> (r: u32)
    ensures
        r == 10,
{
    10
}

/// The default budget for one-shot jobs, in cents.
pub fn default_max_budget_cents() -> (r: u64)
    ensures
        r == 500,
{
    500
}

/// The default output format for jobs.
pub fn default_output_format() -> (r: String)
    ensures
        r@ == "json"@,
{
    let c = str_to_chars("json");
    chars_to_string(&c)
}

/// The default name of the persistent session.
pub fn default_tmux_session_name() -> (r: String)
    ensures
        r@ == "cc-demon-gateway"@,
{
    let c = str_to_chars("cc-demon-gateway");
    chars_to_string(&c)
}

/// The default prompt marker of the interactive subprocess.
pub fn default_prompt_marker() -> (r: String)
    ensures
        r@ == "\u{276F}"@,
{
    let c = str_to_chars("\u{276F}");
    chars_to_string(&c)
}

/// The default compaction interval, in seconds.
pub fn default_compact_interval() -> (r: u64)
    ensures
        r == 3600,
{
    3600
}

/// The default idle timeout before a new session, in seconds.
pub fn default_session_timeout() -> (r: u64)
    ensures
        r == 3600,
{
    3600
}

/// The default schedule type of a job.
pub fn default_recurring() -> (r: String)
    ensures
        r@ == "recurring"@,
{
    let c = str_to_chars("recurring");
    chars_to_string(&c)
}

/// The default output destinations of a job.
pub fn default_output_destinations() -> (r: Vec<String>)
    ensures
        r.deep_view() == seq!["file"@],
{
    let c = str_to_chars("file");
    let s = chars_to_string(&c);
    let mut v: Vec<String> = Vec::new();
    v.push(s);
    proof {
        assert(v.deep_view() =~~= seq!["file"@]);
    }
    v
}

/// The default for flags that start enabled.
pub fn default_true() -> (r: bool)
    ensures
        r,
{
    true
}

impl Default for GatewayConfig {
    /// The gateway starts disabled, with empty credentials and the stock
    /// limits.
    fn default() -> (r: GatewayConfig)
        ensures
            !r.enabled,
            r.bot_token@ == Seq::<char>::empty(),
            r.allowed_chat_ids@ == Seq::<i64>::empty(),
            r.default_model@ == "sonnet"@,
            r.max_turns == 10,
            r.max_budget_cents == 500,
            r.session_timeout_secs == 3600,
            !r.use_persistent_session,
            r.tmux_session_name@ == "cc-demon-gateway"@,
            r.prompt_marker@ == "\u{276F}"@,
            r.compact_interval_secs == 3600,
            r.message_format == MessageFormat::MarkdownV2,
    {
        GatewayConfig {
            enabled: false,
            bot_token: String::new(),
            allowed_chat_ids: Vec::new(),
            default_model: default_model(),
            max_turns: default_max_turns(),
            max_budget_cents: default_max_budget_cents(),
            allowed_tools: Vec::new(),
            disallowed_tools: Vec::new(),
            append_system_prompt: String::new(),
            session_timeout_secs: default_session_timeout(),
            use_persistent_session: false,
            tmux_session_name: default_tmux_session_name(),
            prompt_marker: default_prompt_marker(),
            compact_interval_secs: default_compact_interval(),
            message_format: MessageFormat::MarkdownV2,
        }
    }
}

/// Defaults applied to jobs that leave a field out.
#[derive(Debug, Clone)]
pub struct JobDefaults {
    pub model: String,
    pub fallback_model: String,
    pub max_turns: u32,
    /// Budget in cents.
    pub max_budget_cents: u64,
    pub output_format: String,
}

impl Default for JobDefaults {
    /// The stock job defaults.
    fn default() -> (r: JobDefaults)
        ensures
            r.model@ == "sonnet"@,
            r.fallback_model@ == Seq::<char>::empty(),
            r.max_turns == 10,
            r.max_budget_cents == 500,
            r.output_format@ == "json"@,
    {
        JobDefaults {
            model: default_model(),
            fallback_model: String::new(),
            max_turns: default_max_turns(),
            max_budget_cents: default_max_budget_cents(),
            output_format: default_output_format(),
        }
    }
}

/// One scheduled job.
#[derive(Debug, Clone)]
pub struct Job {
    pub id: String,
    pub name: String,
    /// `recurring` or `once`.
    pub schedule_type: String,
    /// Cron expression, for recurring jobs.
    pub schedule: String,
    /// Fire time, for one-shot jobs.
    pub once_at: Option<String>,
    pub prompt: String,
    pub working_dir: String,
    pub model: String,
    pub fallback_model: String,
    pub allowed_tools: Vec<String>,
    pub disallowed_tools: Vec<String>,
    pub system_prompt: String,
    pub append_system_prompt: String,
    pub mcp_config: String,
    pub max_turns: u32,
    /// Budget in cents.
    pub max_budget_cents: u64,
    pub output_format: String,
    pub output_destinations: Vec<String>,
    pub enabled: bool,
}

/// The daemon's whole configuration.
#[derive(Debug, Clone)]
pub struct DemonConfig {
    pub paths: PathsConfig,
    pub gateway: GatewayConfig,
    pub defaults: JobDefaults,
}

impl Default for DemonConfig {
    /// Every section at its default.
    fn default() -> (r: DemonConfig)
        ensures
            r.paths.base_dir is None,
            !r.gateway.enabled,
    {
        DemonConfig {
            paths: PathsConfig::default(),
            gateway: GatewayConfig::default(),
            defaults: JobDefaults::default(),
        }
    }
}

/// The daemon's log file: `demon.jsonl` under the default logs directory.
pub fn log_file_path() -> (r: String)
    ensures
        (exists|base: Seq<char>|
            r@ == #[trigger] spec_path_join(
                spec_path_join(base, "logs"@),
                "demon.jsonl"@,
            )),
{
    let paths = PathsConfig::default();
    let dir = paths.logs_dir();
    let r = path_join(dir.as_str(), "demon.jsonl");
    proof {
        let base = choose|base: Seq<char>|
            dir@ == #[trigger] spec_path_join(base, "logs"@) && (paths.base_dir matches Some(
                b,
            ) ==> base == b@);
        assert(r@ == spec_path_join(spec_path_join(base, "logs"@), "demon.jsonl"@));
    }
    r
}

/// Format a byte count as a human-readable size: whole bytes below a
/// kibibyte, otherwise the value in KB, MB or GB with two digits after the
/// point, rounded to the nearest hundredth with ties to the even hundredth
/// (the rule two-decimal formatting applies to these exact binary
/// quotients).
pub open spec fn spec_format_size(bytes: u64) -> Seq<char> {
    let kb: int = 1024;
    let mb: int = kb * 1024;
    let gb: int = mb * 1024;
    if bytes >= gb {
        spec_size_with_unit(bytes as int, gb, " GB"@)
    } else if bytes >= mb {
        spec_size_with_unit(bytes as int, mb, " MB"@)
    } else if bytes >= kb {
        spec_size_with_unit(bytes as int, kb, " KB"@)
    } else {
        crate::text::spec_dec(bytes as nat) + " bytes"@
    }
}

/// The quotient in hundredths, rounded to nearest with ties to even.
pub open spec fn spec_round_hundredths(bytes: int, unit: int) -> int {
    let q = (bytes * 100) / unit;
    let r = (bytes * 100) % unit;
    if 2 * r > unit {
        q + 1
    } else if 2 * r < unit {
        q
    } else if q % 2 == 0 {
        q
    } else {
        q + 1
    }
}

/// A size in hundredths of `unit`, written with two digits after the point.
pub open spec fn spec_size_with_unit(bytes: int, unit: int, suffix: Seq<char>) -> Seq<char> {
    let hundredths = spec_round_hundredths(bytes, unit);
    let whole = hundredths / 100;
    let frac = hundredths % 100;
    crate::text::spec_dec(whole as nat) + seq!['.'] + seq![
        crate::codec::hex_digit_char((frac / 10) as u32),
        crate::codec::hex_digit_char((frac % 10) as u32),
    ] + suffix
}

/// Format a byte count as a human-readable size.
pub fn format_size(bytes: u64) -> (r: String)
    ensures
        r@ == spec_format_size(bytes),
{
    let kb: u128 = 1024;
    let mb: u128 = kb * 1024;
    let gb: u128 = mb * 1024;
    let b = bytes as u128;
    if b >= gb {
        size_with_unit(b, gb, " GB")
    } else if b >= mb {
        size_with_unit(b, mb, " MB")
    } else if b >= kb {
        size_with_unit(b, kb, " KB")
    } else {
        let mut out = crate::text::dec_chars(bytes);
        crate::text::push_str_chars(&mut out, " bytes");
        chars_to_string(&out)
    }
}

/// A size in hundredths of `unit`, written with two digits after the point.
fn size_with_unit(bytes: u128, unit: u128, suffix: &str) -> (r: String)
    requires
        bytes <= u64::MAX as u128,
        1024 <= unit <= 0x10000000000u128,
    ensures
        r@ == spec_size_with_unit(bytes as int, unit as int, suffix@),
{
    let num = bytes * 100;
    let q = num / unit;
    let rm = num % unit;
    let hundredths = if 2 * rm > unit {
        q + 1
    } else if 2 * rm < unit {
        q
    } else if q % 2 == 0 {
        q
    } else {
        q + 1
    };
    proof {
        assert(hundredths as int == spec_round_hundredths(bytes as int, unit as int));
    }
    let whole = hundredths / 100;
    let frac = (hundredths % 100) as u32;
    let mut out = crate::text::dec_chars_u128(whole);
    out.push('.');
    out.push(crate::codec::hex_char(frac / 10));
    out.push(crate::codec::hex_char(frac % 10));
    crate::text::push_str_chars(&mut out, suffix);
    proof {
        assert(out@ =~= spec_size_with_unit(bytes as int, unit as int, suffix@));
    }
    chars_to_string(&out)
}

} // verus!
