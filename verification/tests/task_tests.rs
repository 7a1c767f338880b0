use cc_demon::gateway::strip_task_prefix;
use cc_demon::output::extract_result;
use cc_demon::output::parse_run_output;
use cc_demon::task::{
    classify_by_keyword, expand_path_template, expand_template, find_agent, find_task_by_name,
    parse_classification_response, AgentProfile, TaskDefinition,
};

fn task(id: &str, name: &str, keywords: &[&str], enabled: bool) -> TaskDefinition {
    TaskDefinition {
        id: id.to_string(),
        name: name.to_string(),
        agent_id: "agent-1".to_string(),
        description: "a task".to_string(),
        keywords: keywords.iter().map(|k| k.to_string()).collect(),
        output_file: cc_demon::task::default_output_file(),
        enabled,
    }
}

fn agent(id: &str) -> AgentProfile {
    AgentProfile {
        id: id.to_string(),
        name: id.to_string(),
        working_dir: "~/projects".to_string(),
        model: "sonnet".to_string(),
        fallback_model: String::new(),
        max_turns: 10,
        max_budget_cents: 500,
        allowed_tools: Vec::new(),
        disallowed_tools: Vec::new(),
        system_prompt: String::new(),
        append_system_prompt: String::new(),
        mcp_config: String::new(),
    }
}

#[test]
fn test_expand_path_template() {
    let path = expand_path_template(
        "{home}/.demon/output/{agent}/{date}_{task}.md",
        "my-task",
        "my-agent",
    );

    assert!(path.contains("my-agent"));
    assert!(path.contains("my-task"));
    assert!(path.contains(".demon/output"));
}

#[test]
fn test_expand_tilde() {
    let path = expand_path_template("~/projects/{agent}", "task", "agent");

    // Must not start with ~/
    assert!(!path.starts_with("~/"));
}

#[test]
fn test_expand_template_exact() {
    let r = expand_template(
        "{home}/out/{agent}/{date}_{time}_{task}.md",
        "t1",
        "a1",
        "/home/u",
        "2026-01-02",
        "03-04-05",
    );
    assert_eq!(r, "/home/u/out/a1/2026-01-02_03-04-05_t1.md");
    let r2 = expand_template("~/x/{task}", "t", "a", "/h", "d", "m");
    assert_eq!(r2, "/h/x/t");
}

#[test]
fn test_classify_by_keyword_first_match() {
    let tasks = vec![
        task("off", "Disabled", &["deploy"], false),
        task("deploy", "Deploy", &["deploy", "ship"], true),
        task("status", "Status", &["status"], true),
    ];
    assert_eq!(classify_by_keyword("please DEPLOY the site", &tasks), Some(1));
    assert_eq!(classify_by_keyword("what is the Status?", &tasks), Some(2));
    assert_eq!(classify_by_keyword("nothing relevant", &tasks), None);
}

#[test]
fn test_parse_classification_response_forms() {
    let tasks = vec![task("deploy", "Deploy", &[], true), task("status", "Status", &[], true)];
    assert_eq!(parse_classification_response("  Deploy \n", &tasks), Some(0));
    assert_eq!(parse_classification_response("status", &tasks), Some(1));
    assert_eq!(parse_classification_response("none", &tasks), None);
    assert_eq!(parse_classification_response("   ", &tasks), None);
    assert_eq!(parse_classification_response("unknown-id", &tasks), None);
}

#[test]
fn test_find_task_and_agent() {
    let tasks = vec![task("t1", "First", &[], true), task("t2", "Second", &[], true)];
    assert_eq!(find_task_by_name(&tasks, "Second"), Some(1));
    assert_eq!(find_task_by_name(&tasks, "t1"), Some(0));
    assert_eq!(find_task_by_name(&tasks, "missing"), None);

    let agents = vec![agent("a1"), agent("a2")];
    assert_eq!(find_agent(&agents, "a2"), Some(1));
    assert_eq!(find_agent(&agents, "a3"), None);
}

#[test]
fn test_extract_result_is_identity() {
    let json = "{\"result\":\"inner\",\"session_id\":\"s\"}";
    assert_eq!(extract_result(json), json);
    assert_eq!(extract_result("plain text"), "plain text");
}

#[test]
fn test_parse_run_output_forms() {
    let (text, sid) =
        parse_run_output("{\"result\":\"done\",\"session_id\":\"s-1\"}");
    assert_eq!(text, "done");
    assert_eq!(sid, Some("s-1".to_string()));
    let (text, sid) = parse_run_output("{\"other\":1}");
    assert_eq!(text, "{\"other\":1}");
    assert_eq!(sid, None);
    let (text, sid) = parse_run_output("not json at all");
    assert_eq!(text, "not json at all");
    assert_eq!(sid, None);
}

#[test]
fn test_strip_task_prefix_forms() {
    assert_eq!(strip_task_prefix("/task do the thing"), Some("do the thing".to_string()));
    assert_eq!(strip_task_prefix("/taskless"), None);
    assert_eq!(strip_task_prefix("hello"), None);
}
