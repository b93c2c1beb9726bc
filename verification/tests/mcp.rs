use golem_cli::mcp::{
    server_details, server_info, server_settings_for, McpServerCommandHandler,
    McpServerSubcommand, DEFAULT_PORT, DEFAULT_TIMEOUT_SECS,
};
use golem_cli::tools::{
    checked_package_name, takes_log_lines, tool_reply, BuildComponentTool, CreateNewComponentTool, DeployComponentTool,
    FilterTemplatesComponentTool, ListComponentTool, ToolCommand, UpdateComponentTool,
};
use std::sync::Arc;

#[test]
fn handler_keeps_its_context() {
    let ctx = Arc::new(42u32);
    let handler = McpServerCommandHandler::new(ctx.clone());
    assert_eq!(**handler.ctx(), 42);
    assert!(Arc::ptr_eq(handler.ctx(), &ctx));
}

#[test]
fn server_settings_default_port_and_timeout() {
    let handler = McpServerCommandHandler::new(Arc::new(()));
    let s = handler.server_settings(McpServerSubcommand::Run { port: None, timeout: None });
    assert_eq!(s.host, "127.0.0.1");
    assert_eq!(s.port, 8080);
    assert_eq!(s.timeout_secs, 6);
    assert_eq!((DEFAULT_PORT, DEFAULT_TIMEOUT_SECS), (8080, 6));
    let s = server_settings_for(Some(9000), Some(30));
    assert_eq!((s.port, s.timeout_secs), (9000, 30));
}

#[test]
fn server_descriptions() {
    let d = server_details();
    assert_eq!(d.name, "Golem Cli Mcp Server");
    assert_eq!(d.version, "0.1.0");
    assert_eq!(d.instructions, "Help user to do what normally they can do using golem cli directly");
    assert!(d.tools);
    assert!(d.protocol_version.is_none());
    let i = server_info();
    assert_eq!(i.instructions, "Help user to do what normally they can do using golem cli");
    assert_eq!(i.protocol_version.as_deref(), Some("2025-03-26"));
}

#[test]
fn create_runs_new_and_update_runs_update() {
    let c = CreateNewComponentTool::new("rust".into(), "golem:demo".into());
    let u = UpdateComponentTool::new("ts".into(), "golem:other:1.0".into());
    match c.command() {
        ToolCommand::New { template, package_name } => {
            assert_eq!(template, "rust");
            assert_eq!(package_name.as_deref(), Some("golem:demo"));
        }
        _ => panic!("expected new"),
    }
    match u.command() {
        ToolCommand::Update { template, package_name } => {
            assert_eq!(template, "ts");
            assert_eq!(package_name, None);
        }
        _ => panic!("expected update"),
    }
    match UpdateComponentTool::new("rust".into(), "golem:demo".into()).command() {
        ToolCommand::Update { template, package_name } => {
            assert_eq!(template, "rust");
            assert_eq!(package_name.as_deref(), Some("golem:demo"));
        }
        _ => panic!("expected update"),
    }
    assert_eq!(c.template(), "rust");
    assert_eq!(u.component_package_name(), "golem:other:1.0");
}

#[test]
fn build_deploy_list_filter_commands() {
    let names = vec!["a:b".to_string(), "c:d".to_string()];
    match BuildComponentTool::new(names.clone()).command() {
        ToolCommand::Build { component_names } => assert_eq!(component_names, names),
        _ => panic!("expected build"),
    }
    match DeployComponentTool::new(names.clone()).command() {
        ToolCommand::Deploy { component_names } => assert_eq!(component_names, names),
        _ => panic!("expected deploy"),
    }
    match ListComponentTool::new(Some("a:b".into())).command() {
        ToolCommand::List { component_name } => assert_eq!(component_name.as_deref(), Some("a:b")),
        _ => panic!("expected list"),
    }
    match FilterTemplatesComponentTool::new(None).command() {
        ToolCommand::Templates { filter } => assert!(filter.is_none()),
        _ => panic!("expected templates"),
    }
}

#[test]
fn replies_carry_log_lines_except_for_deploy() {
    let lines = vec!["built".to_string()];
    let build = BuildComponentTool::new(vec![]).command();
    let r = tool_reply(&build, Ok(()), Ok(()), lines.clone()).unwrap();
    assert_eq!(r.content, lines);
    assert!(r.is_error.is_none());
    let deploy = DeployComponentTool::new(vec![]).command();
    assert!(!deploy.reports_log());
    let r = tool_reply(&deploy, Ok(()), Ok(()), lines.clone()).unwrap();
    assert!(r.content.is_empty());
}

#[test]
fn failures_are_passed_on() {
    let list = ListComponentTool::new(None).command();
    let e = tool_reply(&list, Err("no context".to_string()), Ok(()), vec!["x".to_string()]).unwrap_err();
    assert_eq!(e.message, "no context");
    let e = tool_reply(&list, Ok(()), Err("no such component".to_string()), vec!["x".to_string()])
        .unwrap_err();
    assert_eq!(e.message, "no such component");
}

#[test]
fn template_listing_answers_with_its_log_once_the_context_exists() {
    let templates = FilterTemplatesComponentTool::new(Some("rust".into())).command();
    let lines = vec!["rust: a template".to_string()];
    let r = tool_reply(&templates, Ok(()), Err("listing failed".to_string()), lines.clone()).unwrap();
    assert_eq!(r.content, lines);
    assert!(r.is_error.is_none());
    let r = tool_reply(&templates, Ok(()), Ok(()), lines.clone()).unwrap();
    assert_eq!(r.content, lines);
    let e = tool_reply(&templates, Err("no context".to_string()), Ok(()), lines).unwrap_err();
    assert_eq!(e.message, "no context");
}

#[test]
fn package_names_have_two_non_empty_parts() {
    assert_eq!(checked_package_name("a:b").as_deref(), Some("a:b"));
    assert_eq!(checked_package_name("ab"), None);
    assert_eq!(checked_package_name(":b"), None);
    assert_eq!(checked_package_name("a:"), None);
    assert_eq!(checked_package_name("a:b:c"), None);
}

#[test]
fn log_lines_are_taken_where_the_answer_carries_them() {
    let build = BuildComponentTool::new(vec![]).command();
    let deploy = DeployComponentTool::new(vec![]).command();
    let templates = FilterTemplatesComponentTool::new(None).command();
    assert!(takes_log_lines(&build, true, true));
    assert!(!takes_log_lines(&build, true, false));
    assert!(!takes_log_lines(&build, false, true));
    assert!(!takes_log_lines(&deploy, true, true));
    assert!(takes_log_lines(&templates, true, false));
    assert!(takes_log_lines(&templates, true, true));
    assert!(!takes_log_lines(&templates, false, true));
}
