use devproc::mcp::{method_of, port_param, required_text, unknown_method_message, McpMethod, RequestError, INTERNAL_ERROR};

#[test]
fn mcp_methods_and_parameters() {
    assert_eq!(method_of("list_processes"), Some(McpMethod::ListProcesses));
    assert_eq!(method_of("list_scripts"), Some(McpMethod::ListScripts));
    assert_eq!(method_of("start_script"), Some(McpMethod::StartScript));
    assert_eq!(method_of("kill_process"), Some(McpMethod::KillProcess));
    assert_eq!(method_of("get_process_detail"), Some(McpMethod::GetProcessDetail));
    assert_eq!(method_of("shutdown"), None);
    assert_eq!(unknown_method_message("shutdown"), "Unknown method: shutdown");
    assert_eq!(port_param(Some(3000)), Some(3000));
    assert_eq!(port_param(Some(65536 + 80)), Some(80));
    assert_eq!(port_param(None), None);
    assert_eq!(INTERNAL_ERROR, -32603);
}

#[test]
fn mcp_required_parameters() {
    assert_eq!(
        required_text(false, Some("dev".to_string()), RequestError::MissingScriptName),
        Err(RequestError::MissingParameters)
    );
    assert_eq!(required_text(true, None, RequestError::MissingScriptName), Err(RequestError::MissingScriptName));
    assert_eq!(required_text(true, Some("web".to_string()), RequestError::MissingProcessName), Ok("web".to_string()));
    assert_eq!(RequestError::MissingParameters.message(), "Missing parameters");
    assert_eq!(RequestError::MissingScriptName.message(), "Missing script name");
    assert_eq!(RequestError::MissingProcessName.message(), "Missing process name");
}
