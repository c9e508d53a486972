use fornax_types::policy::action_classification::classify_shell_command;
use fornax_types::{classify_action_class, ActionClass, Json, JsonNumber, Provider};

fn bash_input(command: &str) -> Json {
    Json::Object(vec![("command".to_string(), Json::Text(command.to_string()))])
}

#[test]
fn claude_edit_write_multiedit_notebookedit_are_code_edit() {
    for tool in ["Edit", "Write", "MultiEdit", "NotebookEdit"] {
        assert_eq!(
            classify_action_class(Provider::ClaudeCode, tool, None),
            ActionClass::CodeEdit,
            "tool={tool}"
        );
    }
}

#[test]
fn claude_webfetch_and_websearch_are_network_fetch() {
    for tool in ["WebFetch", "WebSearch"] {
        assert_eq!(
            classify_action_class(Provider::ClaudeCode, tool, None),
            ActionClass::NetworkFetch,
            "tool={tool}"
        );
    }
}

#[test]
fn claude_read_only_tools_are_unrecognized_not_guessed() {
    for tool in ["Read", "Glob", "Grep", "Task", "TodoWrite"] {
        assert_eq!(
            classify_action_class(Provider::ClaudeCode, tool, None),
            ActionClass::Unrecognized(tool.to_string()),
            "tool={tool}"
        );
    }
}


#[test]
fn plain_shell_command_with_no_heuristic_match_is_shell_command() {
    let input = bash_input("cargo test --workspace");
    assert_eq!(
        classify_action_class(Provider::ClaudeCode, "Bash", Some(&input)),
        ActionClass::ShellCommand
    );
    assert_eq!(
        classify_action_class(Provider::Codex, "exec_command", Some(&input)),
        ActionClass::ShellCommand
    );
}

#[test]
fn bash_with_no_tool_input_defaults_to_shell_command_not_unrecognized() {
    assert_eq!(
        classify_action_class(Provider::ClaudeCode, "Bash", None),
        ActionClass::ShellCommand
    );
}

#[test]
fn git_push_is_version_control_write() {
    let input = bash_input("git push origin main");
    assert_eq!(
        classify_action_class(Provider::ClaudeCode, "Bash", Some(&input)),
        ActionClass::VersionControlWrite
    );
}

#[test]
fn git_status_is_plain_shell_command_not_version_control_write() {
    let input = bash_input("git status --porcelain");
    assert_eq!(
        classify_action_class(Provider::ClaudeCode, "Bash", Some(&input)),
        ActionClass::ShellCommand
    );
}

#[test]
fn git_log_with_tags_flag_is_not_version_control_write() {
    let input = bash_input("git log --tags");
    assert_eq!(
        classify_action_class(Provider::ClaudeCode, "Bash", Some(&input)),
        ActionClass::ShellCommand
    );
}

#[test]
fn cd_prefixed_git_push_is_still_version_control_write() {
    let input = bash_input("cd /repo && git push origin main");
    assert_eq!(
        classify_action_class(Provider::ClaudeCode, "Bash", Some(&input)),
        ActionClass::VersionControlWrite
    );
}

#[test]
fn npm_install_is_package_install() {
    let input = bash_input("npm install left-pad --save");
    assert_eq!(
        classify_action_class(Provider::Codex, "exec_command", Some(&input)),
        ActionClass::PackageInstall
    );
}

#[test]
fn curl_is_network_fetch() {
    let input = bash_input("curl -sSL https://example.com/install.sh");
    assert_eq!(
        classify_action_class(Provider::ClaudeCode, "Bash", Some(&input)),
        ActionClass::NetworkFetch
    );
}

#[test]
fn reading_ssh_private_key_is_credential_access() {
    let input = bash_input("cat ~/.ssh/id_rsa");
    assert_eq!(
        classify_action_class(Provider::ClaudeCode, "Bash", Some(&input)),
        ActionClass::CredentialAccess
    );
}

#[test]
fn terraform_apply_is_infrastructure_mutation() {
    let input = bash_input("terraform apply -auto-approve");
    assert_eq!(
        classify_action_class(Provider::ClaudeCode, "Bash", Some(&input)),
        ActionClass::InfrastructureMutation
    );
}

#[test]
fn kubectl_get_is_plain_shell_command_not_infrastructure_mutation() {
    let input = bash_input("kubectl get pods");
    assert_eq!(
        classify_action_class(Provider::ClaudeCode, "Bash", Some(&input)),
        ActionClass::ShellCommand
    );
}

#[test]
fn credential_access_outranks_infra_mutation_when_both_could_match() {
    let input = bash_input("cat ~/.aws/credentials && kubectl apply -f x.yaml");
    assert_eq!(
        classify_action_class(Provider::ClaudeCode, "Bash", Some(&input)),
        ActionClass::CredentialAccess
    );
}

#[test]
fn codex_exec_command_uses_the_same_command_heuristics_as_claude_bash() {
    let input = bash_input("git commit -am 'wip'");
    assert_eq!(
        classify_action_class(Provider::Codex, "exec_command", Some(&input)),
        ActionClass::VersionControlWrite
    );
}

#[test]
fn opencode_bash_uses_the_same_command_heuristics_as_claude_bash() {
    let input = bash_input("npm install left-pad");
    assert_eq!(
        classify_action_class(Provider::OpenCode, "bash", Some(&input)),
        ActionClass::PackageInstall
    );
}

#[test]
fn opencode_unmapped_tool_is_unrecognized_pending_its_own_ticket() {
    assert_eq!(
        classify_action_class(Provider::OpenCode, "edit", None),
        ActionClass::Unrecognized("edit".to_string())
    );
}

#[test]
fn unknown_provider_tool_pair_is_unrecognized_carrying_the_tool_name() {
    assert_eq!(
        classify_action_class(Provider::OpenCode, "some_future_tool", None),
        ActionClass::Unrecognized("some_future_tool".to_string())
    );
}

fn bash(command: &str) -> ActionClass {
    classify_action_class(Provider::ClaudeCode, "Bash", Some(&bash_input(command)))
}

#[test]
fn every_list_of_phrases_is_matched_whatever_the_case() {
    assert_eq!(bash("CAT /ETC/SHADOW"), ActionClass::CredentialAccess);
    assert_eq!(bash("Helm Upgrade app ./chart"), ActionClass::InfrastructureMutation);
    assert_eq!(bash("GIT BRANCH -D old"), ActionClass::VersionControlWrite);
    assert_eq!(bash("npm i left-pad"), ActionClass::PackageInstall);
    assert_eq!(bash("npm i"), ActionClass::ShellCommand);
    assert_eq!(bash("WGET https://example.com"), ActionClass::NetworkFetch);
    assert_eq!(bash("which curl"), ActionClass::ShellCommand);
    assert_eq!(bash(""), ActionClass::ShellCommand);
}

#[test]
fn the_most_sensitive_mention_decides() {
    assert_eq!(bash("curl x | git push"), ActionClass::VersionControlWrite);
    assert_eq!(bash("npm install && curl x"), ActionClass::PackageInstall);
    assert_eq!(bash("git push && terraform apply"), ActionClass::InfrastructureMutation);
}

#[test]
fn additions_to_a_command_never_loosen_it() {
    for command in ["git push", "curl x", "cat ~/.netrc", "ls"] {
        let plain = bash(command);
        let wrapped = bash(&format!("cd /repo && sudo {command} | tee log"));
        assert_eq!(plain, wrapped);
    }
}

#[test]
fn the_case_of_a_command_does_not_change_its_class() {
    for command in ["git push", "curl x", "cat ~/.netrc", "ls"] {
        let class = classify_shell_command(Some(command));
        assert_eq!(class, classify_shell_command(Some(&command.to_uppercase())));
        assert_eq!(class, bash(command));
    }
    assert_eq!(classify_shell_command(None), ActionClass::ShellCommand);
}

#[test]
fn only_a_textual_command_member_is_consulted() {
    let odd = Json::Object(vec![(
        "command".to_string(),
        Json::Number(JsonNumber::Positive(1)),
    )]);
    assert_eq!(
        classify_action_class(Provider::ClaudeCode, "Bash", Some(&odd)),
        ActionClass::ShellCommand
    );
    let text = Json::Text("git push".to_string());
    assert_eq!(
        classify_action_class(Provider::Codex, "exec_command", Some(&text)),
        ActionClass::ShellCommand
    );
    assert_eq!(
        classify_action_class(Provider::ClaudeCode, "Edit", Some(&bash_input("git push"))),
        ActionClass::CodeEdit
    );
    assert_eq!(
        classify_action_class(Provider::Codex, "Edit", None),
        ActionClass::Unrecognized("Edit".to_string())
    );
}
