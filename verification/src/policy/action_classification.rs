//! From tool calls to action classes. A tool that is not mapped is reported
//! as unrecognised; nothing is guessed of it.
use vstd::prelude::*;

use crate::evidence::Provider;
use crate::json::{json_get, Json, JsonModel};
use crate::model::Tag;
use crate::policy::content::ActionClass;
use crate::text::{
    ascii_lower, ascii_lowercase, chars_contain, lowercase_chars, occurs_at, str_eq, text_contains,
};

verus! {

/// Files whose mention in a command is taken for credential access, whatever
/// the command does with them.
pub const CREDENTIAL_PATH_MARKERS: [&'static str; 6] = [
    ".ssh/id_rsa",
    ".ssh/id_ed25519",
    ".aws/credentials",
    ".netrc",
    "credentials.json",
    "/etc/shadow",
];

/// Phrases that change live infrastructure.
pub const INFRA_MUTATION_PHRASES: [&'static str; 12] = [
    "terraform apply",
    "terraform destroy",
    "kubectl apply",
    "kubectl delete",
    "kubectl create",
    "kubectl scale",
    "helm install",
    "helm upgrade",
    "helm uninstall",
    "docker rm",
    "docker rmi",
    "docker system prune",
];

/// Phrases that change committed history or push it.
pub const VCS_WRITE_PHRASES: [&'static str; 9] = [
    "git push",
    "git commit",
    "git tag",
    "git merge",
    "git rebase",
    "git cherry-pick",
    "git reset --hard",
    "git clean -f",
    "git branch -d",
];

/// Phrases that install packages.
pub const PACKAGE_INSTALL_PHRASES: [&'static str; 13] = [
    "npm install",
    "npm i ",
    "yarn add",
    "pnpm add",
    "pip install",
    "pip3 install",
    "cargo install",
    "cargo add",
    "apt install",
    "apt-get install",
    "brew install",
    "gem install",
    "go install",
];

/// Commands that fetch from the network.
pub const NETWORK_FETCH_PHRASES: [&'static str; 2] = [
    "curl ",
    "wget ",
];

/// Whether some phrase occurs in a text.
pub open spec fn mentions_any(text: Seq<char>, phrases: Seq<&'static str>) -> bool {
    exists|i: int| 0 <= i < phrases.len() && text_contains(text, #[trigger] phrases[i]@)
}

fn contains_any(text: &Vec<char>, phrases: &[&'static str]) -> (r: bool)
    ensures
        r == mentions_any(text@, phrases@),
{
    let mut i: usize = 0;
    while i < phrases.len()
        invariant
            i <= phrases.len(),
            forall|j: int| 0 <= j < i ==> !text_contains(text@, #[trigger] phrases@[j]@),
        decreases phrases.len() - i,
    {
        if chars_contain(text, phrases[i]) {
            assert(text_contains(text@, phrases@[i as int]@));
            return true;
        }
        i = i + 1;
    }
    false
}

/// How sensitive a shell command is, by what it mentions; the most sensitive
/// mention counts.
pub open spec fn sensitivity(command: Seq<char>) -> int {
    let text = ascii_lowercase(command);
    if mentions_any(text, CREDENTIAL_PATH_MARKERS@) {
        5
    } else if mentions_any(text, INFRA_MUTATION_PHRASES@) {
        4
    } else if mentions_any(text, VCS_WRITE_PHRASES@) {
        3
    } else if mentions_any(text, PACKAGE_INSTALL_PHRASES@) {
        2
    } else if mentions_any(text, NETWORK_FETCH_PHRASES@) {
        1
    } else {
        0
    }
}

/// The class of a sensitivity.
pub open spec fn sensitivity_class(level: int) -> Tag {
    if level == 5 {
        ActionClass::CredentialAccess.deep_view()
    } else if level == 4 {
        ActionClass::InfrastructureMutation.deep_view()
    } else if level == 3 {
        ActionClass::VersionControlWrite.deep_view()
    } else if level == 2 {
        ActionClass::PackageInstall.deep_view()
    } else if level == 1 {
        ActionClass::NetworkFetch.deep_view()
    } else {
        ActionClass::ShellCommand.deep_view()
    }
}

/// The sensitivity that a class of shell commands stands for.
pub open spec fn class_sensitivity(class: Tag) -> int {
    if class == ActionClass::CredentialAccess.deep_view() {
        5
    } else if class == ActionClass::InfrastructureMutation.deep_view() {
        4
    } else if class == ActionClass::VersionControlWrite.deep_view() {
        3
    } else if class == ActionClass::PackageInstall.deep_view() {
        2
    } else if class == ActionClass::NetworkFetch.deep_view() {
        1
    } else {
        0
    }
}

/// The class of a shell invocation; of an unknown command, the plain class.
pub open spec fn shell_class(command: Option<Seq<char>>) -> Tag {
    match command {
        Some(text) => sensitivity_class(sensitivity(text)),
        None => ActionClass::ShellCommand.deep_view(),
    }
}

/// Classifies a shell invocation.
pub fn classify_shell_command(command: Option<&str>) -> (r: ActionClass)
    ensures
        r.deep_view() == shell_class(
            match command {
                Some(text) => Some(text@),
                None => None,
            },
        ),
{
    let command = match command {
        Some(text) => text,
        None => {
            return ActionClass::ShellCommand;
        },
    };
    let normalized = lowercase_chars(command);
    if contains_any(&normalized, CREDENTIAL_PATH_MARKERS.as_slice()) {
        return ActionClass::CredentialAccess;
    }
    if contains_any(&normalized, INFRA_MUTATION_PHRASES.as_slice()) {
        return ActionClass::InfrastructureMutation;
    }
    if contains_any(&normalized, VCS_WRITE_PHRASES.as_slice()) {
        return ActionClass::VersionControlWrite;
    }
    if contains_any(&normalized, PACKAGE_INSTALL_PHRASES.as_slice()) {
        return ActionClass::PackageInstall;
    }
    if contains_any(&normalized, NETWORK_FETCH_PHRASES.as_slice()) {
        return ActionClass::NetworkFetch;
    }
    ActionClass::ShellCommand
}

/// The text of the command a tool's input carries, where it carries one.
pub open spec fn input_command(tool_input: Option<JsonModel>) -> Option<Seq<char>> {
    match tool_input {
        Some(input) => match json_get(input, "command"@) {
            Some(JsonModel::Text(text)) => Some(text),
            _ => None,
        },
        None => None,
    }
}

fn command_text(tool_input: Option<&Json>) -> (r: Option<&str>)
    ensures
        (match r {
            Some(text) => Some(text@),
            None => None,
        }) == input_command(
            match tool_input {
                Some(input) => Some(input.deep_view()),
                None => None,
            },
        ),
{
    match tool_input {
        Some(input) => match input.get("command") {
            Some(value) => value.as_str(),
            None => None,
        },
        None => None,
    }
}

/// Whether a tool runs shell commands.
pub open spec fn is_shell_tool(provider: Provider, tool_name: Seq<char>) -> bool {
    ||| tool_name == "Bash"@
    ||| provider == Provider::Codex && tool_name == "exec_command"@
    ||| provider == Provider::OpenCode && tool_name == "bash"@
}

/// The action class of a tool call.
pub open spec fn action_class(
    provider: Provider,
    tool_name: Seq<char>,
    tool_input: Option<JsonModel>,
) -> Tag {
    if is_shell_tool(provider, tool_name) {
        shell_class(input_command(tool_input))
    } else if provider == Provider::ClaudeCode && (tool_name == "Edit"@ || tool_name == "Write"@
        || tool_name == "MultiEdit"@ || tool_name == "NotebookEdit"@) {
        ActionClass::CodeEdit.deep_view()
    } else if provider == Provider::ClaudeCode && (tool_name == "WebFetch"@ || tool_name
        == "WebSearch"@) {
        ActionClass::NetworkFetch.deep_view()
    } else {
        Tag { index: 8, text: tool_name }
    }
}

/// Classifies a tool call. A tool's input is consulted only where the tool
/// runs shell commands.
pub fn classify_action_class(provider: Provider, tool_name: &str, tool_input: Option<&Json>) -> (r:
    ActionClass)
    ensures
        r.deep_view() == action_class(
            provider,
            tool_name@,
            match tool_input {
                Some(input) => Some(input.deep_view()),
                None => None,
            },
        ),
{
    if str_eq(tool_name, "Bash") || (provider == Provider::Codex && str_eq(
        tool_name,
        "exec_command",
    )) || (provider == Provider::OpenCode && str_eq(tool_name, "bash")) {
        return classify_shell_command(command_text(tool_input));
    }
    if provider == Provider::ClaudeCode {
        if str_eq(tool_name, "Edit") || str_eq(tool_name, "Write") || str_eq(
            tool_name,
            "MultiEdit",
        ) || str_eq(tool_name, "NotebookEdit") {
            return ActionClass::CodeEdit;
        }
        if str_eq(tool_name, "WebFetch") || str_eq(tool_name, "WebSearch") {
            return ActionClass::NetworkFetch;
        }
    }
    ActionClass::Unrecognized(tool_name.to_owned())
}

proof fn lemma_contains_transitive(outer: Seq<char>, inner: Seq<char>, needle: Seq<char>)
    requires
        text_contains(outer, inner),
        text_contains(inner, needle),
    ensures
        text_contains(outer, needle),
{
    let a = choose|at: int| occurs_at(outer, inner, at);
    let b = choose|at: int| occurs_at(inner, needle, at);
    assert(outer.subrange(a + b, a + b + needle.len()) =~= outer.subrange(
        a,
        a + inner.len(),
    ).subrange(b, b + needle.len()));
    assert(occurs_at(outer, needle, a + b));
}

proof fn lemma_mentions_more(outer: Seq<char>, inner: Seq<char>, phrases: Seq<&'static str>)
    requires
        text_contains(outer, inner),
    ensures
        mentions_any(inner, phrases) ==> mentions_any(outer, phrases),
{
    if mentions_any(inner, phrases) {
        let i = choose|i: int|
            0 <= i < phrases.len() && text_contains(inner, #[trigger] phrases[i]@);
        lemma_contains_transitive(outer, inner, phrases[i]@);
    }
}

/// A command is at least as sensitive as any command it contains: no prefix,
/// pipeline or other addition loosens the classification.
pub proof fn law_longer_commands_are_not_loosened(outer: Seq<char>, inner: Seq<char>)
    requires
        text_contains(outer, inner),
    ensures
        sensitivity(outer) >= sensitivity(inner),
        class_sensitivity(shell_class(Some(outer))) >= class_sensitivity(shell_class(Some(inner))),
{
    let big = ascii_lowercase(outer);
    let small = ascii_lowercase(inner);
    let at = choose|at: int| occurs_at(outer, inner, at);
    assert(big.subrange(at, at + small.len()) =~= small) by {
        assert forall|k: int| 0 <= k < small.len() implies big.subrange(
            at,
            at + small.len(),
        )[k] == small[k] by {
            assert(outer.subrange(at, at + inner.len())[k] == inner[k]);
        }
    }
    assert(occurs_at(big, small, at));
    lemma_mentions_more(big, small, CREDENTIAL_PATH_MARKERS@);
    lemma_mentions_more(big, small, INFRA_MUTATION_PHRASES@);
    lemma_mentions_more(big, small, VCS_WRITE_PHRASES@);
    lemma_mentions_more(big, small, PACKAGE_INSTALL_PHRASES@);
    lemma_mentions_more(big, small, NETWORK_FETCH_PHRASES@);
}

/// Whatever is put before or after a command only tightens its class.
pub proof fn law_additions_only_tighten(prefix: Seq<char>, command: Seq<char>, suffix: Seq<char>)
    ensures
        class_sensitivity(shell_class(Some(prefix + command + suffix))) >= class_sensitivity(
            shell_class(Some(command)),
        ),
{
    let outer = prefix + command + suffix;
    let at = prefix.len() as int;
    assert(outer.subrange(at, at + command.len()) =~= command);
    assert(occurs_at(outer, command, at));
    law_longer_commands_are_not_loosened(outer, command);
}

/// The case of ASCII letters does not change the class of a command.
pub proof fn law_letter_case_does_not_change_the_class(a: Seq<char>, b: Seq<char>)
    requires
        a.len() == b.len(),
        forall|i: int|
            0 <= i < a.len() ==> ascii_lower(#[trigger] a[i]) == ascii_lower(b[i]),
    ensures
        shell_class(Some(a)) == shell_class(Some(b)),
{
    assert(ascii_lowercase(a) =~= ascii_lowercase(b));
}

} // verus!
