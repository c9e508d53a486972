//! Which commands and tools fall into which action class.
use vstd::prelude::*;

use super::action_classification::{
    action_class, mentions_any, shell_class, CREDENTIAL_PATH_MARKERS, INFRA_MUTATION_PHRASES,
    NETWORK_FETCH_PHRASES, PACKAGE_INSTALL_PHRASES, VCS_WRITE_PHRASES,
};
use super::content::ActionClass;
use crate::evidence::Provider;
use crate::json::JsonModel;
use crate::model::Tag;
use crate::text::{ascii_lowercase, occurs_at, text_contains};

verus! {

/// Whether a command has some words in it, in whatever case its ASCII letters
/// are: it holds a run of characters that are those of the words, one by one,
/// or their capitals.
pub open spec fn has_words(command: Seq<char>, words: Seq<char>) -> bool {
    exists|at: int| #[trigger] words_at(command, words, at)
}

/// Whether the words stand at a place of a command.
pub open spec fn words_at(command: Seq<char>, words: Seq<char>, at: int) -> bool {
    &&& 0 <= at
    &&& at + words.len() <= command.len()
    &&& forall|k: int|
        0 <= k < words.len() ==> {
            let c = #[trigger] command[at + k];
            ||| c == words[k] && !('A' <= c && c <= 'Z')
            ||| 'A' <= c && c <= 'Z' && c as int + 32 == words[k] as int
        }
}

proof fn lemma_has_words(command: Seq<char>, words: Seq<char>)
    ensures
        has_words(command, words) == text_contains(ascii_lowercase(command), words),
{
    let text = ascii_lowercase(command);
    if has_words(command, words) {
        let at = choose|at: int| #[trigger] words_at(command, words, at);
        assert(text.subrange(at, at + words.len()) =~= words) by {
            assert forall|k: int| 0 <= k < words.len() implies text.subrange(
                at,
                at + words.len(),
            )[k] == words[k] by {
                let c = command[at + k];
                assert(text[at + k] == crate::text::ascii_lower(c));
            }
        }
        assert(occurs_at(text, words, at));
    }
    if text_contains(text, words) {
        let at = choose|at: int| occurs_at(text, words, at);
        assert forall|k: int| 0 <= k < words.len() implies ({
            let c = #[trigger] command[at + k];
            ||| c == words[k] && !('A' <= c && c <= 'Z')
            ||| 'A' <= c && c <= 'Z' && c as int + 32 == words[k] as int
        }) by {
            assert(text.subrange(at, at + words.len())[k] == words[k]);
            assert(text[at + k] == words[k]);
        }
        assert(words_at(command, words, at));
    }
}

/// Whether a command names a file that holds credentials.
pub open spec fn reaches_credentials(command: Seq<char>) -> bool {
    ||| has_words(command, ".ssh/id_rsa"@)
    ||| has_words(command, ".ssh/id_ed25519"@)
    ||| has_words(command, ".aws/credentials"@)
    ||| has_words(command, ".netrc"@)
    ||| has_words(command, "credentials.json"@)
    ||| has_words(command, "/etc/shadow"@)
}

proof fn lemma_reaches_credentials(command: Seq<char>)
    ensures
        mentions_any(ascii_lowercase(command), CREDENTIAL_PATH_MARKERS@) == reaches_credentials(command),
{
    let text = ascii_lowercase(command);
    let listed = CREDENTIAL_PATH_MARKERS@;
    assert(listed.len() == 6);
    assert(listed[0]@ == ".ssh/id_rsa"@);
    lemma_has_words(command, ".ssh/id_rsa"@);
    assert(listed[1]@ == ".ssh/id_ed25519"@);
    lemma_has_words(command, ".ssh/id_ed25519"@);
    assert(listed[2]@ == ".aws/credentials"@);
    lemma_has_words(command, ".aws/credentials"@);
    assert(listed[3]@ == ".netrc"@);
    lemma_has_words(command, ".netrc"@);
    assert(listed[4]@ == "credentials.json"@);
    lemma_has_words(command, "credentials.json"@);
    assert(listed[5]@ == "/etc/shadow"@);
    lemma_has_words(command, "/etc/shadow"@);
    if mentions_any(text, listed) {
        let i = choose|i: int|
            0 <= i < listed.len() && text_contains(text, #[trigger] listed[i]@);
        assert(has_words(command, listed[i]@)) by {
            lemma_has_words(command, listed[i]@);
        }
    }
}

/// Whether a command changes live infrastructure.
pub open spec fn changes_infrastructure(command: Seq<char>) -> bool {
    ||| has_words(command, "terraform apply"@)
    ||| has_words(command, "terraform destroy"@)
    ||| has_words(command, "kubectl apply"@)
    ||| has_words(command, "kubectl delete"@)
    ||| has_words(command, "kubectl create"@)
    ||| has_words(command, "kubectl scale"@)
    ||| has_words(command, "helm install"@)
    ||| has_words(command, "helm upgrade"@)
    ||| has_words(command, "helm uninstall"@)
    ||| has_words(command, "docker rm"@)
    ||| has_words(command, "docker rmi"@)
    ||| has_words(command, "docker system prune"@)
}

proof fn lemma_changes_infrastructure(command: Seq<char>)
    ensures
        mentions_any(ascii_lowercase(command), INFRA_MUTATION_PHRASES@) == changes_infrastructure(command),
{
    let text = ascii_lowercase(command);
    let listed = INFRA_MUTATION_PHRASES@;
    assert(listed.len() == 12);
    assert(listed[0]@ == "terraform apply"@);
    lemma_has_words(command, "terraform apply"@);
    assert(listed[1]@ == "terraform destroy"@);
    lemma_has_words(command, "terraform destroy"@);
    assert(listed[2]@ == "kubectl apply"@);
    lemma_has_words(command, "kubectl apply"@);
    assert(listed[3]@ == "kubectl delete"@);
    lemma_has_words(command, "kubectl delete"@);
    assert(listed[4]@ == "kubectl create"@);
    lemma_has_words(command, "kubectl create"@);
    assert(listed[5]@ == "kubectl scale"@);
    lemma_has_words(command, "kubectl scale"@);
    assert(listed[6]@ == "helm install"@);
    lemma_has_words(command, "helm install"@);
    assert(listed[7]@ == "helm upgrade"@);
    lemma_has_words(command, "helm upgrade"@);
    assert(listed[8]@ == "helm uninstall"@);
    lemma_has_words(command, "helm uninstall"@);
    assert(listed[9]@ == "docker rm"@);
    lemma_has_words(command, "docker rm"@);
    assert(listed[10]@ == "docker rmi"@);
    lemma_has_words(command, "docker rmi"@);
    assert(listed[11]@ == "docker system prune"@);
    lemma_has_words(command, "docker system prune"@);
    if mentions_any(text, listed) {
        let i = choose|i: int|
            0 <= i < listed.len() && text_contains(text, #[trigger] listed[i]@);
        assert(has_words(command, listed[i]@)) by {
            lemma_has_words(command, listed[i]@);
        }
    }
}

/// Whether a command changes committed history or pushes it.
pub open spec fn writes_history(command: Seq<char>) -> bool {
    ||| has_words(command, "git push"@)
    ||| has_words(command, "git commit"@)
    ||| has_words(command, "git tag"@)
    ||| has_words(command, "git merge"@)
    ||| has_words(command, "git rebase"@)
    ||| has_words(command, "git cherry-pick"@)
    ||| has_words(command, "git reset --hard"@)
    ||| has_words(command, "git clean -f"@)
    ||| has_words(command, "git branch -d"@)
}

proof fn lemma_writes_history(command: Seq<char>)
    ensures
        mentions_any(ascii_lowercase(command), VCS_WRITE_PHRASES@) == writes_history(command),
{
    let text = ascii_lowercase(command);
    let listed = VCS_WRITE_PHRASES@;
    assert(listed.len() == 9);
    assert(listed[0]@ == "git push"@);
    lemma_has_words(command, "git push"@);
    assert(listed[1]@ == "git commit"@);
    lemma_has_words(command, "git commit"@);
    assert(listed[2]@ == "git tag"@);
    lemma_has_words(command, "git tag"@);
    assert(listed[3]@ == "git merge"@);
    lemma_has_words(command, "git merge"@);
    assert(listed[4]@ == "git rebase"@);
    lemma_has_words(command, "git rebase"@);
    assert(listed[5]@ == "git cherry-pick"@);
    lemma_has_words(command, "git cherry-pick"@);
    assert(listed[6]@ == "git reset --hard"@);
    lemma_has_words(command, "git reset --hard"@);
    assert(listed[7]@ == "git clean -f"@);
    lemma_has_words(command, "git clean -f"@);
    assert(listed[8]@ == "git branch -d"@);
    lemma_has_words(command, "git branch -d"@);
    if mentions_any(text, listed) {
        let i = choose|i: int|
            0 <= i < listed.len() && text_contains(text, #[trigger] listed[i]@);
        assert(has_words(command, listed[i]@)) by {
            lemma_has_words(command, listed[i]@);
        }
    }
}

/// Whether a command installs a package.
pub open spec fn installs_packages(command: Seq<char>) -> bool {
    ||| has_words(command, "npm install"@)
    ||| has_words(command, "npm i "@)
    ||| has_words(command, "yarn add"@)
    ||| has_words(command, "pnpm add"@)
    ||| has_words(command, "pip install"@)
    ||| has_words(command, "pip3 install"@)
    ||| has_words(command, "cargo install"@)
    ||| has_words(command, "cargo add"@)
    ||| has_words(command, "apt install"@)
    ||| has_words(command, "apt-get install"@)
    ||| has_words(command, "brew install"@)
    ||| has_words(command, "gem install"@)
    ||| has_words(command, "go install"@)
}

proof fn lemma_installs_packages(command: Seq<char>)
    ensures
        mentions_any(ascii_lowercase(command), PACKAGE_INSTALL_PHRASES@) == installs_packages(command),
{
    let text = ascii_lowercase(command);
    let listed = PACKAGE_INSTALL_PHRASES@;
    assert(listed.len() == 13);
    assert(listed[0]@ == "npm install"@);
    lemma_has_words(command, "npm install"@);
    assert(listed[1]@ == "npm i "@);
    lemma_has_words(command, "npm i "@);
    assert(listed[2]@ == "yarn add"@);
    lemma_has_words(command, "yarn add"@);
    assert(listed[3]@ == "pnpm add"@);
    lemma_has_words(command, "pnpm add"@);
    assert(listed[4]@ == "pip install"@);
    lemma_has_words(command, "pip install"@);
    assert(listed[5]@ == "pip3 install"@);
    lemma_has_words(command, "pip3 install"@);
    assert(listed[6]@ == "cargo install"@);
    lemma_has_words(command, "cargo install"@);
    assert(listed[7]@ == "cargo add"@);
    lemma_has_words(command, "cargo add"@);
    assert(listed[8]@ == "apt install"@);
    lemma_has_words(command, "apt install"@);
    assert(listed[9]@ == "apt-get install"@);
    lemma_has_words(command, "apt-get install"@);
    assert(listed[10]@ == "brew install"@);
    lemma_has_words(command, "brew install"@);
    assert(listed[11]@ == "gem install"@);
    lemma_has_words(command, "gem install"@);
    assert(listed[12]@ == "go install"@);
    lemma_has_words(command, "go install"@);
    if mentions_any(text, listed) {
        let i = choose|i: int|
            0 <= i < listed.len() && text_contains(text, #[trigger] listed[i]@);
        assert(has_words(command, listed[i]@)) by {
            lemma_has_words(command, listed[i]@);
        }
    }
}

/// Whether a command fetches from the network.
pub open spec fn fetches(command: Seq<char>) -> bool {
    ||| has_words(command, "curl "@)
    ||| has_words(command, "wget "@)
}

proof fn lemma_fetches(command: Seq<char>)
    ensures
        mentions_any(ascii_lowercase(command), NETWORK_FETCH_PHRASES@) == fetches(command),
{
    let text = ascii_lowercase(command);
    let listed = NETWORK_FETCH_PHRASES@;
    assert(listed.len() == 2);
    assert(listed[0]@ == "curl "@);
    lemma_has_words(command, "curl "@);
    assert(listed[1]@ == "wget "@);
    lemma_has_words(command, "wget "@);
    if mentions_any(text, listed) {
        let i = choose|i: int|
            0 <= i < listed.len() && text_contains(text, #[trigger] listed[i]@);
        assert(has_words(command, listed[i]@)) by {
            lemma_has_words(command, listed[i]@);
        }
    }
}

/// A command is classified by the most sensitive thing it does: reaching
/// credentials, then changing infrastructure, then writing history, then
/// installing packages, then fetching. One that does none of these is a plain
/// command, and so is one that is not known.
pub proof fn law_commands_are_classed_by_what_they_do(command: Seq<char>)
    ensures
        shell_class(Some(command)) == ActionClass::CredentialAccess.deep_view()
            <==> reaches_credentials(command),
        shell_class(Some(command)) == ActionClass::InfrastructureMutation.deep_view()
            <==> changes_infrastructure(command) && !reaches_credentials(command),
        shell_class(Some(command)) == ActionClass::VersionControlWrite.deep_view()
            <==> writes_history(command) && !changes_infrastructure(command)
            && !reaches_credentials(command),
        shell_class(Some(command)) == ActionClass::PackageInstall.deep_view()
            <==> installs_packages(command) && !writes_history(command)
            && !changes_infrastructure(command) && !reaches_credentials(command),
        shell_class(Some(command)) == ActionClass::NetworkFetch.deep_view() <==> fetches(command)
            && !installs_packages(command) && !writes_history(command)
            && !changes_infrastructure(command) && !reaches_credentials(command),
        shell_class(Some(command)) == ActionClass::ShellCommand.deep_view() <==> !fetches(command)
            && !installs_packages(command) && !writes_history(command)
            && !changes_infrastructure(command) && !reaches_credentials(command),
        shell_class(None) == ActionClass::ShellCommand.deep_view(),
{
    lemma_reaches_credentials(command);
    lemma_changes_infrastructure(command);
    lemma_writes_history(command);
    lemma_installs_packages(command);
    lemma_fetches(command);
}

/// Whether a tool runs shell commands for its provider.
pub open spec fn runs_commands(provider: Provider, tool: Seq<char>) -> bool {
    ||| tool == "Bash"@
    ||| tool == "exec_command"@ && provider is Codex
    ||| tool == "bash"@ && provider is OpenCode
}

/// A tool that runs commands is classed by the command it is given, where it
/// is given one as text, and as a plain command where it is not.
pub proof fn law_command_tools_go_by_their_command(
    provider: Provider,
    tool: Seq<char>,
    members: Seq<(Seq<char>, JsonModel)>,
    i: int,
)
    requires
        runs_commands(provider, tool),
        0 <= i < members.len(),
        members[i].0 == "command"@,
        forall|j: int| 0 <= j < i ==> (#[trigger] members[j]).0 != "command"@,
    ensures
        action_class(provider, tool, Some(JsonModel::Object(members))) == (match members[i].1 {
            JsonModel::Text(command) => shell_class(Some(command)),
            _ => ActionClass::ShellCommand.deep_view(),
        }),
{
    lemma_member_found(members, "command"@, i);
}

/// Without a command a tool that runs commands is a plain command.
pub proof fn law_command_tools_without_a_command_are_plain(
    provider: Provider,
    tool: Seq<char>,
    input: Option<JsonModel>,
)
    requires
        runs_commands(provider, tool),
        input matches Some(JsonModel::Object(members)) ==> forall|j: int|
            0 <= j < members.len() ==> (#[trigger] members[j]).0 != "command"@,
    ensures
        action_class(provider, tool, input) == ActionClass::ShellCommand.deep_view(),
{
    match input {
        Some(JsonModel::Object(members)) => {
            lemma_member_absent(members, "command"@);
        },
        _ => {},
    }
}

proof fn lemma_member_found(members: Seq<(Seq<char>, JsonModel)>, name: Seq<char>, i: int)
    requires
        0 <= i < members.len(),
        members[i].0 == name,
        forall|j: int| 0 <= j < i ==> (#[trigger] members[j]).0 != name,
    ensures
        crate::json::member_value(members, name) == Some(members[i].1),
    decreases members.len(),
{
    if i > 0 {
        let rest = members.drop_first();
        assert(members[0].0 != name);
        assert(rest[i - 1] == members[i]);
        assert forall|j: int| 0 <= j < i - 1 implies (#[trigger] rest[j]).0 != name by {
            assert(rest[j] == members[j + 1]);
        }
        lemma_member_found(rest, name, i - 1);
    }
}

proof fn lemma_member_absent(members: Seq<(Seq<char>, JsonModel)>, name: Seq<char>)
    requires
        forall|j: int| 0 <= j < members.len() ==> (#[trigger] members[j]).0 != name,
    ensures
        crate::json::member_value(members, name) is None,
    decreases members.len(),
{
    if members.len() > 0 {
        let rest = members.drop_first();
        assert(members[0].0 != name);
        assert forall|j: int| 0 <= j < rest.len() implies (#[trigger] rest[j]).0 != name by {
            assert(rest[j] == members[j + 1]);
        }
        lemma_member_absent(rest, name);
    }
}

/// Every other tool is classed by its name alone: the editing tools and the
/// web tools of one provider are known, and any other is reported under its
/// own name.
pub proof fn law_other_tools_go_by_their_name(
    provider: Provider,
    tool: Seq<char>,
    input: Option<JsonModel>,
)
    requires
        !runs_commands(provider, tool),
    ensures
        action_class(provider, tool, input) == ActionClass::CodeEdit.deep_view()
            <==> provider is ClaudeCode && (tool == "Edit"@ || tool == "Write"@ || tool
            == "MultiEdit"@ || tool == "NotebookEdit"@),
        action_class(provider, tool, input) == ActionClass::NetworkFetch.deep_view()
            <==> provider is ClaudeCode && (tool == "WebFetch"@ || tool == "WebSearch"@),
        action_class(provider, tool, input) != ActionClass::CodeEdit.deep_view() && action_class(
            provider,
            tool,
            input,
        ) != ActionClass::NetworkFetch.deep_view() ==> action_class(provider, tool, input) == (Tag {
            index: 8,
            text: tool,
        }),
{
    reveal_strlit("Edit");
    reveal_strlit("Write");
    reveal_strlit("MultiEdit");
    reveal_strlit("NotebookEdit");
    reveal_strlit("WebFetch");
    reveal_strlit("WebSearch");
    assert("WebFetch"@.len() == 8);
    assert("WebSearch"@.len() == 9 && "MultiEdit"@.len() == 9);
    assert("WebSearch"@[0] == 'W' && "MultiEdit"@[0] == 'M');
}

} // verus!
