use work::shell::{completion_script, init_script, Shell};

#[test]
fn init_scripts_define_work_function() {
    assert!(init_script(Shell::Zsh).starts_with("# work — git worktree manager (zsh integration)"));
    assert!(init_script(Shell::Bash).starts_with("# work — git worktree manager (bash integration)"));
    assert!(init_script(Shell::Fish).starts_with("# work — git worktree manager (fish integration)"));
    assert!(init_script(Shell::Zsh).contains("source <(command work completions zsh)"));
    assert!(init_script(Shell::Fish).contains("command work completions fish | source"));
}

#[test]
fn completion_scripts_use_list_names() {
    assert!(completion_script(Shell::Zsh).starts_with("#compdef work"));
    assert!(completion_script(Shell::Fish).contains("command work list-names"));
    assert!(completion_script(Shell::Bash).ends_with("complete -F _work work\n"));
}
