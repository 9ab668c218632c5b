//! Shell integration: the code that `work init` prints for each shell, and
//! the completion scripts that `work completions` prints.
use vstd::prelude::*;

verus! {

/// A shell that the tool integrates with.
#[derive(Clone, Copy, PartialEq, Eq, Structural)]
pub enum Shell {
    Zsh,
    Fish,
    Bash,
}

/// The code that `work init` prints for `shell`.
pub fn init_script(shell: Shell) -> (r: &'static str)
    ensures
        r == match shell {
            Shell::Zsh => ZSH_INIT,
            Shell::Fish => FISH_INIT,
            Shell::Bash => BASH_INIT,
        },
{
    match shell {
        Shell::Zsh => ZSH_INIT,
        Shell::Fish => FISH_INIT,
        Shell::Bash => BASH_INIT,
    }
}

/// The completion script that `work completions` prints for `shell`.
pub fn completion_script(shell: Shell) -> (r: &'static str)
    ensures
        r == match shell {
            Shell::Zsh => ZSH_COMPLETION,
            Shell::Fish => FISH_COMPLETION,
            Shell::Bash => BASH_COMPLETION,
        },
{
    match shell {
        Shell::Zsh => ZSH_COMPLETION,
        Shell::Fish => FISH_COMPLETION,
        Shell::Bash => BASH_COMPLETION,
    }
}

/// The zsh integration: a `work` function that runs `cd` in the shell itself, and the completions.
pub const ZSH_INIT: &'static str = r#"# work — git worktree manager (zsh integration)
# Generated by: work init zsh
work() {
    if [[ "$1" == "cd" ]]; then
        local target
        target=$(command work cd "${@:2}") || return 1
        builtin cd "$target"
    else
        command work "$@"
    fi
}

# Tab completions — sourced inline so they stay in sync with the binary.
# compdef is called inside the completion script; this line ensures the
# completion system is initialised first so compdef is available.
if (( ! $+functions[compdef] )); then
    autoload -Uz compinit && compinit
fi
source <(command work completions zsh)
"#;

/// The bash integration.
pub const BASH_INIT: &'static str = r#"# work — git worktree manager (bash integration)
# Generated by: work init bash
work() {
    if [[ "$1" == "cd" ]]; then
        local target
        target=$(command work cd "${@:2}") || return 1
        builtin cd "$target"
    else
        command work "$@"
    fi
}

# Tab completions
source <(command work completions bash)
"#;

/// The fish integration.
pub const FISH_INIT: &'static str = r#"# work — git worktree manager (fish integration)
# Generated by: work init fish
function work
    if test "$argv[1]" = "cd"
        set target (command work cd $argv[2..])
        and cd $target
    else
        command work $argv
    end
end

# Tab completions
command work completions fish | source
"#;

// ── Completion scripts ───────────────────────────────────────────────────────
//
// `work list-names` is called at completion time to enumerate worktree names
// for the current repository dynamically.

/// The zsh completion script; worktree names come from `work list-names`.
pub const ZSH_COMPLETION: &'static str = r#"#compdef work

_work_worktree_names() {
    local names
    names=(${(f)"$(command work list-names 2>/dev/null)"})
    _describe 'worktree' names
}

_work() {
    local state

    _arguments -C \
        '(-h --help)'{-h,--help}'[Show help]' \
        '(-V --version)'{-V,--version}'[Show version]' \
        '1: :->command' \
        '*:: :->args'

    case $state in
        command)
            local commands=(
                'add:Add a new worktree in ~/.worktrees/<repo>/<name>'
                'list:List worktrees'
                'remove:Remove a worktree'
                'cd:Change directory into a worktree'
                'lock:Lock a worktree'
                'unlock:Unlock a worktree'
                'move:Move a worktree to a new path'
                'repair:Repair worktree administrative files'
                'prune:Prune worktree information'
                'init:Print shell integration code'
                'completions:Generate shell completions'
            )
            _describe 'command' commands
            ;;
        args)
            case $words[1] in
                add)
                    _arguments \
                        '(-b --branch)'{-b,--branch}'[Create and checkout a new branch]:branch name:' \
                        '--detach[Detach HEAD]' \
                        '--no-checkout[Skip file checkout after creating the worktree]' \
                        '1:worktree name:' \
                        '2:commit-ish:'
                    ;;
                list)
                    _arguments \
                        '--porcelain[Porcelain output format]' \
                        '(-v --verbose)'{-v,--verbose}'[Verbose output]'
                    ;;
                remove)
                    _arguments \
                        '(-f --force)'{-f,--force}'[Force removal]' \
                        '1:worktree:_work_worktree_names'
                    ;;
                cd)
                    _arguments '1:worktree:_work_worktree_names'
                    ;;
                lock)
                    _arguments \
                        '--reason[Reason for locking]:reason:' \
                        '1:worktree:_work_worktree_names'
                    ;;
                unlock)
                    _arguments '1:worktree:_work_worktree_names'
                    ;;
                move)
                    _arguments \
                        '1:worktree:_work_worktree_names' \
                        '2:new path:_files -/'
                    ;;
                repair)
                    _arguments '1:path:_files -/'
                    ;;
                prune)
                    _arguments \
                        '(-n --dry-run)'{-n,--dry-run}'[Show what would be pruned]' \
                        '(-v --verbose)'{-v,--verbose}'[Report all removals]' \
                        '--expire[Only expire entries older than this]:expire:'
                    ;;
                init|completions)
                    _arguments '1:shell:(zsh fish bash)'
                    ;;
            esac
            ;;
    esac
}

compdef _work work
"#;

/// The fish completion script.
pub const FISH_COMPLETION: &'static str = r#"# work — git worktree manager (fish completions)

function __work_worktree_names
    command work list-names 2>/dev/null
end

set -l __work_cmds add list remove cd lock unlock move repair prune init completions

complete -c work -f

# Subcommands
complete -c work -n "not __fish_seen_subcommand_from $__work_cmds" -a add         -d 'Add a new worktree'
complete -c work -n "not __fish_seen_subcommand_from $__work_cmds" -a list        -d 'List worktrees'
complete -c work -n "not __fish_seen_subcommand_from $__work_cmds" -a remove      -d 'Remove a worktree'
complete -c work -n "not __fish_seen_subcommand_from $__work_cmds" -a cd          -d 'Change directory into a worktree'
complete -c work -n "not __fish_seen_subcommand_from $__work_cmds" -a lock        -d 'Lock a worktree'
complete -c work -n "not __fish_seen_subcommand_from $__work_cmds" -a unlock      -d 'Unlock a worktree'
complete -c work -n "not __fish_seen_subcommand_from $__work_cmds" -a move        -d 'Move a worktree to a new path'
complete -c work -n "not __fish_seen_subcommand_from $__work_cmds" -a repair      -d 'Repair worktree administrative files'
complete -c work -n "not __fish_seen_subcommand_from $__work_cmds" -a prune       -d 'Prune worktree information'
complete -c work -n "not __fish_seen_subcommand_from $__work_cmds" -a init        -d 'Print shell integration code'
complete -c work -n "not __fish_seen_subcommand_from $__work_cmds" -a completions -d 'Generate shell completions'

# add
complete -c work -n "__fish_seen_subcommand_from add" -s b -l branch       -d 'Create and checkout a new branch' -r
complete -c work -n "__fish_seen_subcommand_from add" -l detach             -d 'Detach HEAD'
complete -c work -n "__fish_seen_subcommand_from add" -l no-checkout        -d 'Skip file checkout'

# list
complete -c work -n "__fish_seen_subcommand_from list" -l porcelain         -d 'Porcelain output format'
complete -c work -n "__fish_seen_subcommand_from list" -s v -l verbose      -d 'Verbose output'

# remove
complete -c work -n "__fish_seen_subcommand_from remove" -s f -l force      -d 'Force removal'
complete -c work -n "__fish_seen_subcommand_from remove" -a "(__work_worktree_names)"

# cd
complete -c work -n "__fish_seen_subcommand_from cd" -a "(__work_worktree_names)"

# lock
complete -c work -n "__fish_seen_subcommand_from lock" -l reason            -d 'Reason for locking' -r
complete -c work -n "__fish_seen_subcommand_from lock" -a "(__work_worktree_names)"

# unlock
complete -c work -n "__fish_seen_subcommand_from unlock" -a "(__work_worktree_names)"

# move
complete -c work -n "__fish_seen_subcommand_from move" -a "(__work_worktree_names)"

# prune
complete -c work -n "__fish_seen_subcommand_from prune" -s n -l dry-run     -d 'Show what would be pruned'
complete -c work -n "__fish_seen_subcommand_from prune" -s v -l verbose     -d 'Report all removals'
complete -c work -n "__fish_seen_subcommand_from prune" -l expire           -d 'Only expire entries older than this' -r

# init / completions — shell names
complete -c work -n "__fish_seen_subcommand_from init completions" -a "zsh fish bash"
"#;

/// The bash completion script.
pub const BASH_COMPLETION: &'static str = r#"# work — git worktree manager (bash completions)
_work() {
    local cur prev words cword
    _init_completion || return

    local all_commands="add list remove cd lock unlock move repair prune init completions"

    if [[ $cword -eq 1 ]]; then
        COMPREPLY=($(compgen -W "$all_commands" -- "$cur"))
        return
    fi

    local subcmd="${words[1]}"

    case "$subcmd" in
        remove|cd|lock|unlock|move)
            local names
            names=$(command work list-names 2>/dev/null)
            COMPREPLY=($(compgen -W "$names" -- "$cur"))
            ;;
        add)
            case "$prev" in
                -b|--branch|--expire) return ;;
            esac
            COMPREPLY=($(compgen -W "--branch --detach --no-checkout" -- "$cur"))
            ;;
        list)
            COMPREPLY=($(compgen -W "--porcelain --verbose" -- "$cur"))
            ;;
        prune)
            case "$prev" in
                --expire) return ;;
            esac
            COMPREPLY=($(compgen -W "--dry-run --verbose --expire" -- "$cur"))
            ;;
        init|completions)
            COMPREPLY=($(compgen -W "zsh fish bash" -- "$cur"))
            ;;
    esac
}

complete -F _work work
"#;

} // verus!
