//! The commands that run before and after a rotation.

use crate::models::config::HookCommand;
use crate::text::{
    append, chars_of, clone_pairs, clone_strings, string_of, string_views, to_uppercase,
    to_uppercase_spec,
};
use crate::text_map::{pair_views, TextMap};
use vstd::prelude::*;

verus! {

/// One command to run: the program, its arguments, the variables to add to
/// its environment, in the order in which they are set, and the directory
/// to run it in.
#[derive(Debug)]
pub struct HookInvocation {
    pub program: String,
    pub args: Vec<String>,
    pub env: Vec<(String, String)>,
    pub cwd: String,
}

/// The characters of `ROTATOR_KEY_`, which begin the names of the variables
/// that carry the values of a rotation.
pub open spec fn env_prefix_spec() -> Seq<char> {
    seq!['R', 'O', 'T', 'A', 'T', 'O', 'R', '_', 'K', 'E', 'Y', '_']
}

/// The variable that carries the value of a key: `ROTATOR_KEY_` and the name
/// of the key in upper case.
pub open spec fn env_name_spec(key: Seq<char>) -> Seq<char> {
    env_prefix_spec() + to_uppercase_spec(key)
}

/// The variables that carry the values of a rotation, one for every key.
pub open spec fn data_env_spec(pairs: Seq<(Seq<char>, Seq<char>)>) -> Seq<(Seq<char>, Seq<char>)> {
    pairs.map_values(|p: (Seq<char>, Seq<char>)| (env_name_spec(p.0), p.1))
}

/// The variables of a hook: those that carry the values, then those that
/// the hook declares.
pub open spec fn hook_env_spec(hook: HookCommand, pairs: Seq<(Seq<char>, Seq<char>)>) -> Seq<
    (Seq<char>, Seq<char>),
> {
    match hook.env {
        Some(env) => data_env_spec(pairs) + pair_views(env@),
        None => data_env_spec(pairs),
    }
}

/// The arguments of a hook.
pub open spec fn hook_args_spec(hook: HookCommand) -> Seq<Seq<char>> {
    match hook.args {
        Some(args) => string_views(args@),
        None => seq![],
    }
}

/// The command line that the shell gets: the command and its arguments with
/// single spaces between them.
pub open spec fn shell_line_spec(command: Seq<char>, args: Seq<Seq<char>>) -> Seq<char>
    decreases args.len(),
{
    if args.len() == 0 {
        command
    } else {
        shell_line_spec(command, args.drop_last()) + seq![' '] + args.last()
    }
}

/// Whether the hook is handed to the shell.
pub open spec fn runs_in_shell(hook: HookCommand) -> bool {
    hook.shell == Some(true)
}

/// Whether `inv` runs the hook: in the shell as `sh -c` with the command
/// line, or directly with its arguments; in the directory `cwd`; with the
/// variables of the hook.
pub open spec fn runs_hook(
    inv: HookInvocation,
    hook: HookCommand,
    cwd: Seq<char>,
    pairs: Seq<(Seq<char>, Seq<char>)>,
) -> bool {
    &&& inv.cwd@ == cwd
    &&& pair_views(inv.env@) == hook_env_spec(hook, pairs)
    &&& if runs_in_shell(hook) {
        &&& inv.program@ == seq!['s', 'h']
        &&& string_views(inv.args@) == seq![
            seq!['-', 'c'],
            shell_line_spec(hook.command@, hook_args_spec(hook)),
        ]
    } else {
        &&& inv.program@ == hook.command@
        &&& string_views(inv.args@) == hook_args_spec(hook)
    }
}

/// The variables that carry the values of a rotation.
fn data_env(secret_data: &TextMap) -> (env: Vec<(String, String)>)
    ensures
        pair_views(env@) == data_env_spec(secret_data.pairs()),
{
    proof {
        reveal_strlit("ROTATOR_KEY_");
    }
    assert("ROTATOR_KEY_"@ =~= env_prefix_spec());
    let mut env: Vec<(String, String)> = Vec::new();
    let mut i: usize = 0;
    while i < secret_data.entries.len()
        invariant
            i <= secret_data.entries@.len(),
            "ROTATOR_KEY_"@ == env_prefix_spec(),
            pair_views(env@) == data_env_spec(secret_data.pairs()).take(i as int),
        decreases secret_data.entries@.len() - i,
    {
        let mut name = chars_of("ROTATOR_KEY_");
        let upper = to_uppercase(secret_data.entries[i].0.as_str());
        let upper_chars = chars_of(upper.as_str());
        append(&mut name, upper_chars.as_slice());
        let ghost before = env@;
        env.push((string_of(name.as_slice()), secret_data.entries[i].1.clone()));
        assert(pair_views(env@) =~= pair_views(before).push(
            (env_name_spec(secret_data.entries@[i as int].0@), secret_data.entries@[i as int].1@),
        ));
        assert(pair_views(env@) =~= data_env_spec(secret_data.pairs()).take(i + 1));
        i += 1;
    }
    assert(data_env_spec(secret_data.pairs()).take(secret_data.entries@.len() as int)
        =~= data_env_spec(secret_data.pairs()));
    env
}

/// The command line that the shell gets.
fn shell_line(command: &str, args: &Option<Vec<String>>) -> (line: String)
    ensures
        line@ == shell_line_spec(
            command@,
            match args {
                Some(a) => string_views(a@),
                None => seq![],
            },
        ),
{
    let mut line = chars_of(command);
    match args {
        None => {},
        Some(list) => {
            let mut i: usize = 0;
            assert(string_views(list@).take(0) =~= Seq::<Seq<char>>::empty());
            while i < list.len()
                invariant
                    i <= list@.len(),
                    line@ == shell_line_spec(command@, string_views(list@).take(i as int)),
                decreases list@.len() - i,
            {
                let ghost next = string_views(list@).take(i + 1);
                assert(next.drop_last() == string_views(list@).take(i as int));
                assert(next.last() == list@[i as int]@);
                line.push(' ');
                let arg = chars_of(list[i].as_str());
                append(&mut line, arg.as_slice());
                i += 1;
            }
            assert(string_views(list@).take(list@.len() as int) == string_views(list@));
        },
    }
    string_of(line.as_slice())
}

/// How a hook is run with the values of a rotation.
pub fn hook_invocation(hook: &HookCommand, cwd: &str, secret_data: &TextMap) -> (inv:
    HookInvocation)
    ensures
        runs_hook(inv, *hook, cwd@, secret_data.pairs()),
{
    let mut env = data_env(secret_data);
    match &hook.env {
        Some(own) => {
            let ghost before = env@;
            let mut extra = clone_pairs(own);
            env.append(&mut extra);
            assert(pair_views(env@) =~= pair_views(before) + pair_views(own@));
        },
        None => {},
    }
    let in_shell = match hook.shell {
        Some(b) => b,
        None => false,
    };
    if in_shell {
        proof {
            reveal_strlit("sh");
            reveal_strlit("-c");
        }
        let mut args: Vec<String> = Vec::new();
        let flag = "-c".to_owned();
        assert(flag@ =~= seq!['-', 'c']);
        let line = shell_line(hook.command.as_str(), &hook.args);
        args.push(flag);
        args.push(line);
        let program = "sh".to_owned();
        assert(program@ =~= seq!['s', 'h']);
        assert(string_views(args@) =~= seq![
            seq!['-', 'c'],
            shell_line_spec(hook.command@, hook_args_spec(*hook)),
        ]);
        HookInvocation { program, args, env, cwd: cwd.to_owned() }
    } else {
        let args = match &hook.args {
            Some(a) => clone_strings(a),
            None => Vec::new(),
        };
        assert(string_views(args@) =~= hook_args_spec(*hook));
        HookInvocation { program: hook.command.clone(), args, env, cwd: cwd.to_owned() }
    }
}

/// The commands to run for the hooks, in order: none in a dry run, one for
/// every hook otherwise. Whoever runs them stops at the first that fails.
pub fn execute_hooks(hooks: &[HookCommand], cwd: &str, dry_run: bool, secret_data: &TextMap) -> (run:
    Vec<HookInvocation>)
    ensures
        dry_run ==> run@.len() == 0,
        !dry_run ==> run@.len() == hooks@.len(),
        forall|i: int|
            0 <= i < run@.len() ==> runs_hook(
                #[trigger] run@[i],
                hooks@[i],
                cwd@,
                secret_data.pairs(),
            ),
{
    let mut run: Vec<HookInvocation> = Vec::new();
    if dry_run {
        return run;
    }
    let mut i: usize = 0;
    while i < hooks.len()
        invariant
            i <= hooks@.len(),
            run@.len() == i,
            forall|j: int|
                0 <= j < run@.len() ==> runs_hook(
                    #[trigger] run@[j],
                    hooks@[j],
                    cwd@,
                    secret_data.pairs(),
                ),
        decreases hooks@.len() - i,
    {
        run.push(hook_invocation(&hooks[i], cwd, secret_data));
        i += 1;
    }
    run
}

} // verus!
