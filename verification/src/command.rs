//! How a script step becomes a process to start.

use vstd::prelude::*;
use crate::text::string_views;

verus! {

/// A program and its arguments.
pub struct CommandLine {
    pub program: String,
    pub args: Vec<String>,
}

/// The program and arguments for the command `parts`: through the platform shell
/// (`cmd /C` on Windows, `sh -c` elsewhere) with `parts[0]` as the command text, or
/// `parts[0]` run directly with the remaining parts as its arguments.
pub open spec fn spec_command_line(parts: Seq<Seq<char>>, use_shell: bool, on_windows: bool) -> (
    Seq<char>,
    Seq<Seq<char>>,
) {
    if use_shell {
        if on_windows {
            (seq!['c', 'm', 'd'], seq![seq!['/', 'C'], parts[0]])
        } else {
            (seq!['s', 'h'], seq![seq!['-', 'c'], parts[0]])
        }
    } else {
        (parts[0], parts.skip(1))
    }
}

/// The process that runs the command `parts` (see [`spec_command_line`]).
pub fn command_line(parts: &Vec<String>, use_shell: bool, on_windows: bool) -> (cl: CommandLine)
    requires
        parts.len() > 0,
    ensures
        (cl.program@, string_views(cl.args@)) == spec_command_line(
            string_views(parts@),
            use_shell,
            on_windows,
        ),
{
    let ghost views = string_views(parts@);
    assert(views[0] == parts@[0]@);
    if use_shell {
        let (shell, flag) = if on_windows {
            ("cmd", "/C")
        } else {
            ("sh", "-c")
        };
        proof {
            reveal_strlit("cmd");
            reveal_strlit("/C");
            reveal_strlit("sh");
            reveal_strlit("-c");
        }
        let mut args: Vec<String> = Vec::new();
        args.push(String::from_str(flag));
        args.push(parts[0].clone());
        let cl = CommandLine { program: String::from_str(shell), args };
        proof {
            if on_windows {
                assert(shell@ =~= seq!['c', 'm', 'd']);
                assert(flag@ =~= seq!['/', 'C']);
            } else {
                assert(shell@ =~= seq!['s', 'h']);
                assert(flag@ =~= seq!['-', 'c']);
            }
            assert(string_views(cl.args@) =~= seq![flag@, parts@[0]@]);
        }
        cl
    } else {
        let mut args: Vec<String> = Vec::new();
        for k in 1..parts.len()
            invariant
                parts.len() > 0,
                string_views(args@) == string_views(parts@).subrange(1, k as int),
        {
            let ghost before = args@;
            args.push(parts[k].clone());
            assert(string_views(args@) =~= string_views(before).push(parts@[k as int]@));
            assert(string_views(args@) =~= string_views(parts@).subrange(1, k + 1));
        }
        let cl = CommandLine { program: parts[0].clone(), args };
        assert(string_views(parts@).subrange(1, parts@.len() as int) =~= string_views(parts@).skip(1));
        cl
    }
}

} // verus!
