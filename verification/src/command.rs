//! The command preparer: from the base command and argument list to the
//! final argument vector and working directory for one target. A pure
//! transform, no concurrency concerns.

use vstd::prelude::*;

use crate::strutil::str_eq;

verus! {

/// The flags put before the arguments to keep recognized commands
/// colouring their output when it goes to a pipe.
pub open spec fn spec_color_prefix(command: Seq<char>, use_color: bool) -> Seq<Seq<char>> {
    if use_color && command == "git"@ {
        seq!["-c"@, "color.status=always"@]
    } else if use_color && command == "grep"@ {
        seq!["--color=always"@]
    } else {
        Seq::empty()
    }
}

/// The exclusion flags put before grep's arguments: build trees, caches and
/// lock files that a search across repositories should skip.
pub open spec fn spec_grep_excludes() -> Seq<Seq<char>> {
    seq![
        "--exclude-dir=.git"@,
        "--exclude-dir=.helm"@,
        "--exclude-dir=.tox"@,
        "--exclude-dir=.pulumi"@,
        "--exclude-dir=.cache"@,
        "--exclude-dir=.mypy_cache"@,
        "--exclude-dir=.eggs"@,
        "--exclude-dir=*.egg-info"@,
        "--exclude-dir=*venv*"@,
        "--exclude-dir=_build"@,
        "--exclude-dir=__pycache__"@,
        "--exclude-dir=.ruff_cache"@,
        "--exclude=\"*.pyc\""@,
        "--exclude-dir=.pytest_cache"@,
        "--exclude=poetry.lock"@,
        "--exclude-dir=htmlcov"@,
        "--exclude=\"*.html\""@,
        "--exclude=build.*trace"@,
        "--exclude=Session.vim"@,
    ]
}

/// The exclusion flags for the given command: grep gets its list, every
/// other command gets none.
pub open spec fn spec_exclude_flags(command: Seq<char>) -> Seq<Seq<char>> {
    if command == "grep"@ {
        spec_grep_excludes()
    } else {
        Seq::empty()
    }
}

/// The final argument vector for one target: colour flags, exclusion
/// flags, the caller's arguments, and — in file mode — the target itself as
/// the last argument.
pub open spec fn spec_prepared_args(
    command: Seq<char>,
    arguments: Seq<Seq<char>>,
    target: Seq<char>,
    use_color: bool,
    in_repos: bool,
) -> Seq<Seq<char>> {
    spec_color_prefix(command, use_color) + spec_exclude_flags(command) + arguments + (
    if in_repos {
        Seq::<Seq<char>>::empty()
    } else {
        seq![target]
    })
}

/// What to spawn for one target: the argument vector, and the directory to
/// run in when operating on repositories.
pub struct PreparedInvocation {
    /// The arguments, in the order they are handed to the executable.
    pub args: Vec<String>,
    /// The working directory: the target in repository mode, absent in
    /// file mode (the target is then the last argument instead).
    pub workdir: Option<String>,
}

fn push_grep_excludes(out: &mut Vec<String>)
    ensures
        final(out).deep_view() == old(out).deep_view() + spec_grep_excludes(),
{
    out.push("--exclude-dir=.git".to_owned());
    out.push("--exclude-dir=.helm".to_owned());
    out.push("--exclude-dir=.tox".to_owned());
    out.push("--exclude-dir=.pulumi".to_owned());
    out.push("--exclude-dir=.cache".to_owned());
    out.push("--exclude-dir=.mypy_cache".to_owned());
    out.push("--exclude-dir=.eggs".to_owned());
    out.push("--exclude-dir=*.egg-info".to_owned());
    out.push("--exclude-dir=*venv*".to_owned());
    out.push("--exclude-dir=_build".to_owned());
    out.push("--exclude-dir=__pycache__".to_owned());
    out.push("--exclude-dir=.ruff_cache".to_owned());
    out.push("--exclude=\"*.pyc\"".to_owned());
    out.push("--exclude-dir=.pytest_cache".to_owned());
    out.push("--exclude=poetry.lock".to_owned());
    out.push("--exclude-dir=htmlcov".to_owned());
    out.push("--exclude=\"*.html\"".to_owned());
    out.push("--exclude=build.*trace".to_owned());
    out.push("--exclude=Session.vim".to_owned());
    proof {
        assert(out.deep_view() =~= old(out).deep_view() + spec_grep_excludes());
    }
}

/// Builds the argument vector and working directory for one target.
pub fn prepare_invocation(
    command: &str,
    arguments: &Vec<String>,
    target: &str,
    use_color: bool,
    in_repos: bool,
) -> (r: PreparedInvocation)
    ensures
        r.args.deep_view() == spec_prepared_args(
            command@,
            arguments.deep_view(),
            target@,
            use_color,
            in_repos,
        ),
        in_repos ==> (r.workdir matches Some(d) && d@ == target@),
        !in_repos ==> r.workdir is None,
{
    let mut out: Vec<String> = Vec::new();
    if use_color && str_eq(command, "git") {
        out.push("-c".to_owned());
        out.push("color.status=always".to_owned());
    } else if use_color && str_eq(command, "grep") {
        out.push("--color=always".to_owned());
    }
    proof {
        assert(out.deep_view() =~= spec_color_prefix(command@, use_color));
    }
    if str_eq(command, "grep") {
        push_grep_excludes(&mut out);
    }
    proof {
        assert(out.deep_view() =~= spec_color_prefix(command@, use_color) + spec_exclude_flags(
            command@,
        ));
    }
    let ghost before_args = out.deep_view();
    let n = arguments.len();
    let mut i: usize = 0;
    while i < n
        invariant
            n == arguments.len(),
            i <= n,
            out.deep_view() =~= before_args + arguments.deep_view().take(i as int),
        decreases n - i,
    {
        let ghost pre = out.deep_view();
        out.push(arguments[i].clone());
        proof {
            assert forall|j: int| 0 <= j < out@.len() implies out.deep_view()[j] == pre.push(
                arguments.deep_view()[i as int],
            )[j] by {
                assert(out.deep_view()[j] == out@[j].deep_view());
            }
            assert(out.deep_view() =~= pre.push(arguments.deep_view()[i as int]));
            assert(out.deep_view() =~= before_args + arguments.deep_view().take(i + 1));
        }
        i += 1;
    }
    proof {
        assert(arguments.deep_view().take(n as int) =~= arguments.deep_view());
    }
    if in_repos {
        proof {
            assert(out.deep_view() =~= spec_prepared_args(
                command@,
                arguments.deep_view(),
                target@,
                use_color,
                in_repos,
            ));
        }
        PreparedInvocation { args: out, workdir: Some(target.to_owned()) }
    } else {
        out.push(target.to_owned());
        proof {
            assert(out.deep_view() =~= spec_prepared_args(
                command@,
                arguments.deep_view(),
                target@,
                use_color,
                in_repos,
            ));
        }
        PreparedInvocation { args: out, workdir: None }
    }
}

} // verus!
