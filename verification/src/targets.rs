//! From the lines of the configuration file to the flat target list:
//! comment and blank lines are skipped, shell variables are expanded, and a
//! line holding a pattern is brace- and glob-expanded.

use vstd::prelude::*;

use crate::strutil::first_char_is;
use crate::strutil::all_space;
use crate::strutil::contains_char;
use crate::strutil::spec_all_space;

verus! {

/// Whether the line contributes no targets: a comment or only white space.
pub open spec fn spec_should_skip(line: Seq<char>) -> bool {
    (line.len() > 0 && line[0] == '#') || spec_all_space(line)
}

/// Decides `spec_should_skip`.
pub fn should_skip_line(line: &str) -> (r: bool)
    ensures
        r == spec_should_skip(line@),
{
    first_char_is(line, '#') || all_space(line)
}

/// Whether the expanded line holds a pattern that needs brace and glob
/// expansion rather than naming one target literally.
pub open spec fn spec_needs_expansion(s: Seq<char>) -> bool {
    s.contains('*') || s.contains('{')
}

/// Decides `spec_needs_expansion`.
pub fn needs_expansion(s: &str) -> (r: bool)
    ensures
        r == spec_needs_expansion(s@),
{
    contains_char(s, '*') || contains_char(s, '{')
}

/// Where the target list is read from: the name itself when absolute,
/// otherwise under the personal configuration directory in the home.
pub open spec fn spec_config_search_path(filename: Seq<char>, home: Seq<char>) -> Seq<char> {
    if filename.len() > 0 && filename[0] == '/' {
        filename
    } else {
        home + "/.config/personal/"@ + filename
    }
}

/// Resolves the configuration file's path from its name and the home
/// directory.
pub fn config_search_path(filename: &str, home: &str) -> (r: String)
    ensures
        r@ == spec_config_search_path(filename@, home@),
{
    if first_char_is(filename, '/') {
        filename.to_owned()
    } else {
        let mut r = home.to_owned();
        r.append("/.config/personal/");
        r.append(filename);
        proof {
            assert(r@ =~= spec_config_search_path(filename@, home@));
        }
        r
    }
}

/// The brace depth after reading `s` left to right with `opened` lists
/// already open: a backslash escapes the character after it, an unescaped
/// `{` opens a list and an unescaped `}` closes one; absent as soon as a
/// close outruns the opens.
pub open spec fn spec_brace_depth_from(opened: int, s: Seq<char>) -> Option<int>
    decreases s.len(),
{
    if s.len() == 0 {
        Some(opened)
    } else if s[0] == '\\' {
        if s.len() == 1 {
            Some(opened)
        } else {
            spec_brace_depth_from(opened, s.skip(2))
        }
    } else if s[0] == '{' {
        spec_brace_depth_from(opened + 1, s.skip(1))
    } else if s[0] == '}' {
        if opened == 0 {
            None
        } else {
            spec_brace_depth_from(opened - 1, s.skip(1))
        }
    } else {
        spec_brace_depth_from(opened, s.skip(1))
    }
}

/// Whether the string's brace lists are balanced: every unescaped `{` is
/// closed and no unescaped `}` arrives before its opening.
pub open spec fn spec_braces_balanced(s: Seq<char>) -> bool {
    spec_brace_depth_from(0, s) == Some(0int)
}

/// Decides `spec_braces_balanced`.
pub fn braces_balanced(s: &str) -> (r: bool)
    ensures
        r == spec_braces_balanced(s@),
{
    let n = s.unicode_len();
    let mut depth: usize = 0;
    let mut i: usize = 0;
    proof {
        assert(s@.skip(0) =~= s@);
    }
    while i < n
        invariant
            n == s@.len(),
            i <= n,
            depth <= i,
            spec_brace_depth_from(0, s@) == spec_brace_depth_from(
                depth as int,
                s@.skip(i as int),
            ),
        decreases n - i,
    {
        let c = s.get_char(i);
        proof {
            assert(s@.skip(i as int)[0] == s@[i as int]);
            assert(s@.skip(i as int).skip(1) =~= s@.skip(i + 1));
            if i + 2 <= n {
                assert(s@.skip(i as int).skip(2) =~= s@.skip(i + 2));
            }
        }
        if c == '\\' {
            if i + 1 >= n {
                proof {
                    assert(s@.skip(i as int).len() == 1);
                    assert(s@.skip(n as int) =~= Seq::<char>::empty());
                }
                i = n;
            } else {
                i += 2;
            }
        } else if c == '{' {
            depth += 1;
            i += 1;
        } else if c == '}' {
            if depth == 0 {
                return false;
            }
            depth -= 1;
            i += 1;
        } else {
            i += 1;
        }
    }
    proof {
        assert(s@.skip(n as int) =~= Seq::<char>::empty());
    }
    depth == 0
}

/// The brace expansions of a string, in the order the expansion produces
/// them.
pub uninterp spec fn brace_expansion_of(s: Seq<char>) -> Seq<Seq<char>>;

/// Relies on `shellexpand::full`: expands `~` and `$`-variables in the
/// line. The result depends on the process environment, so nothing is
/// promised of the expanded text.
#[verifier::external_body]
fn shell_expand(line: &str) -> (r: Result<String, String>)
{
    match shellexpand::full(line) {
        Ok(expanded) => Ok(expanded.into_owned()),
        Err(e) => Err(e.to_string()),
    }
}

/// Relies on `brace_expand::brace_expand`: the shell-style brace expansions
/// of the string, a function of the string alone. On a balanced string
/// every expansion round strictly shrinks its work item, so the call
/// returns; on a string with an unclosed list holding a comma it never
/// returns, so the `requires` leaves unbalanced strings out.
#[verifier::external_body]
fn brace_expand_line(line: &str) -> (r: Vec<String>)
    requires
        spec_braces_balanced(line@),
    ensures
        r.deep_view() == brace_expansion_of(line@),
{
    brace_expand::brace_expand(line)
}

/// Relies on `globby::glob`: the paths under the current directory that
/// match the pattern. The result depends on the directory tree, so nothing
/// is promised of the matched paths.
#[verifier::external_body]
fn glob_paths(pattern: &str) -> (r: Result<Vec<String>, String>)
{
    let walker = match globby::glob(pattern) {
        Ok(walker) => walker,
        Err(e) => return Err(format!("{:?}", e)),
    };
    let mut out: Vec<String> = Vec::new();
    for entry in walker {
        match entry {
            Ok(path) => out.push(path.display().to_string()),
            Err(e) => return Err(e.to_string()),
        }
    }
    Ok(out)
}

/// The groups of `parts` laid out one after another, in order.
pub open spec fn spec_concat_all(parts: Seq<Seq<Seq<char>>>) -> Seq<Seq<char>>
    decreases parts.len(),
{
    if parts.len() == 0 {
        Seq::empty()
    } else {
        spec_concat_all(parts.drop_last()) + parts.last()
    }
}

/// Concatenates the groups of `parts` in order.
pub fn concat_all(parts: &Vec<Vec<String>>) -> (r: Vec<String>)
    ensures
        r.deep_view() == spec_concat_all(parts.deep_view()),
{
    let mut out: Vec<String> = Vec::new();
    let n = parts.len();
    let mut i: usize = 0;
    while i < n
        invariant
            n == parts.len(),
            i <= n,
            out.deep_view() =~= spec_concat_all(parts.deep_view().take(i as int)),
        decreases n - i,
    {
        let group = &parts[i];
        proof {
            assert(parts.deep_view()[i as int] == parts@[i as int].deep_view());
        }
        let m = group.len();
        let mut j: usize = 0;
        while j < m
            invariant
                n == parts.len(),
                i < n,
                group == &parts@[i as int],
                m == group.len(),
                j <= m,
                out.deep_view() =~= spec_concat_all(parts.deep_view().take(i as int))
                    + group.deep_view().take(j as int),
            decreases m - j,
        {
            let ghost pre = out.deep_view();
            out.push(group[j].clone());
            proof {
                assert forall|k: int| 0 <= k < out@.len() implies out.deep_view()[k] == pre.push(
                    group.deep_view()[j as int],
                )[k] by {
                    assert(out.deep_view()[k] == out@[k].deep_view());
                }
                assert(out.deep_view() =~= pre.push(group.deep_view()[j as int]));
                assert(group.deep_view().take(j + 1) =~= group.deep_view().take(j as int).push(
                    group.deep_view()[j as int],
                ));
            }
            j += 1;
        }
        proof {
            let pv = parts.deep_view();
            assert(group.deep_view().take(m as int) =~= group.deep_view());
            assert(pv.take(i + 1).drop_last() =~= pv.take(i as int));
            assert(pv.take(i + 1).last() == pv[i as int]);
        }
        i += 1;
    }
    proof {
        assert(parts.deep_view().take(n as int) =~= parts.deep_view());
    }
    out
}

/// Globs every brace piece, keeping one answer per piece, in order.
fn expand_patterns(pieces: &Vec<String>) -> (r: Result<Vec<Vec<String>>, String>)
    ensures
        r matches Ok(v) ==> v@.len() == pieces@.len(),
{
    let mut parts: Vec<Vec<String>> = Vec::new();
    let n = pieces.len();
    let mut i: usize = 0;
    while i < n
        invariant
            n == pieces.len(),
            i <= n,
            parts@.len() == i,
        decreases n - i,
    {
        match glob_paths(pieces[i].as_str()) {
            Ok(paths) => parts.push(paths),
            Err(m) => {
                return Err(m);
            },
        }
        i += 1;
    }
    Ok(parts)
}

/// What resolving one already shell-expanded line returns: a pattern-free
/// line is exactly its one target, and a pattern line is the concatenation,
/// in expansion order, of one glob answer per brace expansion of the line.
/// The answers themselves depend on the directory tree, so only their shape
/// is fixed here.
pub open spec fn spec_resolution_of(expanded: Seq<char>, targets: Seq<Seq<char>>) -> bool {
    if !spec_needs_expansion(expanded) {
        targets == seq![expanded]
    } else {
        exists|answers: Seq<Seq<Seq<char>>>|
            {
                &&& answers.len() == brace_expansion_of(expanded).len()
                &&& targets == spec_concat_all(answers)
            }
    }
}

/// Resolves one already shell-expanded line: a line without a pattern is
/// its one target; a pattern line is brace-expanded and each piece globbed,
/// the answers concatenated in order. An unbalanced brace list, a malformed
/// glob pattern, and a failed directory read are handed back as the error
/// text.
pub fn resolve_expanded(expanded: String) -> (r: Result<Vec<String>, String>)
    ensures
        !spec_needs_expansion(expanded@) ==> (r matches Ok(v) && v.deep_view() == seq![
            expanded@,
        ]),
        (spec_needs_expansion(expanded@) && !spec_braces_balanced(expanded@)) ==> r is Err,
        r matches Ok(v) ==> spec_resolution_of(expanded@, v.deep_view()),
{
    let ghost e = expanded@;
    if !needs_expansion(expanded.as_str()) {
        let mut out: Vec<String> = Vec::new();
        out.push(expanded);
        proof {
            assert(out.deep_view() =~= seq![e]);
        }
        return Ok(out);
    }
    if !braces_balanced(expanded.as_str()) {
        let mut m = "unclosed brace list in '".to_owned();
        m.append(expanded.as_str());
        m.append("'");
        return Err(m);
    }
    let pieces = brace_expand_line(expanded.as_str());
    let parts = match expand_patterns(&pieces) {
        Ok(p) => p,
        Err(m) => {
            return Err(m);
        },
    };
    let v = concat_all(&parts);
    proof {
        assert(parts.deep_view().len() == parts@.len());
        assert(pieces.deep_view().len() == pieces@.len());
        assert(parts.deep_view().len() == brace_expansion_of(e).len());
        assert(v.deep_view() == spec_concat_all(parts.deep_view()));
        assert(spec_resolution_of(e, v.deep_view()));
    }
    Ok(v)
}

/// Resolves one line of the target list: a comment or blank line yields no
/// targets; any other line is shell-expanded and then resolved as
/// [`spec_resolution_of`] says of the expanded text. An expansion failure
/// is handed back as the error text.
pub fn resolve_line(line: &str) -> (r: Result<Vec<String>, String>)
    ensures
        spec_should_skip(line@) ==> (r matches Ok(v) && v@.len() == 0),
        r matches Ok(v) ==> (!spec_should_skip(line@) ==> exists|e: Seq<char>|
            spec_resolution_of(e, v.deep_view())),
{
    if should_skip_line(line) {
        return Ok(Vec::new());
    }
    let expanded = match shell_expand(line) {
        Ok(e) => e,
        Err(m) => {
            return Err(m);
        },
    };
    let ghost e = expanded@;
    let result = resolve_expanded(expanded);
    proof {
        match &result {
            Ok(v) => {
                assert(spec_resolution_of(e, v.deep_view()));
            },
            Err(_) => {},
        }
    }
    result
}

/// Resolves the whole target list, one line at a time: the targets are the
/// in-order concatenation of each line's resolution, a comment or blank
/// line contributing none. A list of only comments and blank lines yields
/// no targets.
pub fn resolve_lines(lines: &Vec<String>) -> (r: Result<Vec<String>, String>)
    ensures
        (forall|i: int|
            0 <= i < lines.deep_view().len() ==> spec_should_skip(
                lines.deep_view()[i],
            )) ==> (r matches Ok(v) && v@.len() == 0),
        r matches Ok(v) ==> exists|per: Seq<Seq<Seq<char>>>|
            {
                &&& per.len() == lines@.len()
                &&& (forall|i: int|
                    0 <= i < per.len() && spec_should_skip(lines.deep_view()[i])
                        ==> per[i].len() == 0)
                &&& (forall|i: int|
                    0 <= i < per.len() && !spec_should_skip(lines.deep_view()[i])
                        ==> exists|e: Seq<char>| spec_resolution_of(e, per[i]))
                &&& v.deep_view() == spec_concat_all(per)
            },
{
    let mut out: Vec<String> = Vec::new();
    let ghost mut per: Seq<Seq<Seq<char>>> = Seq::empty();
    let n = lines.len();
    let mut i: usize = 0;
    while i < n
        invariant
            n == lines.len(),
            i <= n,
            per.len() == i,
            (forall|j: int|
                0 <= j < i && spec_should_skip(lines.deep_view()[j]) ==> per[j].len() == 0),
            (forall|j: int|
                0 <= j < i && !spec_should_skip(lines.deep_view()[j]) ==> exists|e: Seq<char>|
                    spec_resolution_of(e, per[j])),
            out.deep_view() == spec_concat_all(per),
            (forall|j: int|
                0 <= j < i ==> spec_should_skip(lines.deep_view()[j])) ==> out@.len() == 0,
        decreases n - i,
    {
        proof {
            assert(lines.deep_view()[i as int] == lines@[i as int].deep_view());
        }
        match resolve_line(lines[i].as_str()) {
            Ok(mut found) => {
                let ghost oseq = out@;
                let ghost fseq = found@;
                let ghost fv = found.deep_view();
                let ghost pre = out.deep_view();
                out.append(&mut found);
                proof {
                    assert(out@ == oseq + fseq);
                    assert(pre.len() == oseq.len());
                    assert forall|k: int| 0 <= k < out@.len() implies out.deep_view()[k] == (pre
                        + fv)[k] by {
                        assert(out.deep_view()[k] == out@[k].deep_view());
                        if k >= pre.len() {
                            assert(out@[k] == fseq[k - pre.len()]);
                            assert(fv[k - pre.len()] == fseq[k - pre.len()].deep_view());
                        } else {
                            assert(out@[k] == oseq[k]);
                            assert(pre[k] == oseq[k].deep_view());
                        }
                    }
                    assert(out.deep_view() =~= pre + fv);
                    let prev_per = per;
                    per = per.push(fv);
                    assert(per.drop_last() =~= prev_per);
                    assert(spec_concat_all(per) == spec_concat_all(prev_per) + fv);
                }
            },
            Err(m) => {
                return Err(m);
            },
        }
        i += 1;
    }
    Ok(out)
}

} // verus!
