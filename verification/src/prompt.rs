//! The prompt helper's path display: the working directory shortened so
//! that only its last three components stay whole, with the home directory
//! folded into `~/` and a host prefix when running inside a container.

use vstd::prelude::*;

use crate::strutil::join_char;
use crate::strutil::spec_join;
use crate::strutil::spec_split;
use crate::strutil::spec_starts_with;
use crate::strutil::split_char;
use crate::strutil::starts_with;

verus! {

/// One path component shortened: its first character, or its first two
/// when it is a hidden entry, components of one character staying whole.
pub open spec fn spec_shorten_token(t: Seq<char>) -> Seq<char> {
    if t.len() > 1 {
        if t[0] == '.' {
            t.take(2)
        } else {
            t.take(1)
        }
    } else {
        t
    }
}

/// Every component shortened but the last three, which stay whole.
pub open spec fn spec_shorten_tokens(tokens: Seq<Seq<char>>) -> Seq<Seq<char>> {
    Seq::new(
        tokens.len(),
        |i: int|
            if i + 3 >= tokens.len() {
                tokens[i]
            } else {
                spec_shorten_token(tokens[i])
            },
    )
}

/// Whether the path lies in the home directory and is folded into `~/`.
pub open spec fn spec_in_home(path: Seq<char>, home: Seq<char>) -> bool {
    home.len() > 0 && spec_starts_with(path, home)
}

/// The path's components after the home directory is folded away: none for
/// the home itself, and otherwise the components with the first three
/// dropped when there are more than three.
pub open spec fn spec_path_tokens(path: Seq<char>, home: Seq<char>) -> Seq<Seq<char>> {
    let tokens = spec_split(path, '/');
    if spec_in_home(path, home) {
        if path.len() == home.len() {
            Seq::empty()
        } else if tokens.len() > 3 {
            tokens.skip(3)
        } else {
            tokens
        }
    } else {
        tokens
    }
}

/// The shortened path as shown: a `~/` marker when the path lies in the
/// home directory, then the shortened components joined again.
pub open spec fn spec_shortened_path(path: Seq<char>, home: Seq<char>) -> Seq<char> {
    let marker: Seq<char> = if spec_in_home(path, home) {
        "~/"@
    } else {
        Seq::empty()
    };
    marker + spec_join(spec_shorten_tokens(spec_path_tokens(path, home)), '/')
}

/// The host prefix shown inside a container: the host's name between the
/// alert colour and the colour reset, or nothing on the host itself.
pub open spec fn spec_host_prefix(
    in_container: bool,
    alert_color: Seq<char>,
    host: Seq<char>,
    no_color: Seq<char>,
) -> Seq<char> {
    if in_container {
        alert_color + host + ": "@ + no_color
    } else {
        Seq::empty()
    }
}

/// The whole coloured segment printed for one path.
pub open spec fn spec_prompt_segment(
    path: Seq<char>,
    home: Seq<char>,
    color: Seq<char>,
    alert_color: Seq<char>,
    no_color: Seq<char>,
    in_container: bool,
    host: Seq<char>,
) -> Seq<char> {
    color + spec_host_prefix(in_container, alert_color, host, no_color)
        + spec_shortened_path(path, home) + no_color
}

fn shorten_token(t: &str) -> (r: String)
    ensures
        r@ == spec_shorten_token(t@),
{
    let n = t.unicode_len();
    if n > 1 {
        let c0 = t.get_char(0);
        let mut r = String::new();
        r.push(c0);
        if c0 == '.' {
            r.push(t.get_char(1));
            proof {
                assert(r@ =~= t@.take(2));
            }
        } else {
            proof {
                assert(r@ =~= t@.take(1));
            }
        }
        r
    } else {
        t.to_owned()
    }
}

fn shorten_tokens(tokens: &Vec<String>) -> (r: Vec<String>)
    ensures
        r.deep_view() == spec_shorten_tokens(tokens.deep_view()),
{
    let n = tokens.len();
    let mut out: Vec<String> = Vec::new();
    let mut i: usize = 0;
    while i < n
        invariant
            n == tokens.len(),
            i <= n,
            out.deep_view() =~= spec_shorten_tokens(tokens.deep_view()).take(i as int),
        decreases n - i,
    {
        proof {
            assert(tokens.deep_view()[i as int] == tokens@[i as int].deep_view());
        }
        let ghost pre = out.deep_view();
        let ghost expected = spec_shorten_tokens(tokens.deep_view())[i as int];
        if n - i <= 3 {
            out.push(tokens[i].clone());
        } else {
            let short = shorten_token(tokens[i].as_str());
            out.push(short);
        }
        proof {
            assert forall|k: int| 0 <= k < out@.len() implies out.deep_view()[k] == pre.push(
                expected,
            )[k] by {
                assert(out.deep_view()[k] == out@[k].deep_view());
            }
            assert(out.deep_view() =~= pre.push(expected));
            assert(out.deep_view() =~= spec_shorten_tokens(tokens.deep_view()).take(i + 1));
        }
        i += 1;
    }
    proof {
        assert(spec_shorten_tokens(tokens.deep_view()).take(n as int) =~= spec_shorten_tokens(
            tokens.deep_view(),
        ));
    }
    out
}

/// Shortens a path for display, folding the home directory into `~/`.
pub fn shortened_path(path: &str, home: &str) -> (r: String)
    ensures
        r@ == spec_shortened_path(path@, home@),
{
    let tokens = split_char(path, '/');
    let in_home = home.unicode_len() > 0 && starts_with(path, home);
    let mut kept: Vec<String>;
    if in_home {
        if path.unicode_len() == home.unicode_len() {
            kept = Vec::new();
            proof {
                assert(kept.deep_view() =~= spec_path_tokens(path@, home@));
            }
        } else if tokens.len() > 3 {
            kept = Vec::new();
            let n = tokens.len();
            let mut i: usize = 3;
            while i < n
                invariant
                    n == tokens.len(),
                    3 <= i <= n,
                    kept.deep_view() =~= tokens.deep_view().subrange(3, i as int),
                decreases n - i,
            {
                proof {
                    assert(tokens.deep_view()[i as int] == tokens@[i as int].deep_view());
                }
                let ghost pre = kept.deep_view();
                kept.push(tokens[i].clone());
                proof {
                    assert forall|k: int| 0 <= k < kept@.len() implies kept.deep_view()[k]
                        == pre.push(tokens.deep_view()[i as int])[k] by {
                        assert(kept.deep_view()[k] == kept@[k].deep_view());
                    }
                    assert(kept.deep_view() =~= pre.push(tokens.deep_view()[i as int]));
                    assert(kept.deep_view() =~= tokens.deep_view().subrange(3, i + 1));
                }
                i += 1;
            }
            proof {
                assert(tokens.deep_view().subrange(3, n as int) =~= tokens.deep_view().skip(3));
                assert(kept.deep_view() =~= spec_path_tokens(path@, home@));
            }
        } else {
            kept = tokens;
            proof {
                assert(kept.deep_view() =~= spec_path_tokens(path@, home@));
            }
        }
    } else {
        kept = tokens;
        proof {
            assert(kept.deep_view() =~= spec_path_tokens(path@, home@));
        }
    }
    let shortened = shorten_tokens(&kept);
    let joined = join_char(&shortened, '/');
    let mut r: String;
    if in_home {
        r = "~/".to_owned();
    } else {
        r = String::new();
    }
    r.append(joined.as_str());
    proof {
        assert(r@ =~= spec_shortened_path(path@, home@));
    }
    r
}

/// Renders the whole coloured segment for one path, the host name given.
pub fn prompt_segment(
    path: &str,
    home: &str,
    color: &str,
    alert_color: &str,
    no_color: &str,
    in_container: bool,
    host: &str,
) -> (r: String)
    ensures
        r@ == spec_prompt_segment(
            path@,
            home@,
            color@,
            alert_color@,
            no_color@,
            in_container,
            host@,
        ),
{
    let mut r = color.to_owned();
    if in_container {
        r.append(alert_color);
        r.append(host);
        r.append(": ");
        r.append(no_color);
    }
    let body = shortened_path(path, home);
    r.append(body.as_str());
    r.append(no_color);
    proof {
        assert(r@ =~= spec_prompt_segment(
            path@,
            home@,
            color@,
            alert_color@,
            no_color@,
            in_container,
            host@,
        ));
    }
    r
}

/// Relies on `gethostname::gethostname`: the machine's host name. The
/// result depends on the machine, so nothing is promised of it.
#[verifier::external_body]
fn hostname() -> (r: String)
{
    gethostname::gethostname().to_string_lossy().into_owned()
}

/// Renders the whole coloured segment for one path, reading this machine's
/// host name for the container prefix.
pub fn prompt_segment_here(
    path: &str,
    home: &str,
    color: &str,
    alert_color: &str,
    no_color: &str,
    in_container: bool,
) -> (r: String)
    ensures
        exists|host: Seq<char>|
            r@ == spec_prompt_segment(
                path@,
                home@,
                color@,
                alert_color@,
                no_color@,
                in_container,
                host,
            ),
{
    let host = hostname();
    let r = prompt_segment(path, home, color, alert_color, no_color, in_container, host.as_str());
    proof {
        assert(r@ == spec_prompt_segment(
            path@,
            home@,
            color@,
            alert_color@,
            no_color@,
            in_container,
            host@,
        ));
    }
    r
}

} // verus!
