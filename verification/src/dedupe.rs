//! Keeping one file per shared name: files whose names match a pattern are
//! grouped by the capture groups the pattern selects, and within each group
//! the oldest file is kept.

use vstd::prelude::*;

use crate::strutil::join_char;
use crate::strutil::spec_join;
use crate::strutil::str_eq;

verus! {

#[verifier::external_type_specification]
#[verifier::external_body]
/// A compiled regular expression, opaque here; its behaviour is a function
/// of the pattern it was compiled from.
pub struct ExRegex(regex::Regex);

/// The pattern a compiled regular expression was compiled from.
pub uninterp spec fn regex_source(re: regex::Regex) -> Seq<char>;

/// Whether the text is a well-formed pattern that compiles.
pub uninterp spec fn spec_regex_valid(pattern: Seq<char>) -> bool;

/// Whether the pattern matches somewhere in the text.
pub uninterp spec fn spec_regex_matches(pattern: Seq<char>, text: Seq<char>) -> bool;

/// The capture groups of the pattern's leftmost match in the text: group 0
/// is the whole match, and a group that did not participate is absent.
pub uninterp spec fn spec_regex_groups(pattern: Seq<char>, text: Seq<char>) -> Seq<
    Option<Seq<char>>,
>;

/// Relies on `regex::Regex::new`: under its default configuration, whether
/// compilation succeeds depends on the pattern alone, and the compiled
/// value keeps its source, which `Regex::as_str` gives back.
#[verifier::external_body]
fn regex_new(pattern: &str) -> (r: Option<regex::Regex>)
    ensures
        r is Some <==> spec_regex_valid(pattern@),
        r matches Some(re) ==> regex_source(re) == pattern@,
{
    regex::Regex::new(pattern).ok()
}

/// Compiles a pattern for the scan: a compiled value of exactly this
/// pattern when it is well formed, nothing otherwise.
pub fn compile_pattern(pattern: &str) -> (r: Option<regex::Regex>)
    ensures
        r is Some <==> spec_regex_valid(pattern@),
        r matches Some(re) ==> regex_source(re) == pattern@,
{
    regex_new(pattern)
}

/// Relies on `regex::Regex::is_match`: whether the compiled pattern
/// matches somewhere in the text, a function of the pattern and the text
/// alone.
#[verifier::external_body]
fn regex_is_match(re: &regex::Regex, text: &str) -> (r: bool)
    ensures
        r == spec_regex_matches(regex_source(*re), text@),
{
    re.is_match(text)
}

/// Relies on `regex::Regex::captures`: the capture groups of the leftmost
/// match, present exactly when the pattern matches, a function of the
/// pattern and the text alone.
#[verifier::external_body]
fn regex_captures(re: &regex::Regex, text: &str) -> (r: Option<Vec<Option<String>>>)
    ensures
        r is Some <==> spec_regex_matches(regex_source(*re), text@),
        r matches Some(groups) ==> groups.deep_view() == spec_regex_groups(
            regex_source(*re),
            text@,
        ),
{
    re.captures(text).map(|caps| caps.iter().map(|m| m.map(|g| g.as_str().to_owned())).collect())
}

/// The capture groups selected by `indexes`, in that order: an index out of
/// range or naming an absent group selects nothing.
pub open spec fn spec_selected_groups(
    groups: Seq<Option<Seq<char>>>,
    indexes: Seq<usize>,
) -> Seq<Seq<char>>
    decreases indexes.len(),
{
    if indexes.len() == 0 {
        Seq::empty()
    } else {
        let rest = spec_selected_groups(groups, indexes.drop_last());
        let idx = indexes.last();
        if idx < groups.len() && groups[idx as int] is Some {
            rest.push(groups[idx as int].unwrap())
        } else {
            rest
        }
    }
}

/// The shared name under which a file is grouped: the selected capture
/// groups of the pattern's match in its path, joined with single spaces.
pub open spec fn spec_shared_name(
    pattern: Seq<char>,
    path: Seq<char>,
    indexes: Seq<usize>,
) -> Option<Seq<char>> {
    if spec_regex_matches(pattern, path) {
        Some(spec_join(spec_selected_groups(spec_regex_groups(pattern, path), indexes), ' '))
    } else {
        None
    }
}

fn selected_groups(groups: &Vec<Option<String>>, indexes: &Vec<usize>) -> (r: Vec<String>)
    ensures
        r.deep_view() == spec_selected_groups(groups.deep_view(), indexes@),
{
    let mut out: Vec<String> = Vec::new();
    let n = indexes.len();
    let mut i: usize = 0;
    while i < n
        invariant
            n == indexes.len(),
            i <= n,
            out.deep_view() =~= spec_selected_groups(groups.deep_view(), indexes@.take(i as int)),
        decreases n - i,
    {
        let idx = indexes[i];
        let ghost pre = out.deep_view();
        proof {
            assert(indexes@.take(i + 1).drop_last() =~= indexes@.take(i as int));
            assert(indexes@.take(i + 1).last() == indexes@[i as int]);
        }
        if idx < groups.len() {
            proof {
                assert(groups.deep_view()[idx as int] == groups@[idx as int].deep_view());
            }
            match &groups[idx] {
                Some(g) => {
                    out.push(g.clone());
                    proof {
                        assert forall|k: int| 0 <= k < out@.len() implies out.deep_view()[k]
                            == pre.push(groups.deep_view()[idx as int].unwrap())[k] by {
                            assert(out.deep_view()[k] == out@[k].deep_view());
                        }
                        assert(out.deep_view() =~= pre.push(
                            groups.deep_view()[idx as int].unwrap(),
                        ));
                    }
                },
                None => {},
            }
        }
        proof {
            assert(out.deep_view() =~= spec_selected_groups(
                groups.deep_view(),
                indexes@.take(i + 1),
            ));
        }
        i += 1;
    }
    proof {
        assert(indexes@.take(n as int) =~= indexes@);
    }
    out
}

/// Extracts the shared name for one path: the selected capture groups of
/// the pattern's match, joined with single spaces, or nothing when the
/// pattern does not match the path.
pub fn shared_name(re: &regex::Regex, path: &str, indexes: &Vec<usize>) -> (r: Option<String>)
    ensures
        r is Some <==> spec_regex_matches(regex_source(*re), path@),
        r matches Some(name) ==> Some(name@) == spec_shared_name(
            regex_source(*re),
            path@,
            indexes@,
        ),
{
    match regex_captures(re, path) {
        Some(groups) => {
            let selected = selected_groups(&groups, indexes);
            Some(join_char(&selected, ' '))
        },
        None => None,
    }
}

/// One file seen while scanning: its path, the shared name it is grouped
/// under, and its creation time in nanoseconds since the epoch.
pub struct FileEntry {
    /// The file's path.
    pub name: String,
    /// The shared name it is grouped under.
    pub key: String,
    /// Its creation time, in nanoseconds since the epoch.
    pub ts: u64,
}

/// The ghost image of one entry.
pub struct EntryView {
    /// The file's path.
    pub name: Seq<char>,
    /// The shared name.
    pub key: Seq<char>,
    /// The creation time.
    pub ts: u64,
}

impl View for FileEntry {
    type V = EntryView;

    open spec fn view(&self) -> EntryView {
        EntryView { name: self.name@, key: self.key@, ts: self.ts }
    }
}

/// The ghost image of a scan list.
pub open spec fn entries_view(v: Seq<FileEntry>) -> Seq<EntryView> {
    Seq::new(v.len(), |i: int| v[i]@)
}

/// The first entry grouped under `key`, scanning from the front.
pub open spec fn spec_find(s: Seq<EntryView>, key: Seq<char>) -> Option<EntryView>
    decreases s.len(),
{
    if s.len() == 0 {
        None
    } else if s[0].key == key {
        Some(s[0])
    } else {
        spec_find(s.drop_first(), key)
    }
}

/// The entries whose keys the pattern matches, in order.
pub open spec fn spec_prune(s: Seq<EntryView>, pattern: Seq<char>) -> Seq<EntryView>
    decreases s.len(),
{
    if s.len() == 0 {
        Seq::empty()
    } else {
        let rest = spec_prune(s.drop_last(), pattern);
        if spec_regex_matches(pattern, s.last().key) {
            rest.push(s.last())
        } else {
            rest
        }
    }
}

/// The entries not grouped under `key`, in order.
pub open spec fn spec_remove_key(s: Seq<EntryView>, key: Seq<char>) -> Seq<EntryView>
    decreases s.len(),
{
    if s.len() == 0 {
        Seq::empty()
    } else {
        let rest = spec_remove_key(s.drop_last(), key);
        if s.last().key == key {
            rest
        } else {
            rest.push(s.last())
        }
    }
}

/// How one scanned file changes the kept set: a new shared name is added;
/// a file older than the one kept under its name replaces it, after the
/// kept set is pruned to keys the pattern still matches; a newer file is
/// dropped.
pub open spec fn spec_keep_step(
    s: Seq<EntryView>,
    pattern: Seq<char>,
    e: EntryView,
) -> Seq<EntryView> {
    match spec_find(s, e.key) {
        Some(cur) => if cur.ts > e.ts {
            spec_remove_key(spec_prune(s, pattern), e.key).push(e)
        } else {
            s
        },
        None => s.push(e),
    }
}

/// The kept set after every scanned file has been folded in, in scan order.
pub open spec fn spec_keep_run(entries: Seq<EntryView>, pattern: Seq<char>) -> Seq<EntryView>
    decreases entries.len(),
{
    if entries.len() == 0 {
        Seq::empty()
    } else {
        spec_keep_step(
            spec_keep_run(entries.drop_last(), pattern),
            pattern,
            entries.last(),
        )
    }
}

fn find_entry(kept: &Vec<FileEntry>, key: &str) -> (r: Option<usize>)
    ensures
        r matches Some(i) ==> i < kept@.len() && spec_find(entries_view(kept@), key@) == Some(
            kept@[i as int]@,
        ),
        r is None ==> spec_find(entries_view(kept@), key@) is None,
{
    let n = kept.len();
    let mut i: usize = 0;
    proof {
        assert(entries_view(kept@).skip(0) =~= entries_view(kept@));
    }
    while i < n
        invariant
            n == kept.len(),
            i <= n,
            spec_find(entries_view(kept@), key@) == spec_find(
                entries_view(kept@).skip(i as int),
                key@,
            ),
        decreases n - i,
    {
        proof {
            let ev = entries_view(kept@);
            assert(ev.skip(i as int).len() == n - i);
            assert(ev.skip(i as int)[0] == ev[i as int]);
            assert(ev.skip(i as int).drop_first() =~= ev.skip(i + 1));
        }
        if str_eq(kept[i].key.as_str(), key) {
            return Some(i);
        }
        i += 1;
    }
    proof {
        assert(entries_view(kept@).skip(n as int) =~= Seq::<EntryView>::empty());
    }
    None
}

fn prune_entries(kept: Vec<FileEntry>, re: &regex::Regex) -> (r: Vec<FileEntry>)
    ensures
        entries_view(r@) == spec_prune(entries_view(kept@), regex_source(*re)),
{
    let mut out: Vec<FileEntry> = Vec::new();
    let n = kept.len();
    let mut i: usize = 0;
    while i < n
        invariant
            n == kept.len(),
            i <= n,
            entries_view(out@) =~= spec_prune(
                entries_view(kept@).take(i as int),
                regex_source(*re),
            ),
        decreases n - i,
    {
        let ghost pre = entries_view(out@);
        proof {
            let ev = entries_view(kept@);
            assert(ev.take(i + 1).drop_last() =~= ev.take(i as int));
            assert(ev.take(i + 1).last() == ev[i as int]);
        }
        if regex_is_match(re, kept[i].key.as_str()) {
            let e = FileEntry {
                name: kept[i].name.clone(),
                key: kept[i].key.clone(),
                ts: kept[i].ts,
            };
            out.push(e);
            proof {
                assert forall|k: int| 0 <= k < out@.len() implies entries_view(out@)[k] == pre.push(
                    entries_view(kept@)[i as int],
                )[k] by {
                    assert(entries_view(out@)[k] == out@[k]@);
                }
                assert(entries_view(out@) =~= pre.push(entries_view(kept@)[i as int]));
            }
        }
        proof {
            assert(entries_view(out@) =~= spec_prune(
                entries_view(kept@).take(i + 1),
                regex_source(*re),
            ));
        }
        i += 1;
    }
    proof {
        assert(entries_view(kept@).take(n as int) =~= entries_view(kept@));
    }
    out
}

fn remove_key(kept: Vec<FileEntry>, key: &str) -> (r: Vec<FileEntry>)
    ensures
        entries_view(r@) == spec_remove_key(entries_view(kept@), key@),
{
    let mut out: Vec<FileEntry> = Vec::new();
    let n = kept.len();
    let mut i: usize = 0;
    while i < n
        invariant
            n == kept.len(),
            i <= n,
            entries_view(out@) =~= spec_remove_key(entries_view(kept@).take(i as int), key@),
        decreases n - i,
    {
        let ghost pre = entries_view(out@);
        proof {
            let ev = entries_view(kept@);
            assert(ev.take(i + 1).drop_last() =~= ev.take(i as int));
            assert(ev.take(i + 1).last() == ev[i as int]);
        }
        if !str_eq(kept[i].key.as_str(), key) {
            let e = FileEntry {
                name: kept[i].name.clone(),
                key: kept[i].key.clone(),
                ts: kept[i].ts,
            };
            out.push(e);
            proof {
                assert forall|k: int| 0 <= k < out@.len() implies entries_view(out@)[k] == pre.push(
                    entries_view(kept@)[i as int],
                )[k] by {
                    assert(entries_view(out@)[k] == out@[k]@);
                }
                assert(entries_view(out@) =~= pre.push(entries_view(kept@)[i as int]));
            }
        }
        proof {
            assert(entries_view(out@) =~= spec_remove_key(
                entries_view(kept@).take(i + 1),
                key@,
            ));
        }
        i += 1;
    }
    proof {
        assert(entries_view(kept@).take(n as int) =~= entries_view(kept@));
    }
    out
}

/// Folds one scanned file into the kept set, as [`spec_keep_step`] says.
pub fn keep_step(kept: Vec<FileEntry>, re: &regex::Regex, e: FileEntry) -> (r: Vec<FileEntry>)
    ensures
        entries_view(r@) == spec_keep_step(entries_view(kept@), regex_source(*re), e@),
{
    match find_entry(&kept, e.key.as_str()) {
        Some(i) => {
            if kept[i].ts > e.ts {
                let pruned = prune_entries(kept, re);
                let mut removed = remove_key(pruned, e.key.as_str());
                let ghost pre = entries_view(removed@);
                removed.push(e);
                proof {
                    assert forall|k: int| 0 <= k < removed@.len() implies entries_view(removed@)[k]
                        == pre.push(e@)[k] by {
                        assert(entries_view(removed@)[k] == removed@[k]@);
                    }
                    assert(entries_view(removed@) =~= pre.push(e@));
                }
                removed
            } else {
                kept
            }
        },
        None => {
            let mut out = kept;
            let ghost pre = entries_view(out@);
            out.push(e);
            proof {
                assert forall|k: int| 0 <= k < out@.len() implies entries_view(out@)[k] == pre.push(
                    e@,
                )[k] by {
                    assert(entries_view(out@)[k] == out@[k]@);
                }
                assert(entries_view(out@) =~= pre.push(e@));
            }
            out
        },
    }
}

/// Folds every scanned file into the kept set, in scan order, as
/// [`spec_keep_run`] says: for each shared name the oldest file wins.
pub fn keep_oldest(entries: Vec<FileEntry>, re: &regex::Regex) -> (r: Vec<FileEntry>)
    ensures
        entries_view(r@) == spec_keep_run(entries_view(entries@), regex_source(*re)),
{
    let mut kept: Vec<FileEntry> = Vec::new();
    let n = entries.len();
    let mut i: usize = 0;
    while i < n
        invariant
            n == entries.len(),
            i <= n,
            entries_view(kept@) =~= spec_keep_run(
                entries_view(entries@).take(i as int),
                regex_source(*re),
            ),
        decreases n - i,
    {
        proof {
            let ev = entries_view(entries@);
            assert(ev.take(i + 1).drop_last() =~= ev.take(i as int));
            assert(ev.take(i + 1).last() == ev[i as int]);
        }
        let e = FileEntry {
            name: entries[i].name.clone(),
            key: entries[i].key.clone(),
            ts: entries[i].ts,
        };
        kept = keep_step(kept, re, e);
        i += 1;
    }
    proof {
        assert(entries_view(entries@).take(n as int) =~= entries_view(entries@));
    }
    kept
}

/// The paths of the kept entries, in order.
pub fn kept_names(kept: &Vec<FileEntry>) -> (r: Vec<String>)
    ensures
        r.deep_view() == Seq::new(kept@.len(), |i: int| kept@[i]@.name),
{
    let mut out: Vec<String> = Vec::new();
    let n = kept.len();
    let mut i: usize = 0;
    while i < n
        invariant
            n == kept.len(),
            i <= n,
            out.deep_view() =~= Seq::new(i as nat, |j: int| kept@[j]@.name),
        decreases n - i,
    {
        let ghost pre = out.deep_view();
        out.push(kept[i].name.clone());
        proof {
            assert forall|k: int| 0 <= k < out@.len() implies out.deep_view()[k] == pre.push(
                kept@[i as int]@.name,
            )[k] by {
                assert(out.deep_view()[k] == out@[k].deep_view());
            }
            assert(out.deep_view() =~= pre.push(kept@[i as int]@.name));
            assert(out.deep_view() =~= Seq::new((i + 1) as nat, |j: int| kept@[j]@.name));
        }
        i += 1;
    }
    proof {
        assert(out.deep_view() =~= Seq::new(kept@.len(), |j: int| kept@[j]@.name));
    }
    out
}

/// Whether `name` is one of the kept paths; a scanned file that is not is
/// deleted.
pub fn is_kept(names: &Vec<String>, name: &str) -> (r: bool)
    ensures
        r == names.deep_view().contains(name@),
{
    let n = names.len();
    let mut i: usize = 0;
    while i < n
        invariant
            n == names.len(),
            i <= n,
            forall|j: int| 0 <= j < i ==> names.deep_view()[j] != name@,
        decreases n - i,
    {
        proof {
            assert(names.deep_view()[i as int] == names@[i as int].deep_view());
        }
        if str_eq(names[i].as_str(), name) {
            assert(names.deep_view()[i as int] == name@);
            return true;
        }
        i += 1;
    }
    assert(!names.deep_view().contains(name@));
    false
}

} // verus!
