//! Reading one setting out of a configuration file: the file's sections
//! and keys, converted to plain values at the edge, are looked up here.

use vstd::prelude::*;

use crate::strutil::str_eq;

verus! {

/// One key and its value.
pub struct SettingEntry {
    /// The key.
    pub key: String,
    /// The value.
    pub value: String,
}

/// One named section of a configuration file.
pub struct SettingSection {
    /// The section's name.
    pub name: String,
    /// The section's entries, in file order.
    pub entries: Vec<SettingEntry>,
}

/// A configuration file's sections, in file order.
pub struct SettingsMap {
    /// The sections.
    pub sections: Vec<SettingSection>,
}

/// The ghost image of a section: its name and its key-value pairs.
pub open spec fn section_view(s: SettingSection) -> (Seq<char>, Seq<(Seq<char>, Seq<char>)>) {
    (s.name@, Seq::new(s.entries@.len(), |i: int| (s.entries@[i].key@, s.entries@[i].value@)))
}

/// The ghost image of the whole map.
pub open spec fn settings_view(m: SettingsMap) -> Seq<(Seq<char>, Seq<(Seq<char>, Seq<char>)>)> {
    Seq::new(m.sections@.len(), |i: int| section_view(m.sections@[i]))
}

/// The value under `key` in the first list pair that carries it.
pub open spec fn spec_assoc(pairs: Seq<(Seq<char>, Seq<char>)>, key: Seq<char>) -> Option<
    Seq<char>,
>
    decreases pairs.len(),
{
    if pairs.len() == 0 {
        None
    } else if pairs[0].0 == key {
        Some(pairs[0].1)
    } else {
        spec_assoc(pairs.drop_first(), key)
    }
}

/// The entries of the first section named `section`.
pub open spec fn spec_section(
    sections: Seq<(Seq<char>, Seq<(Seq<char>, Seq<char>)>)>,
    section: Seq<char>,
) -> Option<Seq<(Seq<char>, Seq<char>)>>
    decreases sections.len(),
{
    if sections.len() == 0 {
        None
    } else if sections[0].0 == section {
        Some(sections[0].1)
    } else {
        spec_section(sections.drop_first(), section)
    }
}

/// The setting under `key` in the section named `section`, when both exist.
pub open spec fn spec_setting(
    sections: Seq<(Seq<char>, Seq<(Seq<char>, Seq<char>)>)>,
    section: Seq<char>,
    key: Seq<char>,
) -> Option<Seq<char>> {
    match spec_section(sections, section) {
        Some(pairs) => spec_assoc(pairs, key),
        None => None,
    }
}

/// The section read when the caller names none.
pub const DEFAULT_SECTION: &'static str = "default";

/// The section to read: the one named, or [`DEFAULT_SECTION`].
pub fn chosen_section(named: Option<String>) -> (r: String)
    ensures
        r@ == (match named {
            Some(s) => s@,
            None => DEFAULT_SECTION@,
        }),
{
    match named {
        Some(s) => s,
        None => DEFAULT_SECTION.to_owned(),
    }
}

fn assoc_lookup(entries: &Vec<SettingEntry>, key: &str) -> (r: Option<String>)
    ensures
        ({
            let pairs = Seq::new(
                entries@.len(),
                |i: int| (entries@[i].key@, entries@[i].value@),
            );
            match r {
                Some(v) => spec_assoc(pairs, key@) == Some(v@),
                None => spec_assoc(pairs, key@) is None,
            }
        }),
{
    let ghost pairs = Seq::new(entries@.len(), |i: int| (entries@[i].key@, entries@[i].value@));
    let n = entries.len();
    let mut i: usize = 0;
    proof {
        assert(pairs.skip(0) =~= pairs);
    }
    while i < n
        invariant
            n == entries.len(),
            i <= n,
            pairs == Seq::new(entries@.len(), |j: int| (entries@[j].key@, entries@[j].value@)),
            spec_assoc(pairs, key@) == spec_assoc(pairs.skip(i as int), key@),
        decreases n - i,
    {
        proof {
            assert(pairs.skip(i as int)[0] == pairs[i as int]);
            assert(pairs.skip(i as int).drop_first() =~= pairs.skip(i + 1));
        }
        if str_eq(entries[i].key.as_str(), key) {
            return Some(entries[i].value.clone());
        }
        i += 1;
    }
    proof {
        assert(pairs.skip(n as int) =~= Seq::<(Seq<char>, Seq<char>)>::empty());
    }
    None
}

/// Looks one setting up: the value under `key` in the section named
/// `section`, or nothing when the section or the key is absent.
pub fn read_setting(map: &SettingsMap, section: &str, key: &str) -> (r: Option<String>)
    ensures
        ({
            let v = settings_view(*map);
            match r {
                Some(value) => spec_setting(v, section@, key@) == Some(value@),
                None => spec_setting(v, section@, key@) is None,
            }
        }),
{
    let ghost v = settings_view(*map);
    let n = map.sections.len();
    let mut i: usize = 0;
    proof {
        assert(v.skip(0) =~= v);
    }
    while i < n
        invariant
            n == map.sections@.len(),
            v == settings_view(*map),
            i <= n,
            spec_section(v, section@) == spec_section(v.skip(i as int), section@),
        decreases n - i,
    {
        proof {
            assert(v.skip(i as int)[0] == v[i as int]);
            assert(v.skip(i as int).drop_first() =~= v.skip(i + 1));
        }
        if str_eq(map.sections[i].name.as_str(), section) {
            proof {
                assert(spec_section(v, section@) == Some(v[i as int].1));
            }
            let r = assoc_lookup(&map.sections[i].entries, key);
            proof {
                assert(v[i as int].1 =~= Seq::new(
                    map.sections@[i as int].entries@.len(),
                    |j: int|
                        (
                            map.sections@[i as int].entries@[j].key@,
                            map.sections@[i as int].entries@[j].value@,
                        ),
                ));
            }
            return r;
        }
        i += 1;
    }
    proof {
        assert(v.skip(n as int) =~= Seq::<(Seq<char>, Seq<(Seq<char>, Seq<char>)>)>::empty());
    }
    None
}

} // verus!
