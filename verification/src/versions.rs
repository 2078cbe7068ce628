//! The versions installed for a candidate: which directory entries are
//! versions, which version is in use, and the comma-separated list of them
//! that the online service is told about.
use vstd::prelude::*;
use crate::order::string_views;

verus! {

/// The entry of a candidate's directory that marks the version in use.
pub open spec fn current_dir_name() -> Seq<char> {
    "current"@
}

/// What is known of one entry of a candidate's directory.
#[derive(Clone, Debug, PartialEq, Eq)]
pub struct DirEntryInfo {
    /// The entry's name, or `None` when the entry could not be read or its
    /// name is not valid UTF-8.
    pub name: Option<String>,
    /// Whether the entry is a directory (following a symbolic link).
    pub is_dir: bool,
}

/// The version an entry holds: its name, when it is a directory other than
/// the one that marks the version in use.
pub open spec fn entry_version(e: DirEntryInfo) -> Option<Seq<char>> {
    match e.name {
        Some(n) => if n@ != current_dir_name() && e.is_dir {
            Some(n@)
        } else {
            None
        },
        None => None,
    }
}

/// The versions among the entries, in the entries' order.
pub open spec fn entry_versions(entries: Seq<DirEntryInfo>) -> Seq<Seq<char>> {
    entries.filter_map(|e: DirEntryInfo| entry_version(e))
}

/// The names of the installed versions among a candidate's directory entries:
/// every readable directory except `current`, in the order given.
pub fn installed_version_names(entries: &Vec<DirEntryInfo>) -> (names: Vec<String>)
    ensures
        string_views(names@) == entry_versions(entries@),
{
    let mut names: Vec<String> = Vec::new();
    let n = entries.len();
    let mut i: usize = 0;
    let current = String::from_str("current");
    while i < n
        invariant
            n == entries@.len(),
            i <= n,
            current@ == current_dir_name(),
            string_views(names@) == entry_versions(entries@.take(i as int)),
        decreases n - i,
    {
        let ghost prefix = entries@.take(i + 1);
        assert(prefix.drop_last() =~= entries@.take(i as int));
        assert(prefix.last() == entries@[i as int]);
        let e = &entries[i];
        match &e.name {
            Some(name) => {
                if !(*name == current) && e.is_dir {
                    names.push(name.clone());
                    assert(string_views(names@) =~= entry_versions(entries@.take(i as int)) + seq![
                        name@,
                    ]);
                }
            },
            None => {},
        }
        i = i + 1;
    }
    assert(entries@.take(n as int) =~= entries@);
    names
}

/// A name is listed as an installed version exactly when some entry is a
/// readable directory of that name other than `current`; in particular
/// `current` itself is never listed.
pub proof fn law_listed_versions(entries: Seq<DirEntryInfo>, v: Seq<char>)
    ensures
        entry_versions(entries).contains(v) <==> exists|i: int|
            0 <= i < entries.len() && #[trigger] entry_version(entries[i]) == Some(v),
        !entry_versions(entries).contains(current_dir_name()),
    decreases entries.len(),
{
    if entries.len() > 0 {
        let rest = entries.drop_last();
        let last = entries.last();
        law_listed_versions(rest, v);
        law_listed_versions(rest, current_dir_name());
        let r = entry_versions(rest);
        assert(entry_versions(entries) == match entry_version(last) {
            Some(x) => r + seq![x],
            None => r,
        });
        if entry_version(last) is Some {
            let x = entry_version(last)->0;
            assert((r + seq![x]).contains(v) <==> (r.contains(v) || x == v)) by {
                if (r + seq![x]).contains(v) {
                    let k = choose|k: int| 0 <= k < r.len() + 1 && (r + seq![x])[k] == v;
                    if k < r.len() {
                        assert(r[k] == v);
                    }
                }
                if r.contains(v) {
                    let k = choose|k: int| 0 <= k < r.len() && r[k] == v;
                    assert((r + seq![x])[k] == v);
                }
                if x == v {
                    assert((r + seq![x])[r.len() as int] == v);
                }
            }
            assert((r + seq![x]).contains(current_dir_name()) ==> r.contains(current_dir_name())) by {
                if (r + seq![x]).contains(current_dir_name()) {
                    let k = choose|k: int|
                        0 <= k < r.len() + 1 && (r + seq![x])[k] == current_dir_name();
                    if k < r.len() {
                        assert(r[k] == current_dir_name());
                    }
                }
            }
        }
        if exists|i: int| 0 <= i < entries.len() && #[trigger] entry_version(entries[i]) == Some(v) {
            let i = choose|i: int| 0 <= i < entries.len() && #[trigger] entry_version(entries[i]) == Some(v);
            if i < rest.len() {
                assert(rest[i] == entries[i]);
            }
        }
        if exists|i: int| 0 <= i < rest.len() && #[trigger] entry_version(rest[i]) == Some(v) {
            let i = choose|i: int| 0 <= i < rest.len() && #[trigger] entry_version(rest[i]) == Some(v);
            assert(entries[i] == rest[i]);
        }
    }
}

/// Every readable directory entry not named `current` is listed as an
/// installed version, whatever its name.
pub proof fn law_every_version_directory_listed(entries: Seq<DirEntryInfo>, i: int)
    requires
        0 <= i < entries.len(),
        entries[i].name is Some,
        entries[i].name->0@ != "current"@,
        entries[i].is_dir,
    ensures
        entry_versions(entries).contains(entries[i].name->0@),
{
    let v = entries[i].name->0@;
    assert(entry_version(entries[i]) == Some(v));
    law_listed_versions(entries, v);
}

/// Only readable directory entries are listed, each under its own name, and
/// never one named `current`.
pub proof fn law_only_version_directories_listed(entries: Seq<DirEntryInfo>, v: Seq<char>)
    requires
        entry_versions(entries).contains(v),
    ensures
        v != "current"@,
        exists|i: int|
            0 <= i < entries.len() && (#[trigger] entries[i]).is_dir && entries[i].name is Some
                && entries[i].name->0@ == v,
{
    law_listed_versions(entries, v);
    law_listed_versions(entries, current_dir_name());
    let i = choose|i: int| 0 <= i < entries.len() && #[trigger] entry_version(entries[i]) == Some(v);
    assert(entries[i].is_dir && entries[i].name is Some && entries[i].name->0@ == v);
}

/// Names joined with commas between them.
pub open spec fn comma_joined(names: Seq<Seq<char>>) -> Seq<char>
    decreases names.len(),
{
    if names.len() == 0 {
        Seq::empty()
    } else if names.len() == 1 {
        names[0]
    } else {
        comma_joined(names.drop_last()) + ","@ + names.last()
    }
}

/// The installed versions as one comma-separated text; empty when they could
/// not be read (`None`).
pub fn build_versions_csv(installed: &Option<Vec<String>>) -> (csv: String)
    ensures
        csv@ == match installed {
            Some(v) => comma_joined(string_views(v@)),
            None => Seq::empty(),
        },
{
    match installed {
        None => String::new(),
        Some(v) => {
            let ghost names = string_views(v@);
            let mut csv = String::new();
            let n = v.len();
            let mut i: usize = 0;
            while i < n
                invariant
                    n == v@.len(),
                    names == string_views(v@),
                    i <= n,
                    csv@ == comma_joined(names.take(i as int)),
                decreases n - i,
            {
                assert(names.take(i + 1).drop_last() =~= names.take(i as int));
                if i > 0 {
                    csv.append(",");
                }
                csv.append(v[i].as_str());
                i = i + 1;
            }
            assert(names.take(n as int) =~= names);
            csv
        },
    }
}

/// What was found at the `current` entry of a candidate's directory.
#[derive(Clone, Debug, PartialEq, Eq)]
pub enum CurrentEntry {
    /// There is no such entry (or it is a link to nothing).
    Absent,
    /// A symbolic link; the last component of its target, when the target has
    /// one that is valid UTF-8.
    Link(Option<String>),
    /// A directory that is not a symbolic link.
    Directory,
    /// Anything else, such as a plain file.
    Other,
}

/// The version in use for a candidate: the name its `current` link points to.
/// When `current` is a directory of its own, its own name is returned.
pub fn get_current_version(entry: CurrentEntry) -> (version: Option<String>)
    ensures
        version.deep_view() == match entry {
            CurrentEntry::Absent => None,
            CurrentEntry::Link(target) => target.deep_view(),
            CurrentEntry::Directory => Some(current_dir_name()),
            CurrentEntry::Other => None,
        },
{
    match entry {
        CurrentEntry::Absent => None,
        CurrentEntry::Link(target) => target,
        CurrentEntry::Directory => Some(String::from_str("current")),
        CurrentEntry::Other => None,
    }
}

} // verus!
