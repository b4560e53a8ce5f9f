//! The inputs of a scan: how each is keyed, and how they changed since the
//! scan was recorded.
//!
//! A recorded scan keeps a content hash of every input, keyed by its path
//! relative to the project root; comparing those with the hashes of the
//! inputs as they are now says whether the record still describes them.

use vstd::prelude::*;
use crate::named_map::{NamedMap, entries_view, value_of};
use crate::paths::{begins_with, components, components_after, join_path, joined};
use crate::types::{StructConfig, TaggedUnion};
use crate::text::{decimal, join, join_strings, owned, string_of, usize_text};

verus! {

/// The names of `cur`, in order, that `rec` also has but with another
/// value.
pub open spec fn changed_names(cur: Seq<(Seq<char>, String)>, rec: Seq<(Seq<char>, String)>) -> Seq<Seq<char>>
    decreases cur.len(),
{
    if cur.len() == 0 {
        Seq::empty()
    } else {
        let rest = changed_names(cur.drop_last(), rec);
        let e = cur.last();
        match value_of(rec, e.0) {
            Some(v) => if v@ != e.1@ {
                rest.push(e.0)
            } else {
                rest
            },
            None => rest,
        }
    }
}

/// The names of `a`, in order, that `b` lacks.
pub open spec fn missing_names(a: Seq<(Seq<char>, String)>, b: Seq<(Seq<char>, String)>) -> Seq<Seq<char>>
    decreases a.len(),
{
    if a.len() == 0 {
        Seq::empty()
    } else {
        let rest = missing_names(a.drop_last(), b);
        if value_of(b, a.last().0) is None {
            rest.push(a.last().0)
        } else {
            rest
        }
    }
}

/// How one kind of change is told: nothing when no path has it, the path
/// and the singular phrase when one has it, the number of files and the
/// plural phrase otherwise.
pub open spec fn change_part(names: Seq<Seq<char>>, singular: Seq<char>, plural: Seq<char>) -> Option<Seq<char>> {
    if names.len() == 0 {
        None
    } else if names.len() == 1 {
        Some(names[0] + " "@ + singular)
    } else {
        Some(decimal(names.len()) + " files "@ + plural)
    }
}

/// The texts of the parts that are present, in order.
pub open spec fn present_parts(parts: Seq<Option<Seq<char>>>) -> Seq<Seq<char>>
    decreases parts.len(),
{
    if parts.len() == 0 {
        Seq::empty()
    } else {
        let rest = present_parts(parts.drop_last());
        match parts.last() {
            Some(t) => rest.push(t),
            None => rest,
        }
    }
}

/// How the inputs `cur` differ from the recorded inputs `rec`: the changed,
/// the added and the removed paths told in that order, joined by `, `, or
/// `None` when nothing differs.
pub open spec fn changes_description(rec: Seq<(Seq<char>, String)>, cur: Seq<(Seq<char>, String)>) -> Option<Seq<char>> {
    let parts = present_parts(
        seq![
            change_part(changed_names(cur, rec), "changed"@, "changed"@),
            change_part(missing_names(cur, rec), "was added"@, "added"@),
            change_part(missing_names(rec, cur), "was removed"@, "removed"@),
        ],
    );
    if parts.len() == 0 {
        None
    } else {
        Some(join(parts, ", "@))
    }
}

/// The models of a list of strings.
pub open spec fn names_view(v: Seq<String>) -> Seq<Seq<char>> {
    v.map_values(|s: String| s@)
}

fn same_value(a: &String, b: &String) -> (r: bool)
    ensures
        r == (a@ == b@),
{
    crate::text::same_text(a.as_str(), b.as_str())
}

/// The paths of `cur` whose hash in `rec` differs.
fn changed_list(rec: &NamedMap<String>, cur: &NamedMap<String>) -> (r: Vec<String>)
    ensures
        names_view(r@) == changed_names(cur@, rec@),
{
    let es = cur.entries();
    let ghost ev = cur@;
    let mut out: Vec<String> = Vec::new();
    let mut i: usize = 0;
    while i < es.len()
        invariant
            i <= es@.len(),
            entries_view(es@) == ev,
            names_view(out@) == changed_names(ev.take(i as int), rec@),
        decreases es.len() - i,
    {
        proof {
            assert(ev.take(i + 1).drop_last() == ev.take(i as int));
            assert(ev.take(i + 1).last() == ev[i as int]);
            assert(ev[i as int] == (es@[i as int].0@, es@[i as int].1));
        }
        let (path, hash) = &es[i];
        match rec.get(path.as_str()) {
            Some(old) => {
                if !same_value(old, hash) {
                    let ghost before = out@;
                    out.push(path.clone());
                    proof {
                        assert(names_view(out@) =~= names_view(before).push(path@));
                    }
                }
            },
            None => {},
        }
        i = i + 1;
    }
    assert(ev.take(ev.len() as int) == ev);
    out
}

/// The paths of `a` that `b` lacks.
fn missing_list(a: &NamedMap<String>, b: &NamedMap<String>) -> (r: Vec<String>)
    ensures
        names_view(r@) == missing_names(a@, b@),
{
    let es = a.entries();
    let ghost ev = a@;
    let mut out: Vec<String> = Vec::new();
    let mut i: usize = 0;
    while i < es.len()
        invariant
            i <= es@.len(),
            entries_view(es@) == ev,
            names_view(out@) == missing_names(ev.take(i as int), b@),
        decreases es.len() - i,
    {
        proof {
            assert(ev.take(i + 1).drop_last() == ev.take(i as int));
            assert(ev.take(i + 1).last() == ev[i as int]);
            assert(ev[i as int] == (es@[i as int].0@, es@[i as int].1));
        }
        let path = &es[i].0;
        if !b.contains_key(path.as_str()) {
            let ghost before = out@;
            out.push(path.clone());
            proof {
                assert(names_view(out@) =~= names_view(before).push(path@));
            }
        }
        i = i + 1;
    }
    assert(ev.take(ev.len() as int) == ev);
    out
}

/// How one kind of change is told, as [`change_part`] says.
fn part(names: &Vec<String>, singular: &str, plural: &str) -> (r: Option<String>)
    ensures
        match r {
            Some(t) => change_part(names_view(names@), singular@, plural@) == Some(t@),
            None => change_part(names_view(names@), singular@, plural@) is None,
        },
{
    if names.len() == 0 {
        None
    } else if names.len() == 1 {
        let mut t = names[0].clone();
        t.append(" ");
        t.append(singular);
        Some(t)
    } else {
        let mut t = usize_text(names.len());
        t.append(" files ");
        t.append(plural);
        Some(t)
    }
}

/// A short description of how the input hashes `current` differ from the
/// recorded `recorded`, naming the file when only one changed, was added or
/// was removed, or `None` when they are the same.
pub fn describe_changes(recorded: &NamedMap<String>, current: &NamedMap<String>) -> (r: Option<String>)
    ensures
        match r {
            Some(t) => changes_description(recorded@, current@) == Some(t@),
            None => changes_description(recorded@, current@) is None,
        },
{
    let changed = changed_list(recorded, current);
    let added = missing_list(current, recorded);
    let removed = missing_list(recorded, current);
    let p1 = part(&changed, "changed", "changed");
    let p2 = part(&added, "was added", "added");
    let p3 = part(&removed, "was removed", "removed");
    let ghost opts = seq![
        change_part(changed_names(current@, recorded@), "changed"@, "changed"@),
        change_part(missing_names(current@, recorded@), "was added"@, "added"@),
        change_part(missing_names(recorded@, current@), "was removed"@, "removed"@),
    ];
    let mut parts: Vec<String> = Vec::new();
    proof {
        assert(opts.take(0) =~= Seq::<Option<Seq<char>>>::empty());
        assert(names_view(parts@) =~= present_parts(opts.take(0)));
    }
    match p1 {
        Some(t) => parts.push(t),
        None => {},
    }
    proof {
        assert(opts.take(1).drop_last() =~= opts.take(0));
        assert(names_view(parts@) =~= present_parts(opts.take(1)));
    }
    match p2 {
        Some(t) => parts.push(t),
        None => {},
    }
    proof {
        assert(opts.take(2).drop_last() =~= opts.take(1));
        assert(names_view(parts@) =~= present_parts(opts.take(2)));
    }
    match p3 {
        Some(t) => parts.push(t),
        None => {},
    }
    proof {
        assert(opts.take(3).drop_last() =~= opts.take(2));
        assert(opts.take(3) =~= opts);
        assert(names_view(parts@) =~= present_parts(opts));
    }
    if parts.len() == 0 {
        None
    } else {
        let r = join_strings(&parts, ", ");
        proof {
            assert(parts@.map_values(|s: String| s@) =~= names_view(parts@));
        }
        Some(r)
    }
}


/// The key of an input at `path` in a scan rooted at `root`: its
/// components after those of `root`, joined by `/`, or `path` itself when
/// it lies outside the root.
pub open spec fn relative_key_text(root: Seq<char>, path: Seq<char>) -> Seq<char> {
    if begins_with(components(path), components(root)) {
        join(components(path).skip(components(root).len() as int), "/"@)
    } else {
        path
    }
}

/// A `/`-separated path relative to `root` (or the path itself when it
/// lies outside the root).
pub fn relative_key(root: &str, path: &str) -> (r: String)
    ensures
        r@ == relative_key_text(root@, path@),
{
    let rest = match components_after(path, root) {
        Some(rest) => rest,
        None => {
            return owned(path);
        },
    };
    let mut parts: Vec<String> = Vec::new();
    let ghost rv = rest@.map_values(|p: Vec<char>| p@);
    let mut i: usize = 0;
    while i < rest.len()
        invariant
            i <= rest@.len(),
            rv == rest@.map_values(|p: Vec<char>| p@),
            parts@.map_values(|s: String| s@) == rv.take(i as int),
        decreases rest.len() - i,
    {
        let ghost before = parts@;
        parts.push(string_of(rest[i].as_slice()));
        proof {
            assert(parts@.map_values(|s: String| s@) =~= before.map_values(|s: String| s@).push(
                rest@[i as int]@,
            ));
            assert(rv.take(i + 1) =~= rv.take(i as int).push(rv[i as int]));
        }
        i = i + 1;
    }
    proof {
        assert(rv.take(rv.len() as int) == rv);
    }
    join_strings(&parts, "/")
}


/// Why a record of a scan, written in the layout `format` by the evenframe
/// version `written_by` with the input hashes `recorded`, no longer
/// describes the inputs `current` for the evenframe version `version`,
/// whose layout is `expected`: a changed layout first (`what` names the
/// record), then another version, then the changed inputs; `None` when it
/// is current.
pub open spec fn stale_reason_text(
    what: Seq<char>,
    format: u32,
    expected: u32,
    written_by: Seq<char>,
    version: Seq<char>,
    recorded: Seq<(Seq<char>, String)>,
    current: Seq<(Seq<char>, String)>,
) -> Option<Seq<char>> {
    if format != expected {
        Some("the "@ + what + " format changed (v"@ + decimal(format as nat) + " → v"@ + decimal(expected as nat) + ")"@)
    } else if written_by != version {
        Some("it was written by evenframe "@ + written_by + " (this is "@ + version + ")"@)
    } else {
        changes_description(recorded, current)
    }
}

/// The reason of [`stale_reason_text`].
pub(crate) fn stale_reason_of(
    what: &str,
    format: u32,
    expected: u32,
    written_by: &str,
    version: &str,
    recorded: &NamedMap<String>,
    current: &NamedMap<String>,
) -> (r: Option<String>)
    ensures
        match r {
            Some(t) => stale_reason_text(what@, format, expected, written_by@, version@, recorded@, current@) == Some(t@),
            None => stale_reason_text(what@, format, expected, written_by@, version@, recorded@, current@) is None,
        },
{
    if format != expected {
        let mut m = owned("the ");
        m.append(what);
        m.append(" format changed (v");
        m.append(usize_text(format as usize).as_str());
        m.append(" → v");
        m.append(usize_text(expected as usize).as_str());
        m.append(")");
        return Some(m);
    }
    if !crate::text::same_text(written_by, version) {
        let mut m = owned("it was written by evenframe ");
        m.append(written_by);
        m.append(" (this is ");
        m.append(version);
        m.append(")");
        return Some(m);
    }
    describe_changes(recorded, current)
}

/// The layout version of the scan cache, bumped whenever it changes
/// incompatibly.
pub const CACHE_FORMAT_VERSION: u32 = 1;

/// The scan cache: the types resolved by the last workspace scan, with the
/// content hash of every input it read, keyed by its path relative to the
/// project root. Tables are kept with the schema configuration, which is
/// not part of this library.
#[derive(Debug)]
pub struct ScanCache {
    pub format_version: u32,
    pub evenframe_version: String,
    pub inputs: NamedMap<String>,
    pub enums: NamedMap<TaggedUnion>,
    pub objects: NamedMap<StructConfig>,
}

/// How the cache on disk relates to the current sources.
#[derive(Debug)]
pub enum CacheStatus {
    /// The cache describes the sources as they are now.
    Current(ScanCache),
    /// No cache has been written for this project yet.
    Absent,
    /// The cache no longer describes the sources, for this reason.
    Stale(String),
}

/// The message of a stale scan cache.
pub open spec fn stale_cache_text(reason: Seq<char>) -> Seq<char> {
    "The scan cache is stale: "@ + reason + ". Run `evenframe validate --types-only` to refresh it."@
}

impl ScanCache {
    /// The cache of a scan by the evenframe version `evenframe_version`
    /// that read the inputs `inputs` and resolved `enums` and `objects`.
    pub fn from_scan(
        evenframe_version: &str,
        inputs: NamedMap<String>,
        enums: NamedMap<TaggedUnion>,
        objects: NamedMap<StructConfig>,
    ) -> (r: ScanCache)
        ensures
            r.format_version == CACHE_FORMAT_VERSION,
            r.evenframe_version@ == evenframe_version@,
            r.inputs@ == inputs@,
            r.enums@ == enums@,
            r.objects@ == objects@,
    {
        ScanCache { format_version: CACHE_FORMAT_VERSION, evenframe_version: owned(evenframe_version), inputs, enums, objects }
    }

    /// The cache path of the project rooted at `project_root`.
    pub fn path(project_root: &str) -> (r: String)
        ensures
            r@ == joined(project_root@, ".evenframe/cache.json"@),
    {
        join_path(project_root, ".evenframe/cache.json")
    }

    /// Why this cache no longer describes the project whose inputs now
    /// hash to `current_inputs`, for the evenframe version
    /// `current_version`, or `None` when it is current.
    pub fn stale_reason(&self, current_version: &str, current_inputs: &NamedMap<String>) -> (r: Option<String>)
        ensures
            match r {
                Some(t) => stale_reason_text("cache"@, self.format_version, CACHE_FORMAT_VERSION, self.evenframe_version@, current_version@, self.inputs@, current_inputs@) == Some(t@),
                None => stale_reason_text("cache"@, self.format_version, CACHE_FORMAT_VERSION, self.evenframe_version@, current_version@, self.inputs@, current_inputs@) is None,
            },
    {
        stale_reason_of("cache", self.format_version, CACHE_FORMAT_VERSION, self.evenframe_version.as_str(), current_version, &self.inputs, current_inputs)
    }

    /// The loaded cache `loaded` when it is current, else the error that
    /// tells why it is stale and how to refresh it.
    pub fn load_current(loaded: ScanCache, current_version: &str, current_inputs: &NamedMap<String>) -> (r: Result<ScanCache, String>)
        ensures
            match stale_reason_text("cache"@, loaded.format_version, CACHE_FORMAT_VERSION, loaded.evenframe_version@, current_version@, loaded.inputs@, current_inputs@) {
                Some(reason) => r is Err && r->Err_0@ == stale_cache_text(reason),
                None => r is Ok && r->Ok_0 == loaded,
            },
    {
        match loaded.stale_reason(current_version, current_inputs) {
            Some(reason) => {
                let mut m = owned("The scan cache is stale: ");
                m.append(reason.as_str());
                m.append(". Run `evenframe validate --types-only` to refresh it.");
                Err(m)
            },
            None => Ok(loaded),
        }
    }

    /// The state of the cache: absent when none was `loaded`, else stale
    /// with its reason, or current.
    pub fn status(loaded: Option<ScanCache>, current_version: &str, current_inputs: &NamedMap<String>) -> (r: CacheStatus)
        ensures
            match loaded {
                None => r is Absent,
                Some(c) => match stale_reason_text("cache"@, c.format_version, CACHE_FORMAT_VERSION, c.evenframe_version@, current_version@, c.inputs@, current_inputs@) {
                    Some(reason) => r is Stale && r->Stale_0@ == reason,
                    None => r is Current && r->Current_0 == c,
                },
            },
    {
        match loaded {
            None => CacheStatus::Absent,
            Some(c) => match c.stale_reason(current_version, current_inputs) {
                Some(reason) => CacheStatus::Stale(reason),
                None => CacheStatus::Current(c),
            },
        }
    }

    /// The scan results: the enums and the objects.
    pub fn into_configs(self) -> (r: (NamedMap<TaggedUnion>, NamedMap<StructConfig>))
        ensures
            r.0@ == self.enums@,
            r.1@ == self.objects@,
    {
        (self.enums, self.objects)
    }
}

} // verus!
