//! Which processes count as games: list entries, the rules made of them, and matching.

use vstd::hash_set::StringHashSet;
use vstd::prelude::*;
use vstd::slice::slice_subrange;
use vstd::string::StrSliceExecFns;

use crate::text;
use crate::text::{
    ascii_alphanumeric, chars_of, drop_suffix, has_char, has_suffix, lower_chars, replace_chars, string_of,
    trim_double_quotes, trim_white,
};
use crate::wide;
use crate::wide::{fixed_wide_to_string, wide_to_string};

verus! {

// ---------------------------------------------------------------------------
// Entries
// ---------------------------------------------------------------------------
/// `c` is an ASCII letter.
pub open spec fn is_drive_letter(c: char) -> bool {
    'a' <= c <= 'z' || 'A' <= c <= 'Z'
}

/// `v`, in which every separator is a slash, starts with a drive and its root, as in `c:/`.
pub open spec fn has_drive_root(v: Seq<char>) -> bool {
    v.len() >= 3 && is_drive_letter(v[0]) && v[1] == ':' && v[2] == '/'
}

/// `v`, in which every separator is a slash, starts with a device prefix, as in `//./`.
pub open spec fn has_device_prefix(v: Seq<char>) -> bool {
    v.len() >= 4 && v[0] == '/' && v[1] == '/' && v[2] == '.' && v[3] == '/'
}

/// `v`, in which every separator is a slash, starts with a server and a share, as in
/// `//server/share`.
pub open spec fn has_network_prefix(v: Seq<char>) -> bool {
    &&& v.len() >= 2
    &&& v[0] == '/'
    &&& v[1] == '/'
    &&& {
        let server = text::span(v.skip(2), text::is_not_char('/')) as int;
        server > 0 && server + 3 < v.len() && v[server + 3] != '/'
    }
}

/// `v`, in which every separator is a slash, is an absolute Windows path: it has a drive with a
/// root, a device or a network share in front.
pub open spec fn is_absolute_with_slashes(v: Seq<char>) -> bool {
    has_drive_root(v) || has_device_prefix(v) || has_network_prefix(v)
}

/// Whether an entry names a path rather than an executable: it has a backslash or is an absolute
/// path.
pub open spec fn names_path(v: Seq<char>) -> bool {
    v.contains('\\') || is_absolute_with_slashes(v)
}

/// A line or a name without the white space around it and then without the double quotes around
/// what is left.
pub open spec fn cleaned(v: Seq<char>) -> Seq<char> {
    text::trim_quotes(text::trim(v))
}

/// A path in the form in which paths are compared: backslashes only, ASCII letters in lower
/// case.
pub open spec fn comparable_path(v: Seq<char>) -> Seq<char> {
    text::lower(text::replace_char(v, '/', '\\'))
}

/// The entry that a line of a list stands for. An empty line and a comment stand for none. A path
/// keeps its extension; an executable name loses a closing `.exe`.
pub open spec fn list_entry(line: Seq<char>) -> Option<Seq<char>> {
    let name = cleaned(line);
    if name.len() == 0 || name[0] == '#' {
        None
    } else {
        let entry = comparable_path(name);
        if names_path(entry) {
            Some(entry)
        } else {
            Some(text::without_suffix(entry, ".exe"@))
        }
    }
}

/// The key by which executable names are compared: the ASCII letters and digits of the name in
/// lower case, without a closing `.exe`.
pub open spec fn process_key(v: Seq<char>) -> Seq<char> {
    text::without_suffix(text::lower(cleaned(v)), ".exe"@).filter(text::alphanumeric())
}

/// A key without the first of the known build suffixes that ends it.
pub open spec fn without_known_suffix(key: Seq<char>) -> Seq<char> {
    if text::ends_with(key, "win64shipping"@) {
        text::without_suffix(key, "win64shipping"@)
    } else if text::ends_with(key, "x64"@) {
        text::without_suffix(key, "x64"@)
    } else if text::ends_with(key, "dx12"@) {
        text::without_suffix(key, "dx12"@)
    } else if text::ends_with(key, "dx11"@) {
        text::without_suffix(key, "dx11"@)
    } else {
        text::without_suffix(key, "shipping"@)
    }
}

/// Whether `v`, in which every separator is a slash, is an absolute Windows path.
fn absolute_with_slashes(v: &[char]) -> (r: bool)
    ensures
        r == is_absolute_with_slashes(v@),
{
    let n: usize = v.len();
    if n >= 3 && (('a' <= v[0] && v[0] <= 'z') || ('A' <= v[0] && v[0] <= 'Z')) && v[1] == ':' && v[2]
        == '/' {
        return true;
    }
    if n < 2 || v[0] != '/' || v[1] != '/' {
        return false;
    }
    if n >= 4 && v[2] == '.' && v[3] == '/' {
        return true;
    }
    let ghost rest = v@.skip(2);
    let ghost p = text::is_not_char('/');
    let mut i: usize = 2;
    while i < n && v[i] != '/'
        invariant
            n == v@.len(),
            2 <= i <= n,
            rest == v@.skip(2),
            p == text::is_not_char('/'),
            forall|j: int| 0 <= j < i - 2 ==> p(#[trigger] rest[j]),
        decreases n - i,
    {
        i = i + 1;
    }
    proof {
        text::lemma_span_is(rest, p, (i - 2) as nat);
    }
    i > 2 && i < n && n - i > 1 && v[i + 1] != '/'
}

/// Whether an entry names a path rather than an executable.
pub fn is_path_rule(value: &str) -> (r: bool)
    ensures
        r == names_path(value@),
{
    let v = chars_of(value);
    has_char(v.as_slice(), '\\') || absolute_with_slashes(v.as_slice())
}

/// The entry that a line of a list stands for.
pub fn normalize_game_name(line: &str) -> (r: Option<String>)
    ensures
        text::opt_view(r) == list_entry(line@),
{
    let all = chars_of(line);
    let name = trim_double_quotes(trim_white(all.as_slice()));
    if name.len() == 0 || name[0] == '#' {
        return None;
    }
    let slashed = replace_chars(name, '/', '\\');
    let entry = lower_chars(slashed.as_slice());
    let path = string_of(entry.as_slice());
    if is_path_rule(path.as_str()) {
        Some(path)
    } else {
        let suffix = chars_of(".exe");
        Some(string_of(drop_suffix(entry.as_slice(), suffix.as_slice())))
    }
}

/// The key by which an executable name is compared.
pub fn normalize_process_key(value: &str) -> (r: String)
    ensures
        r@ == process_key(value@),
{
    let all = chars_of(value);
    let low = lower_chars(trim_double_quotes(trim_white(all.as_slice())));
    let suffix = chars_of(".exe");
    let base = drop_suffix(low.as_slice(), suffix.as_slice());
    let ghost p = text::alphanumeric();
    let mut r: String = String::new();
    let mut i: usize = 0;
    proof {
        reveal(Seq::filter);
        assert(r@ =~= base@.take(0).filter(p));
    }
    while i < base.len()
        invariant
            p == text::alphanumeric(),
            i <= base@.len(),
            r@ == base@.take(i as int).filter(p),
        decreases base@.len() - i,
    {
        proof {
            reveal(Seq::filter);
            assert(base@.take(i + 1).drop_last() =~= base@.take(i as int));
        }
        if ascii_alphanumeric(base[i]) {
            r.push(base[i]);
        }
        i = i + 1;
    }
    assert(base@.take(i as int) =~= base@);
    r
}

/// A key without the first of the known build suffixes that ends it.
pub fn known_suffix_trim(value: &str) -> (r: &str)
    ensures
        r@ == without_known_suffix(value@),
{
    let v = chars_of(value);
    let suffixes: [&str; 5] = ["win64shipping", "x64", "dx12", "dx11", "shipping"];
    let mut i: usize = 0;
    while i < 5
        invariant
            v@ == value@,
            i <= 5,
            suffixes@ == seq!["win64shipping", "x64", "dx12", "dx11", "shipping"],
            forall|j: int| 0 <= j < i ==> !text::ends_with(value@, #[trigger] suffixes@[j]@),
        decreases 5 - i,
    {
        let suffix = chars_of(suffixes[i]);
        if has_suffix(v.as_slice(), suffix.as_slice()) {
            let n: usize = v.len() - suffix.len();
            let r = value.substring_char(0, n);
            assert(r@ =~= value@.take(n as int));
            assert(i > 0 ==> !text::ends_with(value@, suffixes@[0]@));
            assert(i > 1 ==> !text::ends_with(value@, suffixes@[1]@));
            assert(i > 2 ==> !text::ends_with(value@, suffixes@[2]@));
            assert(i > 3 ==> !text::ends_with(value@, suffixes@[3]@));
            return r;
        }
        i = i + 1;
    }
    assert(!text::ends_with(value@, suffixes@[0]@));
    assert(!text::ends_with(value@, suffixes@[1]@));
    assert(!text::ends_with(value@, suffixes@[2]@));
    assert(!text::ends_with(value@, suffixes@[3]@));
    assert(!text::ends_with(value@, suffixes@[4]@));
    value
}

// ---------------------------------------------------------------------------
// Rules
// ---------------------------------------------------------------------------
/// The name keys of the entries that name executables. An empty key names none.
pub open spec fn rule_names(entries: Seq<Seq<char>>) -> Set<Seq<char>> {
    Set::new(
        |k: Seq<char>|
            k.len() > 0 && exists|i: int|
                0 <= i < entries.len() && !names_path(#[trigger] entries[i]) && process_key(
                    entries[i],
                ) == k,
    )
}

/// The entries that name paths.
pub open spec fn rule_paths(entries: Seq<Seq<char>>) -> Set<Seq<char>> {
    Set::new(
        |p: Seq<char>|
            exists|i: int|
                0 <= i < entries.len() && names_path(#[trigger] entries[i]) && entries[i] == p,
    )
}

/// Whether a process with the executable name `exe` and the image path `path` matches rules with
/// these name keys and paths. The name matches by its key, or by its key without a known build
/// suffix; the path matches as it stands.
pub open spec fn rules_match(
    names: Set<Seq<char>>,
    paths: Set<Seq<char>>,
    exe: Seq<char>,
    path: Option<Seq<char>>,
) -> bool {
    ||| names.contains(process_key(exe))
    ||| names.contains(without_known_suffix(process_key(exe)))
    ||| path is Some && paths.contains(path->0)
}

/// The rules of one list: the executable names and the full paths that it names.
pub struct ProcessRules {
    pub names: StringHashSet,
    pub paths: StringHashSet,
}

impl Default for ProcessRules {
    /// Rules that nothing matches.
    fn default() -> (r: Self)
        ensures
            r.names@ == Set::<Seq<char>>::empty(),
            r.paths@ == Set::<Seq<char>>::empty(),
    {
        ProcessRules { names: StringHashSet::new(), paths: StringHashSet::new() }
    }
}

impl ProcessRules {
    /// Whether a process matches these rules.
    pub open spec fn matches(&self, exe: Seq<char>, path: Option<Seq<char>>) -> bool {
        rules_match(self.names@, self.paths@, exe, path)
    }

    /// Whether these rules name nothing.
    pub open spec fn names_nothing(&self) -> bool {
        self.names@.is_empty() && self.paths@.is_empty()
    }

    /// The rules of a list with the given entries.
    pub fn from_entries(entries: Vec<String>) -> (r: Self)
        ensures
            r.names@ == rule_names(text::views(entries@)),
            r.paths@ == rule_paths(text::views(entries@)),
    {
        let mut rules = ProcessRules::default();
        let ghost all = text::views(entries@);
        let mut i: usize = 0;
        while i < entries.len()
            invariant
                all == text::views(entries@),
                i <= entries@.len(),
                rules.paths@ == rule_paths(all.take(i as int)),
                rules.names@.remove(Seq::empty()) == rule_names(all.take(i as int)),
            decreases entries@.len() - i,
        {
            let entry = &entries[i];
            let ghost names = rules.names@;
            let ghost paths = rules.paths@;
            let ghost head = all.take(i as int);
            let ghost next = all.take(i + 1);
            assert(next[i as int] == entry@);
            assert(forall|j: int| 0 <= j < i ==> next[j] == #[trigger] head[j]);
            if is_path_rule(entry.as_str()) {
                rules.paths.insert(entry.clone());
            } else {
                rules.names.insert(normalize_process_key(entry.as_str()));
            }
            proof {
                assert forall|p: Seq<char>|
                    rules.paths@.contains(p) == rule_paths(next).contains(p) by {
                    if rule_paths(head).contains(p) {
                        let j = choose|j: int|
                            0 <= j < head.len() && names_path(#[trigger] head[j]) && head[j] == p;
                        assert(next[j] == head[j]);
                    }
                    if rule_paths(next).contains(p) {
                        let j = choose|j: int|
                            0 <= j < next.len() && names_path(#[trigger] next[j]) && next[j] == p;
                        if j < i {
                            assert(head[j] == next[j]);
                        }
                    }
                }
                assert(rules.paths@ =~= rule_paths(next));
                assert forall|k: Seq<char>|
                    rules.names@.remove(Seq::empty()).contains(k) == rule_names(next).contains(
                        k,
                    ) by {
                    assert(names.remove(Seq::empty()).contains(k) == rule_names(head).contains(k));
                    if k.len() == 0 {
                        assert(k =~= Seq::empty());
                    }
                    if rule_names(head).contains(k) {
                        let j = choose|j: int|
                            0 <= j < head.len() && !names_path(#[trigger] head[j]) && process_key(
                                head[j],
                            ) == k;
                        assert(next[j] == head[j]);
                    }
                    if rule_names(next).contains(k) {
                        let j = choose|j: int|
                            0 <= j < next.len() && !names_path(#[trigger] next[j]) && process_key(
                                next[j],
                            ) == k;
                        if j < i {
                            assert(head[j] == next[j]);
                        }
                    }
                }
                assert(rules.names@.remove(Seq::empty()) =~= rule_names(next));
            }
            i = i + 1;
        }
        assert(all.take(i as int) =~= all);
        proof {
            reveal_strlit("");
            assert(""@ =~= Seq::<char>::empty());
        }
        rules.names.remove("");
        rules
    }

    /// Whether matching these rules takes the image path of a process.
    pub fn needs_process_path(&self) -> (r: bool)
        ensures
            r == !self.paths@.is_empty(),
    {
        !self.paths.is_empty()
    }
}

/// Whether a process matches `rules`.
pub fn process_matches(exe_name: &str, process_path: Option<&str>, rules: &ProcessRules) -> (r: bool)
    ensures
        r == rules.matches(exe_name@, text::opt_str_view(process_path)),
{
    let key = normalize_process_key(exe_name);
    if rules.names.contains(key.as_str()) {
        return true;
    }
    if rules.names.contains(known_suffix_trim(key.as_str())) {
        return true;
    }
    match process_path {
        Some(path) => rules.paths.contains(path),
        None => false,
    }
}

// ---------------------------------------------------------------------------
// Running processes
// ---------------------------------------------------------------------------
/// One running process, as a process snapshot shows it.
pub struct ProcessEntry {
    /// The fixed buffer that holds the executable name.
    pub exe_file: Vec<u16>,
    /// The image path in the form in which paths are compared, where it could be asked for.
    pub image_path: Option<String>,
}

impl ProcessEntry {
    /// The executable name.
    pub open spec fn exe_name(&self) -> Seq<char> {
        wide::decode_wide(wide::until_nul(self.exe_file@))
    }

    /// Whether this process counts as a running game.
    pub open spec fn counts(&self, games: &ProcessRules, exclusions: &ProcessRules) -> bool {
        &&& games.matches(self.exe_name(), text::opt_view(self.image_path))
        &&& !exclusions.matches(self.exe_name(), text::opt_view(self.image_path))
    }
}

/// The image path of a process from what opening the process and asking for its image name gave:
/// whether the process could be opened, what the query returned (zero for failure), and the
/// units that it wrote.
pub fn process_image_path(opened: bool, queried: i32, buffer: &[u16], len: u32) -> (r: Option<String>)
    requires
        opened && queried != 0 ==> len <= buffer@.len(),
    ensures
        text::opt_view(r) == (if opened && queried != 0 {
            Some(comparable_path(wide::decode_wide(buffer@.take(len as int))))
        } else {
            None
        }),
{
    if !opened {
        return None;
    }
    if queried == 0 {
        return None;
    }
    let units = slice_subrange(buffer, 0, len as usize);
    assert(units@ =~= buffer@.take(len as int));
    let name = chars_of(wide_to_string(units).as_str());
    let slashed = replace_chars(name.as_slice(), '/', '\\');
    Some(string_of(lower_chars(slashed.as_slice()).as_slice()))
}

/// What a scan for running games has to look at.
#[derive(Clone, Copy, Debug, PartialEq, Eq, Structural)]
pub enum ScanPlan {
    /// No rule names a game, so that nothing has to be looked at.
    Nothing,
    /// Executable names alone decide.
    Names,
    /// Executable names and image paths decide.
    NamesAndPaths,
}

/// What a scan for running games has to look at.
pub fn scan_plan(games: &ProcessRules, exclusions: &ProcessRules) -> (r: ScanPlan)
    ensures
        r == (if games.names_nothing() {
            ScanPlan::Nothing
        } else if !games.paths@.is_empty() || !exclusions.paths@.is_empty() {
            ScanPlan::NamesAndPaths
        } else {
            ScanPlan::Names
        }),
{
    if games.names.is_empty() && games.paths.is_empty() {
        ScanPlan::Nothing
    } else if games.needs_process_path() || exclusions.needs_process_path() {
        ScanPlan::NamesAndPaths
    } else {
        ScanPlan::Names
    }
}

/// The executable names of the processes that count as running games.
pub open spec fn running_games(
    processes: Seq<ProcessEntry>,
    games: &ProcessRules,
    exclusions: &ProcessRules,
) -> Set<Seq<char>> {
    Set::new(
        |n: Seq<char>|
            exists|i: int|
                0 <= i < processes.len() && (#[trigger] processes[i]).exe_name() == n
                    && processes[i].counts(games, exclusions),
    )
}

/// The executable names of the processes in a snapshot that match `game_names` and do not match
/// `exclusions`. Where no rule names a game, the snapshot is not looked at.
pub fn matching_game_processes<E>(
    game_names: &ProcessRules,
    exclusions: &ProcessRules,
    snapshot: Result<Vec<ProcessEntry>, E>,
) -> (r: Result<StringHashSet, E>)
    ensures
        game_names.names_nothing() ==> r is Ok && r->Ok_0@.is_empty(),
        !game_names.names_nothing() ==> match snapshot {
            Ok(processes) => r is Ok && r->Ok_0@ == running_games(
                processes@,
                game_names,
                exclusions,
            ),
            Err(e) => r == Err::<StringHashSet, E>(e),
        },
{
    let mut matches = StringHashSet::new();
    if game_names.names.is_empty() && game_names.paths.is_empty() {
        return Ok(matches);
    }
    let processes = match snapshot {
        Ok(processes) => processes,
        Err(e) => {
            return Err(e);
        },
    };
    let mut i: usize = 0;
    assert(matches@ =~= running_games(processes@.take(0), game_names, exclusions));
    while i < processes.len()
        invariant
            i <= processes@.len(),
            matches@ == running_games(processes@.take(i as int), game_names, exclusions),
        decreases processes@.len() - i,
    {
        let entry = &processes[i];
        let ghost before = matches@;
        let ghost head = processes@.take(i as int);
        let ghost next = processes@.take(i + 1);
        assert(next[i as int] == *entry);
        assert(forall|j: int| 0 <= j < i ==> next[j] == #[trigger] head[j]);
        let exe_name = fixed_wide_to_string(entry.exe_file.as_slice());
        let path: Option<&str> = match &entry.image_path {
            Some(p) => Some(p.as_str()),
            None => None,
        };
        assert(text::opt_str_view(path) == text::opt_view(entry.image_path));
        if process_matches(exe_name.as_str(), path, game_names) && !process_matches(
            exe_name.as_str(),
            path,
            exclusions,
        ) {
            matches.insert(exe_name);
        }
        proof {
            let now = running_games(next, game_names, exclusions);
            assert forall|n: Seq<char>| matches@.contains(n) == now.contains(n) by {
                if before.contains(n) {
                    let j = choose|j: int|
                        0 <= j < head.len() && (#[trigger] head[j]).exe_name() == n
                            && head[j].counts(game_names, exclusions);
                    assert(next[j] == head[j]);
                }
                if now.contains(n) {
                    let j = choose|j: int|
                        0 <= j < next.len() && (#[trigger] next[j]).exe_name() == n
                            && next[j].counts(game_names, exclusions);
                    if j < i {
                        assert(head[j] == next[j]);
                    }
                }
            }
            assert(matches@ =~= now);
        }
        i = i + 1;
    }
    assert(processes@.take(i as int) =~= processes@);
    Ok(matches)
}

} // verus!
