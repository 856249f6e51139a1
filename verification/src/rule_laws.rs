//! What holds of list entries and of the rules made of them.

use vstd::prelude::*;

use crate::rules;
use crate::rules::{ProcessEntry, ProcessRules};
use crate::text;
use crate::text_laws;
use crate::wide;

verus! {

// ---------------------------------------------------------------------------
// ASCII case
// ---------------------------------------------------------------------------
/// A predicate on characters that does not tell ASCII upper case from lower case.
spec fn ignores_case(p: spec_fn(char) -> bool) -> bool {
    forall|c: char| p(#[trigger] text::lower_char(c)) == p(c)
}

proof fn lemma_lower_char(c: char)
    ensures
        text::lower_char(text::lower_char(c)) == text::lower_char(c),
        text::is_white_space(text::lower_char(c)) == text::is_white_space(c),
        !('A' <= c <= 'Z') ==> text::lower_char(c) == c,
        'A' <= c <= 'Z' ==> 'a' <= text::lower_char(c) <= 'z',
{
}

proof fn lemma_trims_ignore_case()
    ensures
        ignores_case(text::white()),
        ignores_case(text::is_char('"')),
{
    assert forall|c: char| text::white()(#[trigger] text::lower_char(c)) == text::white()(c) by {
        lemma_lower_char(c);
    }
    let q = text::is_char('"');
    assert forall|c: char| q(#[trigger] text::lower_char(c)) == q(c) by {
        lemma_lower_char(c);
    }
}

proof fn lemma_lower_trim_while(s: Seq<char>, p: spec_fn(char) -> bool)
    requires
        ignores_case(p),
    ensures
        text::trim_while(text::lower(s), p) == text::lower(text::trim_while(s, p)),
{
    let low = text::lower(s);
    let n = text::span(s, p);
    text::lemma_span(s, p);
    assert forall|i: int| 0 <= i < n implies p(#[trigger] low[i]) by {
        assert(p(s[i]));
        assert(low[i] == text::lower_char(s[i]));
    }
    if n < s.len() {
        assert(low[n as int] == text::lower_char(s[n as int]));
    }
    text::lemma_span_is(low, p, n);
    let a = text::trim_start_while(s, p);
    let b = text::trim_start_while(low, p);
    assert(b =~= text::lower(a));
    let m = text::back_span(a, p);
    text::lemma_back_span(a, p);
    assert forall|i: int| b.len() - m <= i < b.len() implies p(#[trigger] b[i]) by {
        assert(p(a[i]));
        assert(b[i] == text::lower_char(a[i]));
    }
    if m < a.len() {
        assert(b[b.len() - m - 1] == text::lower_char(a[a.len() - m - 1]));
    }
    text::lemma_back_span_is(b, p, m);
    assert(text::trim_end_while(b, p) =~= text::lower(text::trim_end_while(a, p)));
}

proof fn lemma_lower_cleaned(s: Seq<char>)
    ensures
        rules::cleaned(text::lower(s)) == text::lower(rules::cleaned(s)),
{
    lemma_trims_ignore_case();
    lemma_lower_trim_while(s, text::white());
    lemma_lower_trim_while(text::trim(s), text::is_char('"'));
}

proof fn lemma_lower_lower(s: Seq<char>)
    ensures
        text::lower(text::lower(s)) == text::lower(s),
{
    assert forall|i: int| 0 <= i < s.len() implies text::lower_char(text::lower_char(s[i]))
        == text::lower_char(s[i]) by {
        lemma_lower_char(s[i]);
    }
    assert(text::lower(text::lower(s)) =~= text::lower(s));
}

proof fn lemma_comparable_path_of_lower(s: Seq<char>)
    ensures
        rules::comparable_path(text::lower(s)) == rules::comparable_path(s),
{
    assert forall|i: int| 0 <= i < s.len() implies rules::comparable_path(text::lower(s))[i]
        == rules::comparable_path(s)[i] by {
        lemma_lower_char(s[i]);
    }
    assert(rules::comparable_path(text::lower(s)) =~= rules::comparable_path(s));
}

proof fn lemma_entry_of_lower(line: Seq<char>)
    ensures
        rules::list_entry(text::lower(line)) == rules::list_entry(line),
        rules::process_key(text::lower(line)) == rules::process_key(line),
{
    lemma_lower_cleaned(line);
    let name = rules::cleaned(line);
    if name.len() > 0 {
        lemma_lower_char(name[0]);
    }
    lemma_comparable_path_of_lower(name);
    lemma_lower_lower(name);
}

/// Entries are case insensitive: lines that differ in the case of ASCII letters only stand for
/// the same entry, and such names have the same key.
pub proof fn entries_ignore_case(a: Seq<char>, b: Seq<char>)
    requires
        text::lower(a) == text::lower(b),
    ensures
        rules::list_entry(a) == rules::list_entry(b),
        rules::process_key(a) == rules::process_key(b),
{
    lemma_entry_of_lower(a);
    lemma_entry_of_lower(b);
}

// ---------------------------------------------------------------------------
// The extension
// ---------------------------------------------------------------------------
/// A comparable path has no slash left, so that only a backslash makes it name a path.
proof fn lemma_comparable_path_names_path(s: Seq<char>)
    ensures
        rules::names_path(rules::comparable_path(s)) <==> s.contains('/') || s.contains('\\'),
{
    let e = rules::comparable_path(s);
    assert forall|i: int| 0 <= i < e.len() implies e[i] != '/' && (e[i] == '\\' <==> s[i] == '/'
        || s[i] == '\\') by {
        lemma_lower_char(s[i]);
    }
    if s.contains('/') {
        let i = choose|i: int| 0 <= i < s.len() && s[i] == '/';
        assert(e[i] == '\\');
    }
    if s.contains('\\') {
        let i = choose|i: int| 0 <= i < s.len() && s[i] == '\\';
        assert(e[i] == '\\');
    }
    if e.contains('\\') {
        let i = choose|i: int| 0 <= i < e.len() && e[i] == '\\';
        assert(s[i] == '/' || s[i] == '\\');
    }
}

proof fn lemma_dot_exe()
    ensures
        ".exe"@ == seq!['.', 'e', 'x', 'e'],
        text::lower(".exe"@) == ".exe"@,
{
    reveal_strlit(".exe");
    assert(".exe"@ =~= seq!['.', 'e', 'x', 'e']);
    assert(text::lower(".exe"@) =~= ".exe"@);
}

/// The `.exe` extension is optional for executable names, in any case of its letters: a line
/// whose name has it behind stands for the same entry as one whose name has not, and the two
/// names have the same key.
pub proof fn extension_is_optional(bare: Seq<char>, extended: Seq<char>, extension: Seq<char>)
    requires
        rules::cleaned(bare).len() > 0,
        !rules::cleaned(bare).contains('/'),
        !rules::cleaned(bare).contains('\\'),
        !text::ends_with(text::lower(rules::cleaned(bare)), ".exe"@),
        text::lower(extension) == ".exe"@,
        rules::cleaned(extended) == rules::cleaned(bare) + extension,
    ensures
        rules::list_entry(extended) == rules::list_entry(bare),
        rules::process_key(extended) == rules::process_key(bare),
{
    lemma_dot_exe();
    let dot = ".exe"@;
    let name = rules::cleaned(bare);
    let whole = name + extension;
    assert(whole[0] == name[0]);
    assert forall|i: int| 0 <= i < extension.len() implies extension[i] != '/' && extension[i]
        != '\\' by {
        assert(text::lower(extension)[i] == dot[i]);
        lemma_lower_char(extension[i]);
    }
    assert forall|i: int| 0 <= i < name.len() implies name[i] != '/' by {
        if name[i] == '/' {
            assert(name.contains('/'));
        }
    }
    assert forall|c: char| c == '/' || c == '\\' implies !whole.contains(c) by {
        if whole.contains(c) {
            let i = choose|i: int| 0 <= i < whole.len() && whole[i] == c;
            if i < name.len() {
                assert(name[i] == c);
            } else {
                assert(extension[i - name.len()] == c);
            }
        }
    }
    lemma_comparable_path_names_path(name);
    lemma_comparable_path_names_path(whole);
    let e = rules::comparable_path(name);
    assert(e =~= text::lower(name));
    assert(text::lower(whole) =~= text::lower(name) + text::lower(extension));
    assert(rules::comparable_path(whole) =~= text::lower(whole));
    lemma_without_added_suffix(e, dot);
}

/// Taking a suffix off gives back what it was put behind.
proof fn lemma_without_added_suffix(s: Seq<char>, suffix: Seq<char>)
    ensures
        text::ends_with(s + suffix, suffix),
        text::without_suffix(s + suffix, suffix) == s,
{
    assert((s + suffix).skip((s + suffix).len() - suffix.len()) =~= suffix);
    assert((s + suffix).take((s + suffix).len() - suffix.len()) =~= s);
}

// ---------------------------------------------------------------------------
// Names and paths
// ---------------------------------------------------------------------------
/// Whether a list with the one entry `entry` matches a process.
pub open spec fn entry_matches(entry: Seq<char>, exe: Seq<char>, path: Option<Seq<char>>) -> bool {
    rules::rules_match(rules::rule_names(seq![entry]), rules::rule_paths(seq![entry]), exe, path)
}

/// An entry that names an executable matches by name alone: whatever the image path of a process
/// is, it matches exactly where its key, or its key without a known build suffix, is the key of the
/// entry. An entry whose key is empty matches nothing.
pub proof fn name_entry_matches_anywhere(entry: Seq<char>, exe: Seq<char>, path: Option<Seq<char>>)
    requires
        !rules::names_path(entry),
    ensures
        entry_matches(entry, exe, path) <==> rules::process_key(entry).len() > 0 && (
        rules::process_key(exe) == rules::process_key(entry) || rules::without_known_suffix(
            rules::process_key(exe),
        ) == rules::process_key(entry)),
{
    let entries = seq![entry];
    assert(entries[0] == entry);
    assert forall|k: Seq<char>|
        rules::rule_names(entries).contains(k) == (k.len() > 0 && k == rules::process_key(entry)) by {
        if k.len() > 0 && k == rules::process_key(entry) {
            assert(!rules::names_path(entries[0]));
        }
    }
}

/// An entry that names a path matches exactly the process with that image path, whatever its name
/// is.
pub proof fn path_entry_matches_only_its_path(
    entry: Seq<char>,
    exe: Seq<char>,
    path: Option<Seq<char>>,
)
    requires
        rules::names_path(entry),
    ensures
        entry_matches(entry, exe, path) <==> path == Some(entry),
{
    let entries = seq![entry];
    assert(entries[0] == entry);
    assert forall|p: Seq<char>| rules::rule_paths(entries).contains(p) == (p == entry) by {
        if p == entry {
            assert(rules::names_path(entries[0]));
        }
    }
}

/// A list matches a process exactly where one of its entries does.
pub proof fn a_list_matches_where_an_entry_does(
    entries: Seq<Seq<char>>,
    exe: Seq<char>,
    path: Option<Seq<char>>,
)
    ensures
        rules::rules_match(rules::rule_names(entries), rules::rule_paths(entries), exe, path)
            <==> exists|i: int|
            0 <= i < entries.len() && entry_matches(#[trigger] entries[i], exe, path),
{
    let names = rules::rule_names(entries);
    let paths = rules::rule_paths(entries);
    let key = rules::process_key(exe);
    let short = rules::without_known_suffix(key);
    if rules::rules_match(names, paths, exe, path) {
        if names.contains(key) || names.contains(short) {
            let k = if names.contains(key) {
                key
            } else {
                short
            };
            let i = choose|i: int|
                0 <= i < entries.len() && !rules::names_path(#[trigger] entries[i])
                    && rules::process_key(entries[i]) == k;
            name_entry_matches_anywhere(entries[i], exe, path);
            assert(entry_matches(entries[i], exe, path));
        } else {
            let i = choose|i: int|
                0 <= i < entries.len() && rules::names_path(#[trigger] entries[i]) && entries[i]
                    == path->0;
            path_entry_matches_only_its_path(entries[i], exe, path);
            assert(entry_matches(entries[i], exe, path));
        }
    }
    if exists|i: int| 0 <= i < entries.len() && entry_matches(#[trigger] entries[i], exe, path) {
        let i = choose|i: int|
            0 <= i < entries.len() && entry_matches(#[trigger] entries[i], exe, path);
        if rules::names_path(entries[i]) {
            path_entry_matches_only_its_path(entries[i], exe, path);
            assert(paths.contains(entries[i]));
        } else {
            name_entry_matches_anywhere(entries[i], exe, path);
            assert(names.contains(rules::process_key(entries[i])));
        }
    }
}

/// Trimming away what a filter does not keep changes nothing of what it keeps.
proof fn lemma_filter_trimmed(s: Seq<char>, p: spec_fn(char) -> bool, keep: spec_fn(char) -> bool)
    requires
        forall|c: char| #[trigger] p(c) ==> !keep(c),
    ensures
        text::trim_while(s, p).filter(keep) == s.filter(keep),
{
    text::lemma_span(s, p);
    let n = text::span(s, p) as int;
    let a = text::trim_start_while(s, p);
    text::lemma_back_span(a, p);
    let m = a.len() - text::back_span(a, p);
    let head = s.take(n);
    let tail = a.skip(m);
    assert forall|i: int| 0 <= i < head.len() implies !keep(#[trigger] head[i]) by {
        assert(p(s[i]));
    }
    assert forall|i: int| 0 <= i < tail.len() implies !keep(#[trigger] tail[i]) by {
        assert(p(a[m + i]));
    }
    lemma_filter_nothing(head, keep);
    lemma_filter_nothing(tail, keep);
    assert(s =~= head + a);
    assert(a =~= a.take(m) + tail);
    Seq::filter_distributes_over_add(head, a, keep);
    Seq::filter_distributes_over_add(a.take(m), tail, keep);
    assert(head.filter(keep) + a.filter(keep) =~= a.filter(keep));
    assert(a.take(m).filter(keep) + tail.filter(keep) =~= a.take(m).filter(keep));
}

/// A filter that keeps none of the elements gives nothing.
proof fn lemma_filter_nothing(s: Seq<char>, keep: spec_fn(char) -> bool)
    requires
        forall|i: int| 0 <= i < s.len() ==> !keep(#[trigger] s[i]),
    ensures
        s.filter(keep) == Seq::<char>::empty(),
    decreases s.len(),
{
    reveal(Seq::filter);
    if s.len() > 0 {
        let rest = s.drop_last();
        assert forall|i: int| 0 <= i < rest.len() implies !keep(#[trigger] rest[i]) by {
            assert(rest[i] == s[i]);
        }
        lemma_filter_nothing(rest, keep);
        assert(!keep(s[s.len() - 1]));
    }
}

/// Cleaning a name does not change its letters and digits.
proof fn lemma_filter_cleaned(s: Seq<char>)
    ensures
        rules::cleaned(s).filter(text::alphanumeric()) == s.filter(text::alphanumeric()),
{
    let keep = text::alphanumeric();
    assert forall|c: char| #[trigger] text::white()(c) implies !keep(c) by {
        lemma_white_is_not_alphanumeric(c);
    }
    let q = text::is_char('"');
    assert forall|c: char| #[trigger] q(c) implies !keep(c) by {}
    lemma_filter_trimmed(s, text::white(), keep);
    lemma_filter_trimmed(text::trim(s), q, keep);
}

proof fn lemma_white_is_not_alphanumeric(c: char)
    ensures
        text::is_white_space(c) ==> !text::is_ascii_alphanumeric(c),
{
}

/// A line with the name of an executable matches that executable anywhere, whatever the case of its
/// letters. Left out are a name without any ASCII letter or digit, which matches nothing, and a name
/// whose entry still ends with `.exe`, as that of `game.exe.exe` does.
pub proof fn name_line_matches_that_executable(
    line: Seq<char>,
    exe: Seq<char>,
    path: Option<Seq<char>>,
)
    requires
        rules::cleaned(line).len() > 0,
        rules::cleaned(line)[0] != '#',
        !rules::cleaned(line).contains('/'),
        !rules::cleaned(line).contains('\\'),
        text::lower(rules::cleaned(exe)) == text::lower(rules::cleaned(line)),
        rules::process_key(exe).len() > 0,
        !text::ends_with(rules::cleaned(rules::list_entry(line)->0), ".exe"@),
    ensures
        rules::list_entry(line) is Some,
        rules::process_key(rules::list_entry(line)->0) == rules::process_key(exe),
        entry_matches(rules::list_entry(line)->0, exe, path),
{
    let name = rules::cleaned(line);
    let low = text::lower(name);
    lemma_comparable_path_names_path(name);
    assert(rules::comparable_path(name) =~= low) by {
        assert forall|i: int| 0 <= i < name.len() implies name[i] != '/' by {
            if name[i] == '/' {
                assert(name.contains('/'));
            }
        }
    }
    let entry = text::without_suffix(low, ".exe"@);
    assert(rules::list_entry(line) == Some(entry));
    lemma_lower_lower(name);
    assert(text::lower(entry) =~= entry) by {
        assert forall|i: int| 0 <= i < entry.len() implies text::lower_char(entry[i]) == entry[i] by {
            assert(text::lower(low)[i] == low[i]);
        }
    }
    lemma_lower_cleaned(entry);
    lemma_filter_cleaned(entry);
    assert(!entry.contains('\\')) by {
        if entry.contains('\\') {
            let i = choose|i: int| 0 <= i < entry.len() && entry[i] == '\\';
            assert(low[i] == '\\');
            lemma_lower_char(name[i]);
            assert(name.contains(name[i]));
        }
    }
    assert(!rules::names_path(entry)) by {
        assert forall|i: int| 0 <= i < entry.len() implies entry[i] != '/' by {
            lemma_lower_char(name[i]);
            assert(name.contains(name[i]));
        }
    }
    name_entry_matches_anywhere(entry, exe, path);
}

/// A line with a full path matches exactly the process whose image path is the same but for the
/// case of ASCII letters and the direction of its slashes.
pub proof fn path_line_matches_that_executable(
    line: Seq<char>,
    exe: Seq<char>,
    image: Seq<char>,
)
    requires
        rules::cleaned(line).len() > 0,
        rules::cleaned(line)[0] != '#',
        rules::cleaned(line).contains('/') || rules::cleaned(line).contains('\\'),
    ensures
        rules::list_entry(line) is Some,
        entry_matches(rules::list_entry(line)->0, exe, Some(rules::comparable_path(image)))
            <==> rules::comparable_path(image) == rules::comparable_path(rules::cleaned(line)),
{
    let name = rules::cleaned(line);
    let entry = rules::comparable_path(name);
    lemma_comparable_path_names_path(name);
    path_entry_matches_only_its_path(entry, exe, Some(rules::comparable_path(image)));
}

/// A name entry also matches a process whose key is that of the entry with a known build suffix
/// behind it. A longer known suffix is taken off first, so that `shipping` behind a key that
/// ends with `win64` is left out.
pub proof fn known_suffix_matches(key: Seq<char>, suffix: Seq<char>)
    requires
        suffix == "win64shipping"@ || suffix == "x64"@ || suffix == "dx12"@ || suffix == "dx11"@
            || suffix == "shipping"@ && !text::ends_with(key, "win64"@),
    ensures
        rules::without_known_suffix(key + suffix) == key,
{
    reveal_strlit("win64shipping");
    reveal_strlit("win64");
    reveal_strlit("x64");
    reveal_strlit("dx12");
    reveal_strlit("dx11");
    reveal_strlit("shipping");
    let whole = key + suffix;
    lemma_without_added_suffix(key, suffix);
    let last = whole.len() - 1;
    assert(whole.last() == suffix.last());
    assert forall|other: Seq<char>|
        other.len() > 0 && #[trigger] text::ends_with(whole, other) implies other.last()
        == suffix.last() by {
        let tail = whole.skip(whole.len() - other.len());
        assert(tail[tail.len() - 1] == whole[whole.len() - 1]);
    }
    if suffix == "shipping"@ && text::ends_with(whole, "win64shipping"@) {
        let long = "win64shipping"@;
        assert(whole.skip(whole.len() - 13) == long);
        assert(key.len() >= 5);
        assert forall|i: int| 0 <= i < 5 implies key.skip(key.len() - 5)[i] == "win64"@[i] by {
            assert(whole.skip(whole.len() - 13)[i] == long[i]);
        }
        assert(key.skip(key.len() - 5) =~= "win64"@);
    }
}

// ---------------------------------------------------------------------------
// Exclusions
// ---------------------------------------------------------------------------
/// Where the exclusion list holds every entry of the game list, no process counts as a game.
pub proof fn excluded_entries_never_count(
    games: Seq<Seq<char>>,
    exclusions: Seq<Seq<char>>,
    exe: Seq<char>,
    path: Option<Seq<char>>,
)
    requires
        forall|e: Seq<char>| games.contains(e) ==> exclusions.contains(e),
    ensures
        rules::rules_match(rules::rule_names(games), rules::rule_paths(games), exe, path)
            ==> rules::rules_match(
            rules::rule_names(exclusions),
            rules::rule_paths(exclusions),
            exe,
            path,
        ),
{
    assert forall|k: Seq<char>| rules::rule_names(games).contains(k) implies rules::rule_names(
        exclusions,
    ).contains(k) by {
        let i = choose|i: int|
            0 <= i < games.len() && !rules::names_path(#[trigger] games[i]) && rules::process_key(
                games[i],
            ) == k;
        assert(games.contains(games[i]));
        let j = choose|j: int| 0 <= j < exclusions.len() && exclusions[j] == games[i];
        assert(!rules::names_path(exclusions[j]));
    }
    assert forall|p: Seq<char>| rules::rule_paths(games).contains(p) implies rules::rule_paths(
        exclusions,
    ).contains(p) by {
        let i = choose|i: int|
            0 <= i < games.len() && rules::names_path(#[trigger] games[i]) && games[i] == p;
        assert(games.contains(games[i]));
        let j = choose|j: int| 0 <= j < exclusions.len() && exclusions[j] == games[i];
        assert(rules::names_path(exclusions[j]));
    }
}

/// A process that an entry of the exclusion list matches never counts as a game, whatever the game
/// list says of it.
pub proof fn an_excluded_entry_never_counts(
    process: ProcessEntry,
    games: ProcessRules,
    exclusions: ProcessRules,
    excluded: Seq<Seq<char>>,
    entry: Seq<char>,
)
    requires
        exclusions.names@ == rules::rule_names(excluded),
        exclusions.paths@ == rules::rule_paths(excluded),
        excluded.contains(entry),
        entry_matches(entry, process.exe_name(), text::opt_view(process.image_path)),
    ensures
        !process.counts(&games, &exclusions),
{
    a_list_matches_where_an_entry_does(
        excluded,
        process.exe_name(),
        text::opt_view(process.image_path),
    );
    let i = choose|i: int| 0 <= i < excluded.len() && excluded[i] == entry;
    assert(entry_matches(excluded[i], process.exe_name(), text::opt_view(process.image_path)));
}

/// A process that the exclusions match never makes a game count as running: where every process
/// that matches the games matches the exclusions too, no game runs.
pub proof fn excluded_processes_never_count(
    processes: Seq<ProcessEntry>,
    games: ProcessRules,
    exclusions: ProcessRules,
)
    requires
        forall|i: int|
            #![trigger processes[i]]
            0 <= i < processes.len() && games.matches(
                processes[i].exe_name(),
                text::opt_view(processes[i].image_path),
            ) ==> exclusions.matches(
                processes[i].exe_name(),
                text::opt_view(processes[i].image_path),
            ),
    ensures
        rules::running_games(processes, &games, &exclusions).is_empty(),
{
    assert forall|n: Seq<char>| !rules::running_games(processes, &games, &exclusions).contains(n) by {
        if rules::running_games(processes, &games, &exclusions).contains(n) {
            let i = choose|i: int|
                0 <= i < processes.len() && (#[trigger] processes[i]).exe_name() == n
                    && processes[i].counts(&games, &exclusions);
            assert(games.matches(processes[i].exe_name(), text::opt_view(processes[i].image_path)));
        }
    }
}

/// Where neither list names a path, image paths do not decide: two processes with the same
/// executable name count alike.
pub proof fn names_alone_decide_without_path_rules(
    a: ProcessEntry,
    b: ProcessEntry,
    games: ProcessRules,
    exclusions: ProcessRules,
)
    requires
        games.paths@.is_empty(),
        exclusions.paths@.is_empty(),
        a.exe_name() == b.exe_name(),
    ensures
        a.counts(&games, &exclusions) == b.counts(&games, &exclusions),
{
}

// ---------------------------------------------------------------------------
// Lines
// ---------------------------------------------------------------------------
/// Cleaning takes off white space at both ends and then double quotes at both ends, and nothing
/// else.
pub proof fn cleaning_takes_off_white_space_and_quotes(
    front: Seq<char>,
    opening: Seq<char>,
    core: Seq<char>,
    closing: Seq<char>,
    back: Seq<char>,
)
    requires
        forall|i: int| 0 <= i < front.len() ==> text::is_white_space(#[trigger] front[i]),
        forall|i: int| 0 <= i < opening.len() ==> #[trigger] opening[i] == '"',
        forall|i: int| 0 <= i < closing.len() ==> #[trigger] closing[i] == '"',
        forall|i: int| 0 <= i < back.len() ==> text::is_white_space(#[trigger] back[i]),
        core.len() > 0 ==> core[0] != '"' && core.last() != '"',
        core.len() > 0 && opening.len() == 0 ==> !text::is_white_space(core[0]),
        core.len() > 0 && closing.len() == 0 ==> !text::is_white_space(core.last()),
    ensures
        rules::cleaned(front + (opening + core + closing) + back) == core,
{
    let inner = opening + core + closing;
    if inner.len() > 0 {
        assert(inner[0] == (if opening.len() > 0 {
            opening[0]
        } else if core.len() > 0 {
            core[0]
        } else {
            closing[0]
        }));
        assert(inner.last() == (if closing.len() > 0 {
            closing.last()
        } else if core.len() > 0 {
            core.last()
        } else {
            opening.last()
        }));
        assert(closing.len() > 0 ==> closing[closing.len() - 1] == '"');
        assert(opening.len() > 0 ==> opening[opening.len() - 1] == '"');
    }
    text_laws::texts_lose_white_space_or_quotes(front, inner, back);
    text_laws::texts_lose_white_space_or_quotes(opening, core, closing);
}

/// A line stands for no entry exactly where nothing is left of it or what is left starts with a hash
/// sign, whatever follows that sign.
pub proof fn blank_lines_and_comments_stand_for_nothing(line: Seq<char>)
    ensures
        rules::list_entry(line) is None <==> rules::cleaned(line).len() == 0 || rules::cleaned(line)[0]
            == '#',
{
}

/// A path in its comparable form has a backslash for every slash, a small letter for every ASCII
/// capital, and every other character as it was.
pub proof fn comparable_paths_are_letter_by_letter(path: Seq<char>)
    ensures
        rules::comparable_path(path).len() == path.len(),
        forall|i: int|
            0 <= i < path.len() ==> if #[trigger] path[i] == '/' {
                rules::comparable_path(path)[i] == '\\'
            } else if 'A' <= path[i] <= 'Z' {
                rules::comparable_path(path)[i] as u32 == path[i] as u32 + 32
            } else {
                rules::comparable_path(path)[i] == path[i]
            },
{
}

/// A line with a slash or a backslash stands for the whole path in its comparable form. Any other
/// line stands for its name in lower case, without the one `.exe` at its end where it has one.
pub proof fn lines_stand_for_paths_or_names(line: Seq<char>, base: Seq<char>, extension: Seq<char>)
    requires
        rules::cleaned(line) == base + extension,
        rules::cleaned(line).len() > 0,
        rules::cleaned(line)[0] != '#',
        text::lower(extension) == ".exe"@ || extension.len() == 0 && (forall|rest: Seq<char>|
            text::lower(base) != #[trigger] (rest + ".exe"@)),
    ensures
        rules::cleaned(line).contains('/') || rules::cleaned(line).contains('\\')
            ==> rules::list_entry(line) == Some(rules::comparable_path(rules::cleaned(line))),
        !rules::cleaned(line).contains('/') && !rules::cleaned(line).contains('\\')
            ==> rules::list_entry(line) == Some(text::lower(base)),
{
    let name = rules::cleaned(line);
    lemma_comparable_path_names_path(name);
    if !name.contains('/') && !name.contains('\\') {
        let low = text::lower(name);
        assert(rules::comparable_path(name) =~= low) by {
            assert forall|i: int| 0 <= i < name.len() implies name[i] != '/' by {
                if name[i] == '/' {
                    assert(name.contains('/'));
                }
            }
        }
        assert(low =~= text::lower(base) + text::lower(extension));
        if extension.len() == 0 {
            assert(low =~= text::lower(base));
        }
        text_laws::a_suffix_is_taken_off_once(text::lower(base), ".exe"@);
    }
}

/// A path on a drive, such as `c:/games`.
pub open spec fn drive_path(drive: char, rest: Seq<char>) -> Seq<char> {
    seq![drive, ':', '/'] + rest
}

/// A path on a device, such as `//./com1`.
pub open spec fn device_path(rest: Seq<char>) -> Seq<char> {
    seq!['/', '/', '.', '/'] + rest
}

/// A path on a share, such as `//server/share`.
pub open spec fn share_path(server: Seq<char>, share: Seq<char>) -> Seq<char> {
    seq!['/', '/'] + server + seq!['/'] + share
}

/// An entry names a path exactly where it has a backslash, or starts with a drive and its root, with
/// a device, or with a server and a share.
pub proof fn paths_have_a_backslash_or_an_absolute_start(v: Seq<char>)
    ensures
        rules::names_path(v) <==> {
            ||| exists|i: int| 0 <= i < v.len() && #[trigger] v[i] == '\\'
            ||| exists|drive: char, rest: Seq<char>|
                v == #[trigger] drive_path(drive, rest) && ('a' <= drive <= 'z' || 'A' <= drive
                    <= 'Z')
            ||| exists|rest: Seq<char>| v == #[trigger] device_path(rest)
            ||| exists|server: Seq<char>, share: Seq<char>|
                v == #[trigger] share_path(server, share) && server.len() > 0
                    && !server.contains('/') && share.len() > 0 && share[0] != '/'
        },
{
    let p = text::is_not_char('/');
    if rules::has_drive_root(v) {
        assert(v =~= drive_path(v[0], v.skip(3)));
    }
    if exists|drive: char, rest: Seq<char>|
        v == #[trigger] drive_path(drive, rest) && ('a' <= drive <= 'z' || 'A' <= drive <= 'Z') {
        let (drive, rest) = choose|drive: char, rest: Seq<char>|
            v == #[trigger] drive_path(drive, rest) && ('a' <= drive <= 'z' || 'A' <= drive
                <= 'Z');
        assert(v[0] == drive && v[1] == ':' && v[2] == '/');
        assert(rules::has_drive_root(v));
    }
    if rules::has_device_prefix(v) {
        assert(v =~= device_path(v.skip(4)));
    }
    if exists|rest: Seq<char>| v == #[trigger] device_path(rest) {
        let rest = choose|rest: Seq<char>| v == #[trigger] device_path(rest);
        assert(v[0] == '/' && v[1] == '/' && v[2] == '.' && v[3] == '/');
        assert(rules::has_device_prefix(v));
    }
    if rules::has_network_prefix(v) {
        let tail = v.skip(2);
        text::lemma_span(tail, p);
        let n = text::span(tail, p) as int;
        let server = tail.take(n);
        let share = v.skip(n + 3);
        assert(!p(tail[n]));
        assert(v[n + 2] == '/');
        assert(v =~= share_path(server, share));
        if server.contains('/') {
            let i = choose|i: int| 0 <= i < server.len() && server[i] == '/';
            assert(p(tail[i]));
        }
        assert(share[0] == v[n + 3]);
    }
    if exists|server: Seq<char>, share: Seq<char>|
        v == #[trigger] share_path(server, share) && server.len() > 0
            && !server.contains('/') && share.len() > 0 && share[0] != '/' {
        let (server, share) = choose|server: Seq<char>, share: Seq<char>|
            v == #[trigger] share_path(server, share) && server.len() > 0
                && !server.contains('/') && share.len() > 0 && share[0] != '/';
        let tail = v.skip(2);
        let n = server.len() as int;
        assert forall|i: int| 0 <= i < n implies p(#[trigger] tail[i]) by {
            assert(tail[i] == server[i]);
            if server[i] == '/' {
                assert(server.contains('/'));
            }
        }
        assert(tail[n] == '/');
        text::lemma_span_is(tail, p, server.len());
        assert(v[0] == '/' && v[1] == '/' && v[n + 3] == share[0]);
        assert(rules::has_network_prefix(v));
    }
}

// ---------------------------------------------------------------------------
// Keys
// ---------------------------------------------------------------------------
/// The ASCII letters and digits of a text, in order, with small letters for capitals.
pub open spec fn letters_and_digits(s: Seq<char>) -> Seq<char>
    decreases s.len(),
{
    if s.len() == 0 {
        Seq::empty()
    } else {
        let rest = letters_and_digits(s.drop_last());
        let c = s.last();
        if 'a' <= c <= 'z' || '0' <= c <= '9' {
            rest.push(c)
        } else if 'A' <= c <= 'Z' {
            rest.push((c as u32 + 32) as char)
        } else {
            rest
        }
    }
}

proof fn lemma_letters_and_digits(s: Seq<char>)
    ensures
        text::lower(s).filter(text::alphanumeric()) == letters_and_digits(s),
    decreases s.len(),
{
    reveal(Seq::filter);
    if s.len() > 0 {
        lemma_letters_and_digits(s.drop_last());
        assert(text::lower(s).drop_last() =~= text::lower(s.drop_last()));
        lemma_lower_char(s.last());
    }
}

/// The key of a name is all of its ASCII letters and digits, in lower case and in order, once the one
/// `.exe` at its end is taken off where it has one.
pub proof fn keys_are_letters_and_digits(name: Seq<char>, base: Seq<char>, extension: Seq<char>)
    requires
        rules::cleaned(name) == base + extension,
        text::lower(extension) == ".exe"@ || extension.len() == 0 && (forall|rest: Seq<char>|
            text::lower(base) != #[trigger] (rest + ".exe"@)),
    ensures
        rules::process_key(name) == letters_and_digits(base),
{
    let all = rules::cleaned(name);
    assert(text::lower(all) =~= text::lower(base) + text::lower(extension));
    if extension.len() == 0 {
        assert(text::lower(all) =~= text::lower(base));
    }
    text_laws::a_suffix_is_taken_off_once(text::lower(base), ".exe"@);
    lemma_letters_and_digits(base);
}

/// One of the known build suffixes.
pub open spec fn is_known_suffix(s: Seq<char>) -> bool {
    s == "win64shipping"@ || s == "x64"@ || s == "dx12"@ || s == "dx11"@ || s == "shipping"@
}

/// A key loses one known build suffix where it ends with one, the longest where it ends with two, and
/// is kept as it is where it ends with none.
pub proof fn a_key_loses_a_known_suffix_or_nothing(key: Seq<char>)
    ensures
        (exists|s: Seq<char>| is_known_suffix(s) && key == #[trigger] (rules::without_known_suffix(
            key,
        ) + s)) || (rules::without_known_suffix(key) == key && forall|rest: Seq<char>, s: Seq<char>|
            is_known_suffix(s) ==> key != #[trigger] (rest + s)),
        (exists|rest: Seq<char>| key == #[trigger] (rest + "win64shipping"@)) ==> key
            == rules::without_known_suffix(key) + "win64shipping"@,
{
    let suffixes = seq!["win64shipping"@, "x64"@, "dx12"@, "dx11"@, "shipping"@];
    let short = rules::without_known_suffix(key);
    assert forall|i: int| 0 <= i < 5 && text::ends_with(key, #[trigger] suffixes[i]) implies key
        == key.take(key.len() - suffixes[i].len()) + suffixes[i] by {
        let s = suffixes[i];
        assert(key =~= key.take(key.len() - s.len()) + key.skip(key.len() - s.len()));
    }
    text_laws::ends_and_starts_are_parts(key, suffixes[0]);
    if exists|i: int| 0 <= i < 5 && text::ends_with(key, #[trigger] suffixes[i]) {
        let s = if text::ends_with(key, suffixes[0]) {
            suffixes[0]
        } else if text::ends_with(key, suffixes[1]) {
            suffixes[1]
        } else if text::ends_with(key, suffixes[2]) {
            suffixes[2]
        } else if text::ends_with(key, suffixes[3]) {
            suffixes[3]
        } else {
            suffixes[4]
        };
        assert(key == short + s);
        assert(is_known_suffix(s));
    } else {
        assert(!text::ends_with(key, suffixes[0]) && !text::ends_with(key, suffixes[1])
            && !text::ends_with(key, suffixes[2]) && !text::ends_with(key, suffixes[3])
            && !text::ends_with(key, suffixes[4]));
        assert forall|rest: Seq<char>, s: Seq<char>| is_known_suffix(s) implies key != #[trigger] (
        rest + s) by {
            text_laws::ends_and_starts_are_parts(key, s);
        }
    }
}

/// `key` is `short` with a known build suffix behind it; `shipping` behind `win64` counts as the longer
/// suffix.
pub open spec fn is_known_build(key: Seq<char>, short: Seq<char>) -> bool {
    ||| key == short + "win64shipping"@
    ||| key == short + "x64"@
    ||| key == short + "dx12"@
    ||| key == short + "dx11"@
    ||| key == short + "shipping"@ && !text::ends_with(short, "win64"@)
}

/// A key is cut to `short` by its known suffix exactly where it is a known build of `short`.
proof fn lemma_known_build(key: Seq<char>, short: Seq<char>)
    ensures
        is_known_build(key, short) ==> rules::without_known_suffix(key) == short,
        rules::without_known_suffix(key) == short && key != short ==> is_known_build(key, short),
{
    if is_known_build(key, short) {
        if key == short + "win64shipping"@ {
            known_suffix_matches(short, "win64shipping"@);
        } else if key == short + "x64"@ {
            known_suffix_matches(short, "x64"@);
        } else if key == short + "dx12"@ {
            known_suffix_matches(short, "dx12"@);
        } else if key == short + "dx11"@ {
            known_suffix_matches(short, "dx11"@);
        } else {
            known_suffix_matches(short, "shipping"@);
        }
    }
    if rules::without_known_suffix(key) == short && key != short {
        a_key_loses_a_known_suffix_or_nothing(key);
        let s = choose|s: Seq<char>|
            is_known_suffix(s) && key == #[trigger] (rules::without_known_suffix(key) + s);
        assert(key == short + s);
        if s == "shipping"@ && text::ends_with(short, "win64"@) {
            lemma_longer_suffix(key, short);
        }
    }
}

/// `shipping` behind `win64` is the longer suffix.
proof fn lemma_longer_suffix(key: Seq<char>, short: Seq<char>)
    requires
        key == short + "shipping"@,
        text::ends_with(short, "win64"@),
    ensures
        rules::without_known_suffix(key) != short,
{
    reveal_strlit("win64");
    reveal_strlit("shipping");
    reveal_strlit("win64shipping");
    let rest = short.take(short.len() - 5);
    assert(short =~= rest + short.skip(short.len() - 5));
    assert(key =~= rest + "win64shipping"@);
    known_suffix_matches(rest, "win64shipping"@);
    assert(rest.len() < short.len());
}

/// An entry that names an executable matches a process exactly where the key of the process is that
/// of the entry, or that of the entry with one of the known build suffixes behind it.
pub proof fn name_entry_matches_its_key_and_known_builds(
    entry: Seq<char>,
    exe: Seq<char>,
    path: Option<Seq<char>>,
)
    requires
        !rules::names_path(entry),
    ensures
        entry_matches(entry, exe, path) <==> rules::process_key(entry).len() > 0 && (
        rules::process_key(exe) == rules::process_key(entry) || is_known_build(
            rules::process_key(exe),
            rules::process_key(entry),
        )),
{
    name_entry_matches_anywhere(entry, exe, path);
    lemma_known_build(rules::process_key(exe), rules::process_key(entry));
}

// ---------------------------------------------------------------------------
// Processes
// ---------------------------------------------------------------------------
/// The name of a process is what stands in its buffer before the first zero unit, or all of it.
pub proof fn the_name_ends_at_the_first_zero(process: ProcessEntry, name: Seq<char>, rest: Seq<u16>)
    requires
        !name.contains('\0'),
        process.exe_file@ == wide::encode_wide(name) + seq![0u16] + rest || process.exe_file@
            == wide::encode_wide(name),
    ensures
        process.exe_name() == name,
{
    wide::encoded_text_has_no_nul(name);
    wide::lemma_until_nul(wide::encode_wide(name), rest);
    wide::encoded_text_decodes(name);
}

/// A process counts as a running game exactly where some entry of the games matches it and no entry
/// of the exclusions does.
pub proof fn a_process_counts_where_a_game_and_no_exclusion_matches(
    process: ProcessEntry,
    games: ProcessRules,
    exclusions: ProcessRules,
    listed: Seq<Seq<char>>,
    excluded: Seq<Seq<char>>,
)
    requires
        games.names@ == rules::rule_names(listed),
        games.paths@ == rules::rule_paths(listed),
        exclusions.names@ == rules::rule_names(excluded),
        exclusions.paths@ == rules::rule_paths(excluded),
    ensures
        process.counts(&games, &exclusions) <==> (exists|i: int|
            0 <= i < listed.len() && entry_matches(
                #[trigger] listed[i],
                process.exe_name(),
                text::opt_view(process.image_path),
            )) && (forall|j: int|
            0 <= j < excluded.len() ==> !entry_matches(
                #[trigger] excluded[j],
                process.exe_name(),
                text::opt_view(process.image_path),
            )),
{
    let exe = process.exe_name();
    let path = text::opt_view(process.image_path);
    a_list_matches_where_an_entry_does(listed, exe, path);
    a_list_matches_where_an_entry_does(excluded, exe, path);
}

/// A name is among those of the running games exactly where some process with that name counts.
pub proof fn running_games_are_the_names_of_processes_that_count(
    processes: Seq<ProcessEntry>,
    games: ProcessRules,
    exclusions: ProcessRules,
    name: Seq<char>,
)
    ensures
        rules::running_games(processes, &games, &exclusions).contains(name) <==> exists|i: int|
            0 <= i < processes.len() && (#[trigger] processes[i]).exe_name() == name
                && processes[i].counts(&games, &exclusions),
{
}

} // verus!
