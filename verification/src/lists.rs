//! Game lists: which lists are in use, what their text says, and the rules kept of them.

use vstd::hash_set::StringHashSet;
use vstd::prelude::*;

use crate::rule_laws;
use crate::rules;
use crate::rules::{normalize_game_name, ProcessRules};
use crate::seqs;
use crate::text;
use crate::text::{chars_of, has_prefix, has_text, lines_of, lower_chars, trim_white_start};

verus! {

// ---------------------------------------------------------------------------
// Flags
// ---------------------------------------------------------------------------
/// The flag of the community list.
pub const GAME_LIST_DEFAULT_FLAG: usize = 0b01;

/// The flag of the custom list, which is always in use.
pub const GAME_LIST_CUSTOM_FLAG: usize = 0b10;

/// Both flags.
pub const ALL_GAME_LIST_FLAGS: usize = 0b11;

/// The flags before any have been saved.
pub const INITIAL_GAME_LIST_FLAGS: usize = 0b11;

/// Whether the flags put the community list in use.
pub open spec fn uses_default(flags: usize) -> bool {
    flags & GAME_LIST_DEFAULT_FLAG != 0
}

/// The flags with unknown ones left out and the custom list put in use.
pub open spec fn sanitized(flags: usize) -> usize {
    if uses_default(flags) {
        ALL_GAME_LIST_FLAGS
    } else {
        GAME_LIST_CUSTOM_FLAG
    }
}

/// Whether the flags put the community list in use.
pub fn default_list_enabled(flags: usize) -> (r: bool)
    ensures
        r == uses_default(flags),
{
    flags & GAME_LIST_DEFAULT_FLAG != 0
}

/// Leaves unknown flags out and puts the custom list in use.
pub fn sanitize_game_list_flags(flags: usize) -> (r: usize)
    ensures
        r == sanitized(flags),
        r == (flags & ALL_GAME_LIST_FLAGS) | GAME_LIST_CUSTOM_FLAG,
{
    assert((flags & 3) | 2 == (if flags & 1 != 0 {
        3usize
    } else {
        2usize
    })) by (bit_vector);
    (flags & ALL_GAME_LIST_FLAGS) | GAME_LIST_CUSTOM_FLAG
}

/// The flags in use: the active ones, or the initial ones where none are known yet.
pub open spec fn flags_in_use(active: Option<usize>) -> usize {
    match active {
        Some(flags) => flags,
        None => INITIAL_GAME_LIST_FLAGS,
    }
}

/// The flags in use: the active ones, or the initial ones where none are known yet.
pub fn game_list_flags(active: Option<usize>) -> (r: usize)
    ensures
        r == flags_in_use(active),
{
    match active {
        Some(flags) => flags,
        None => INITIAL_GAME_LIST_FLAGS,
    }
}

/// The flags to start with from what reading the saved ones gave. None come of a failure.
pub fn load_saved_game_list_flags<E>(saved: Result<usize, E>) -> (r: Option<usize>)
    ensures
        r == (match saved {
            Ok(flags) => Some(sanitized(flags)),
            Err(_) => None,
        }),
{
    match saved {
        Ok(flags) => Some(sanitize_game_list_flags(flags)),
        Err(_) => None,
    }
}

/// Something that the running application has not set up.
#[derive(Clone, Copy, Debug, PartialEq, Eq, Structural)]
pub enum Unavailable {
    Paths,
    Control,
    Flags,
}

impl Unavailable {
    /// What is missing, in words.
    pub fn message(&self) -> (r: &'static str)
        ensures
            r@ == (match *self {
                Unavailable::Paths => "game list paths are unavailable"@,
                Unavailable::Control => "monitor control is unavailable"@,
                Unavailable::Flags => "game list flags are unavailable"@,
            }),
    {
        match *self {
            Unavailable::Paths => "game list paths are unavailable",
            Unavailable::Control => "monitor control is unavailable",
            Unavailable::Flags => "game list flags are unavailable",
        }
    }
}

/// The flags that switching `flag` would give, for the lists to be loaded with before the switch
/// takes effect.
pub fn toggle_game_list_flag(active: Option<usize>, flag: usize) -> (r: Result<usize, Unavailable>)
    ensures
        r == (match active {
            Some(previous) => Ok::<usize, Unavailable>(sanitized(previous ^ flag)),
            None => Err(Unavailable::Flags),
        }),
{
    match active {
        Some(previous) => Ok(sanitize_game_list_flags(previous ^ flag)),
        None => Err(Unavailable::Flags),
    }
}

/// The flags that switching the community list would give.
pub fn toggle_default_list(active: Option<usize>) -> (r: Result<usize, Unavailable>)
    ensures
        r == (match active {
            Some(previous) => Ok::<usize, Unavailable>(sanitized(previous ^ GAME_LIST_DEFAULT_FLAG)),
            None => Err(Unavailable::Flags),
        }),
{
    toggle_game_list_flag(active, GAME_LIST_DEFAULT_FLAG)
}

/// Puts new flags in effect once the lists have been loaded with them, and gives the flags to be
/// saved. Where loading failed, the flags stay as they were.
pub fn finish_flag_toggle<E>(active: &mut usize, new_flags: usize, reload: Result<(), E>) -> (r:
    Result<usize, E>)
    ensures
        match reload {
            Ok(_) => r == Ok::<usize, E>(new_flags) && *final(active) == new_flags,
            Err(e) => r == Err::<usize, E>(e) && *final(active) == *old(active),
        },
{
    match reload {
        Ok(_) => {
            *active = new_flags;
            Ok(new_flags)
        },
        Err(e) => Err(e),
    }
}

// ---------------------------------------------------------------------------
// Entries
// ---------------------------------------------------------------------------
/// The entry of each line, as a function.
pub open spec fn entry_of_line() -> spec_fn(Seq<char>) -> Option<Seq<char>> {
    |line: Seq<char>| rules::list_entry(line)
}

/// The entries that the text of a list holds, line by line.
pub open spec fn entries_of(contents: Seq<char>) -> Seq<Seq<char>> {
    text::lines(contents).filter_map(entry_of_line())
}

/// The entries of the lists in use: those of the community list where the flags say so, then
/// those of the custom list, each where it first stands.
pub open spec fn games_of(flags: usize, default: Seq<char>, custom: Seq<char>) -> Seq<Seq<char>> {
    if uses_default(flags) {
        seqs::first_of_each(entries_of(default) + entries_of(custom))
    } else {
        seqs::first_of_each(entries_of(custom))
    }
}

/// The entries of a text, one for each line that holds one.
fn entries_in(contents: &str) -> (r: Vec<String>)
    ensures
        text::views(r@) == entries_of(contents@),
{
    let lines = lines_of(contents);
    let ghost all = text::lines(contents@);
    let ghost f = entry_of_line();
    let mut r: Vec<String> = Vec::new();
    let mut i: usize = 0;
    assert(text::views(r@) =~= all.take(0).filter_map(f));
    while i < lines.len()
        invariant
            text::views(lines@) == all,
            f == entry_of_line(),
            i <= lines@.len(),
            text::views(r@) == all.take(i as int).filter_map(f),
        decreases lines@.len() - i,
    {
        let ghost before = text::views(r@);
        assert(all[i as int] == lines@[i as int]@);
        assert(all.take(i + 1).drop_last() =~= all.take(i as int));
        match normalize_game_name(lines[i].as_str()) {
            Some(entry) => {
                r.push(entry);
                assert(text::views(r@) =~= before + seq![entry@]);
            },
            None => {},
        }
        i = i + 1;
    }
    assert(all.take(i as int) =~= all);
    r
}

/// Puts the entries of a list behind `games`, from what reading its file gave: each that is not in
/// `seen`, where it first stands. All of them have been seen after that. A failure is handed on and
/// changes nothing.
pub fn append_game_list<E>(
    games: &mut Vec<String>,
    seen: &mut StringHashSet,
    contents: Result<String, E>,
) -> (r: Result<(), E>)
    ensures
        match contents {
            Ok(list) => {
                &&& r == Ok::<(), E>(())
                &&& text::views(final(games)@) == text::views(old(games)@) + seqs::unseen(
                    old(seen)@,
                    entries_of(list@),
                )
                &&& final(seen)@ == old(seen)@.union(entries_of(list@).to_set())
            },
            Err(e) => {
                &&& r == Err::<(), E>(e)
                &&& final(games)@ == old(games)@
                &&& final(seen)@ == old(seen)@
            },
        },
{
    let list = match contents {
        Ok(list) => list,
        Err(e) => {
            return Err(e);
        },
    };
    let entries = entries_in(list.as_str());
    let ghost start = text::views(games@);
    let ghost known = seen@;
    let ghost all = entries_of(list@);
    let mut i: usize = 0;
    assert(text::views(games@) =~= start + seqs::unseen(known, all.take(0)));
    assert(seen@ =~= known.union(all.take(0).to_set()));
    while i < entries.len()
        invariant
            text::views(entries@) == all,
            i <= entries@.len(),
            text::views(games@) == start + seqs::unseen(known, all.take(i as int)),
            seen@ == known.union(all.take(i as int).to_set()),
        decreases entries@.len() - i,
    {
        let ghost before = text::views(games@);
        let ghost head = all.take(i as int);
        let ghost next = all.take(i + 1);
        assert(all[i as int] == entries@[i as int]@);
        assert(next.drop_last() =~= head);
        let entry = entries[i].clone();
        proof {
            seqs::lemma_unseen_contains(known, head, entry@);
            assert forall|e: Seq<char>| next.contains(e) <==> head.contains(e) || e == entry@ by {
                assert(next =~= head + seq![entry@]);
                seqs::lemma_add_contains(head, seq![entry@], e);
                assert(seq![entry@][0] == entry@);
            }
        }
        if seen.insert(entries[i].clone()) {
            games.push(entry);
            assert(text::views(games@) =~= before.push(entry@));
            assert(before.push(entry@) =~= start + seqs::unseen(known, head).push(entry@));
        }
        assert(seen@ =~= known.union(next.to_set()));
        i = i + 1;
    }
    assert(all.take(i as int) =~= all);
    Ok(())
}

/// The entries of the lists in use from what reading their files gave. The community list counts
/// only where the flags put it in use; the custom list always does. The first failure is handed
/// on.
pub fn load_game_list<E>(default: Result<String, E>, custom: Result<String, E>, flags: usize) -> (r:
    Result<Vec<String>, E>)
    ensures
        uses_default(flags) && default is Err ==> r == Err::<Vec<String>, E>(default->Err_0),
        (uses_default(flags) ==> default is Ok) && custom is Err ==> r == Err::<Vec<String>, E>(
            custom->Err_0,
        ),
        (uses_default(flags) ==> default is Ok) && custom is Ok ==> r is Ok && text::views(r->Ok_0@)
            == games_of(flags, default->Ok_0@, custom->Ok_0@),
{
    let mut games: Vec<String> = Vec::new();
    let mut seen = StringHashSet::new();
    assert(text::views(games@) =~= Seq::<Seq<char>>::empty());
    let ghost a = if uses_default(flags) {
        entries_of(default->Ok_0@)
    } else {
        Seq::empty()
    };
    let ghost b = entries_of(custom->Ok_0@);
    if default_list_enabled(flags) {
        match append_game_list(&mut games, &mut seen, default) {
            Ok(_) => {},
            Err(e) => {
                return Err(e);
            },
        }
    }
    proof {
        seqs::lemma_with_new_is_unseen(Seq::empty(), Set::empty(), a);
        seqs::lemma_with_new(Seq::empty(), a);
        assert(text::views(games@) =~= seqs::first_of_each(a));
        assert(seen@ =~= a.to_set());
        seqs::lemma_with_new_is_unseen(seqs::first_of_each(a), seen@, b);
        seqs::lemma_with_new_add(Seq::empty(), a, b);
        assert(Seq::empty() + b =~= b);
    }
    match append_game_list(&mut games, &mut seen, custom) {
        Ok(_) => Ok(games),
        Err(e) => Err(e),
    }
}

/// The entries of one list from what reading its file gave.
pub fn load_list<E>(contents: Result<String, E>) -> (r: Result<Vec<String>, E>)
    ensures
        match contents {
            Ok(list) => r is Ok && text::views(r->Ok_0@) == seqs::first_of_each(entries_of(list@)),
            Err(e) => r == Err::<Vec<String>, E>(e),
        },
{
    let mut entries: Vec<String> = Vec::new();
    let mut seen = StringHashSet::new();
    proof {
        assert(text::views(entries@) =~= Seq::<Seq<char>>::empty());
        if contents is Ok {
            seqs::lemma_with_new_is_unseen(Seq::empty(), seen@, entries_of(contents->Ok_0@));
        }
    }
    match append_game_list(&mut entries, &mut seen, contents) {
        Ok(_) => Ok(entries),
        Err(e) => Err(e),
    }
}

/// The rules of the lists in use and of the exclusion list.
pub struct CachedGameLists {
    pub games: ProcessRules,
    pub exclusions: ProcessRules,
}

impl CachedGameLists {
    /// These are the rules of the entries `games` and `exclusions`.
    pub open spec fn holds(&self, games: Seq<Seq<char>>, exclusions: Seq<Seq<char>>) -> bool {
        &&& self.games.names@ == rules::rule_names(games)
        &&& self.games.paths@ == rules::rule_paths(games)
        &&& self.exclusions.names@ == rules::rule_names(exclusions)
        &&& self.exclusions.paths@ == rules::rule_paths(exclusions)
    }
}

/// What reading the files of the lists gave. The text of the community list counts only where that
/// list is in use.
pub struct ListTexts<E> {
    pub default: Result<String, E>,
    pub custom: Result<String, E>,
    pub exclusions: Result<String, E>,
}

impl<E> ListTexts<E> {
    /// The failure for which the lists cannot be loaded: that of the community list where it is in
    /// use, else that of the custom list, else that of the exclusion list.
    pub open spec fn failure(&self, flags: usize) -> Option<E> {
        if uses_default(flags) && self.default is Err {
            Some(self.default->Err_0)
        } else if self.custom is Err {
            Some(self.custom->Err_0)
        } else if self.exclusions is Err {
            Some(self.exclusions->Err_0)
        } else {
            None
        }
    }

    /// `lists` are the rules of these texts.
    pub open spec fn make(&self, flags: usize, lists: CachedGameLists) -> bool {
        lists.holds(
            games_of(flags, self.default->Ok_0@, self.custom->Ok_0@),
            seqs::first_of_each(entries_of(self.exclusions->Ok_0@)),
        )
    }
}

/// The rules of the lists from what reading their files gave. The first failure is handed on.
pub fn load_cached_game_lists<E>(texts: ListTexts<E>, flags: usize) -> (r: Result<CachedGameLists, E>)
    ensures
        match texts.failure(flags) {
            Some(e) => r == Err::<CachedGameLists, E>(e),
            None => r is Ok && texts.make(flags, r->Ok_0),
        },
{
    let games = match load_game_list(texts.default, texts.custom, flags) {
        Ok(games) => games,
        Err(e) => {
            return Err(e);
        },
    };
    let excluded = match load_list(texts.exclusions) {
        Ok(entries) => entries,
        Err(e) => {
            return Err(e);
        },
    };
    Ok(
        CachedGameLists {
            games: ProcessRules::from_entries(games),
            exclusions: ProcessRules::from_entries(excluded),
        },
    )
}

// ---------------------------------------------------------------------------
// The downloaded list
// ---------------------------------------------------------------------------
/// The least number of entries that a downloaded community list holds.
pub const MIN_DOWNLOADED_GAME_LIST_ENTRIES: usize = 25;

/// The first 512 characters of a text after its leading white space, in lower case.
pub open spec fn page_head(contents: Seq<char>) -> Seq<char> {
    let body = text::trim_start_while(contents, text::white());
    text::lower(
        if body.len() < 512 {
            body
        } else {
            body.take(512)
        },
    )
}

/// Whether a text starts like an error page.
pub open spec fn looks_like_page(contents: Seq<char>) -> bool {
    ||| text::starts_with(page_head(contents), "404:"@)
    ||| text::starts_with(page_head(contents), "<!doctype"@)
    ||| text::contains_text(page_head(contents), "<html"@)
}

/// Whether a downloaded text is taken for a community list.
pub open spec fn is_game_list(contents: Seq<char>) -> bool {
    !looks_like_page(contents) && entries_of(contents).len() >= MIN_DOWNLOADED_GAME_LIST_ENTRIES
}

/// Whether a downloaded text is taken for a community list.
pub fn valid_default_game_list_download(contents: &str) -> (r: bool)
    ensures
        r == is_game_list(contents@),
{
    let all = chars_of(contents);
    let body = trim_white_start(all.as_slice());
    let start = if body.len() < 512 {
        body
    } else {
        vstd::slice::slice_subrange(body, 0, 512)
    };
    assert(body@.len() >= 512 ==> start@ =~= body@.take(512));
    let head = lower_chars(start);
    let not_found = chars_of("404:");
    let doctype = chars_of("<!doctype");
    let html = chars_of("<html");
    if has_prefix(head.as_slice(), not_found.as_slice()) || has_prefix(
        head.as_slice(),
        doctype.as_slice(),
    ) || has_text(head.as_slice(), html.as_slice()) {
        return false;
    }
    let entries = entries_in(contents);
    assert(text::views(entries@).len() == entries@.len());
    entries.len() >= MIN_DOWNLOADED_GAME_LIST_ENTRIES
}

// ---------------------------------------------------------------------------
// Laws
// ---------------------------------------------------------------------------
/// A loaded list holds each entry once, and holds exactly the entries of the lists in use: those
/// of the custom list always, those of the community list where the flags say so.
pub proof fn loaded_entries_are_those_of_the_lists_in_use(
    flags: usize,
    default: Seq<char>,
    custom: Seq<char>,
)
    ensures
        games_of(flags, default, custom).no_duplicates(),
        forall|e: Seq<char>|
            #![trigger games_of(flags, default, custom).contains(e)]
            games_of(flags, default, custom).contains(e) <==> entries_of(custom).contains(e)
                || uses_default(flags) && entries_of(default).contains(e),
{
    let a = entries_of(default);
    let b = entries_of(custom);
    seqs::lemma_with_new(Seq::empty(), a + b);
    seqs::lemma_with_new(Seq::empty(), b);
    assert forall|e: Seq<char>| (a + b).contains(e) <==> a.contains(e) || b.contains(e) by {
        seqs::lemma_add_contains(a, b, e);
    }
}

/// The entries of the community list, where it is in use, stand first and in the order of that
/// list.
pub proof fn community_entries_stand_first(default: Seq<char>, custom: Seq<char>, flags: usize)
    requires
        uses_default(flags),
    ensures
        seqs::first_of_each(entries_of(default)).len() <= games_of(flags, default, custom).len(),
        games_of(flags, default, custom).take(seqs::first_of_each(entries_of(default)).len() as int)
            == seqs::first_of_each(entries_of(default)),
{
    let a = entries_of(default);
    let b = entries_of(custom);
    seqs::lemma_with_new_add(Seq::empty(), a, b);
    seqs::lemma_with_new(Seq::empty(), a);
    seqs::lemma_with_new(seqs::first_of_each(a), b);
}

/// Flags that have been cleaned hold no unknown flag and always the custom list; cleaning them
/// again changes nothing, and keeps whether the community list is in use.
pub proof fn sanitized_flags_are_stable(flags: usize)
    ensures
        sanitized(flags) & ALL_GAME_LIST_FLAGS == sanitized(flags),
        sanitized(flags) & GAME_LIST_CUSTOM_FLAG != 0,
        sanitized(sanitized(flags)) == sanitized(flags),
        uses_default(sanitized(flags)) == uses_default(flags),
{
    assert(3usize & 3 == 3 && 2usize & 3 == 2 && 3usize & 2 != 0 && 2usize & 2 != 0 && 3usize & 1 != 0
        && 2usize & 1 == 0) by (bit_vector);
}

/// Switching the community list changes whether it is in use, and switching it twice gives the
/// flags back.
pub proof fn switching_twice_changes_nothing(flags: usize)
    ensures
        uses_default(sanitized(flags ^ GAME_LIST_DEFAULT_FLAG)) == !uses_default(flags),
        sanitized(sanitized(flags ^ GAME_LIST_DEFAULT_FLAG) ^ GAME_LIST_DEFAULT_FLAG) == sanitized(
            flags,
        ),
{
    assert((flags ^ 1) & 1 != 0 <==> flags & 1 == 0) by (bit_vector);
    sanitized_flags_are_stable(flags ^ GAME_LIST_DEFAULT_FLAG);
    let once = sanitized(flags ^ GAME_LIST_DEFAULT_FLAG);
    assert((once ^ 1) & 1 != 0 <==> once & 1 == 0) by (bit_vector);
}

/// A process matches the loaded lists exactly where an entry of a list in use matches it by itself:
/// an entry of the custom list whatever the flags are, an entry of the community list where the
/// flags put it in use.
pub proof fn games_are_those_of_the_lists_in_use(
    lists: CachedGameLists,
    flags: usize,
    default: Seq<char>,
    custom: Seq<char>,
    exclusions: Seq<Seq<char>>,
    exe: Seq<char>,
    path: Option<Seq<char>>,
)
    requires
        lists.holds(games_of(flags, default, custom), exclusions),
    ensures
        lists.games.matches(exe, path) <==> exists|e: Seq<char>| #[trigger]
            rule_laws::entry_matches(e, exe, path) && (entries_of(custom).contains(e)
                || uses_default(flags) && entries_of(default).contains(e)),
{
    let games = games_of(flags, default, custom);
    loaded_entries_are_those_of_the_lists_in_use(flags, default, custom);
    rule_laws::a_list_matches_where_an_entry_does(games, exe, path);
    if lists.games.matches(exe, path) {
        let i = choose|i: int|
            0 <= i < games.len() && rule_laws::entry_matches(#[trigger] games[i], exe, path);
        assert(games.contains(games[i]));
    }
    if exists|e: Seq<char>| #[trigger]
        rule_laws::entry_matches(e, exe, path) && (entries_of(custom).contains(e) || uses_default(
            flags,
        ) && entries_of(default).contains(e)) {
        let e = choose|e: Seq<char>| #[trigger]
            rule_laws::entry_matches(e, exe, path) && (entries_of(custom).contains(e)
                || uses_default(flags) && entries_of(default).contains(e));
        assert(games.contains(e));
        let i = choose|i: int| 0 <= i < games.len() && games[i] == e;
        assert(rule_laws::entry_matches(games[i], exe, path));
    }
}

} // verus!
