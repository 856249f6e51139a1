//! What holds of the texts of lists and of the rules loaded from them.

use vstd::prelude::*;

use crate::list_files;
use crate::list_files::{GameList, ListPresence, NewListFile};
use crate::lists;
use crate::lists::{CachedGameLists, ListTexts};
use crate::rule_laws;
use crate::rules;
use crate::seqs;
use crate::text;
use crate::text_laws;

verus! {

// ---------------------------------------------------------------------------
// Flags
// ---------------------------------------------------------------------------
/// The community list is in use exactly where the lowest bit of the flags is set; the flags that are
/// active are in use, and before there are any, both lists are.
pub proof fn the_lowest_bit_puts_the_community_list_in_use(flags: usize)
    ensures
        lists::uses_default(flags) <==> flags % 2 == 1,
        lists::sanitized(flags) == 2 + flags % 2,
        lists::flags_in_use(Some(flags)) == flags,
        lists::flags_in_use(None) == 3,
{
    assert(flags & 1 == flags % 2) by (bit_vector);
}

// ---------------------------------------------------------------------------
// Entries
// ---------------------------------------------------------------------------
/// Filtering and mapping goes part by part.
proof fn lemma_filter_map_add(
    a: Seq<Seq<char>>,
    b: Seq<Seq<char>>,
    f: spec_fn(Seq<char>) -> Option<Seq<char>>,
)
    ensures
        (a + b).filter_map(f) == a.filter_map(f) + b.filter_map(f),
    decreases b.len(),
{
    if b.len() == 0 {
        assert(a + b =~= a);
        assert(a.filter_map(f) + b.filter_map(f) =~= a.filter_map(f));
    } else {
        assert((a + b).drop_last() =~= a + b.drop_last());
        assert((a + b).last() == b.last());
        lemma_filter_map_add(a, b.drop_last(), f);
        assert((a + b).filter_map(f) =~= a.filter_map(f) + b.filter_map(f));
    }
}

/// The entries that one line gives: one where it stands for one, else none.
pub open spec fn of_one_line(line: Seq<char>) -> Seq<Seq<char>> {
    match rules::list_entry(line) {
        Some(entry) => seq![entry],
        None => Seq::empty(),
    }
}

proof fn lemma_filter_map_one(line: Seq<char>)
    ensures
        seq![line].filter_map(lists::entry_of_line()) == of_one_line(line),
{
    let f = lists::entry_of_line();
    reveal_with_fuel(Seq::filter_map, 2);
    assert(seq![line].drop_last() =~= Seq::<Seq<char>>::empty());
    assert(seq![line].filter_map(f) =~= of_one_line(line));
}

/// A text gives the entries of its lines, line by line: first that of the first line, where it stands
/// for one, then those of the rest. A last line need not be closed.
pub proof fn entries_come_line_by_line(line: Seq<char>, rest: Seq<char>)
    requires
        !line.contains('\n'),
        line.len() > 0 ==> line.last() != '\r',
    ensures
        lists::entries_of(line + seq!['\n'] + rest) == of_one_line(line) + lists::entries_of(rest),
        lists::entries_of(line + seq!['\r', '\n'] + rest) == of_one_line(line) + lists::entries_of(rest),
        line.len() > 0 ==> lists::entries_of(line) == of_one_line(line),
        lists::entries_of(Seq::empty()) == Seq::<Seq<char>>::empty(),
{
    let f = lists::entry_of_line();
    text_laws::lines_end_at_line_feeds(line, rest);
    lemma_filter_map_add(seq![line], text::lines(rest), f);
    lemma_filter_map_one(line);
    reveal_with_fuel(Seq::filter_map, 2);
}

/// Texts one after the other give their entries one after the other, where the first one ends with a
/// line feed.
pub proof fn entries_go_on_after_a_line_feed(head: Seq<char>, rest: Seq<char>)
    requires
        head.len() == 0 || head.last() == '\n',
    ensures
        lists::entries_of(head + rest) == lists::entries_of(head) + lists::entries_of(rest),
{
    text_laws::lines_go_on_after_a_line_feed(head, rest);
    lemma_filter_map_add(text::lines(head), text::lines(rest), lists::entry_of_line());
}

/// A comment or a blank line anywhere in a list changes nothing of its entries.
pub proof fn comments_and_blank_lines_change_nothing(
    head: Seq<char>,
    line: Seq<char>,
    rest: Seq<char>,
)
    requires
        head.len() == 0 || head.last() == '\n',
        !line.contains('\n'),
        line.len() > 0 ==> line.last() != '\r',
        rules::cleaned(line).len() == 0 || rules::cleaned(line)[0] == '#',
    ensures
        lists::entries_of(head + (line + seq!['\n'] + rest)) == lists::entries_of(head + rest),
{
    rule_laws::blank_lines_and_comments_stand_for_nothing(line);
    entries_come_line_by_line(line, rest);
    entries_go_on_after_a_line_feed(head, line + seq!['\n'] + rest);
    entries_go_on_after_a_line_feed(head, rest);
    assert(of_one_line(line) + lists::entries_of(rest) =~= lists::entries_of(rest));
}

/// Loaded entries stand in the order in which they first stand in the lists in use, the community
/// list before the custom one.
pub proof fn loaded_entries_keep_their_order(
    flags: usize,
    default: Seq<char>,
    custom: Seq<char>,
    i: int,
    j: int,
)
    requires
        0 <= i < j < lists::games_of(flags, default, custom).len(),
    ensures
        seqs::stands_before(
            if flags % 2 == 1 {
                lists::entries_of(default) + lists::entries_of(custom)
            } else {
                lists::entries_of(custom)
            },
            lists::games_of(flags, default, custom)[i],
            lists::games_of(flags, default, custom)[j],
        ),
{
    the_lowest_bit_puts_the_community_list_in_use(flags);
    seqs::first_occurrences_keep_their_order(lists::entries_of(default) + lists::entries_of(custom));
    seqs::first_occurrences_keep_their_order(lists::entries_of(custom));
}

// ---------------------------------------------------------------------------
// Loading
// ---------------------------------------------------------------------------
/// The lists can be loaded exactly where the custom list, the exclusion list and, where it is in use,
/// the community list were read. Else the failure is that of the first of them in the order
/// community, custom, exclusions.
pub proof fn lists_load_where_those_in_use_were_read<E>(texts: ListTexts<E>, flags: usize)
    ensures
        texts.failure(flags) is None <==> texts.custom is Ok && texts.exclusions is Ok && (flags % 2
            == 1 ==> texts.default is Ok),
        flags % 2 == 1 && texts.default is Err ==> texts.failure(flags) == Some(texts.default->Err_0),
        (flags % 2 == 1 ==> texts.default is Ok) && texts.custom is Err ==> texts.failure(flags)
            == Some(texts.custom->Err_0),
        (flags % 2 == 1 ==> texts.default is Ok) && texts.custom is Ok && texts.exclusions is Err
            ==> texts.failure(flags) == Some(texts.exclusions->Err_0),
{
    the_lowest_bit_puts_the_community_list_in_use(flags);
}

/// A process matches the loaded games exactly where an entry of the custom list matches it, or one of
/// the community list while that is in use; it matches the loaded exclusions exactly where an entry
/// of the exclusion list does.
pub proof fn loaded_rules_are_those_of_the_texts<E>(
    texts: ListTexts<E>,
    flags: usize,
    lists: CachedGameLists,
    exe: Seq<char>,
    path: Option<Seq<char>>,
)
    requires
        texts.make(flags, lists),
    ensures
        lists.games.matches(exe, path) <==> exists|e: Seq<char>| #[trigger]
            rule_laws::entry_matches(e, exe, path) && (lists::entries_of(texts.custom->Ok_0@).contains(
                e,
            ) || flags % 2 == 1 && lists::entries_of(texts.default->Ok_0@).contains(e)),
        lists.exclusions.matches(exe, path) <==> exists|e: Seq<char>| #[trigger]
            rule_laws::entry_matches(e, exe, path) && lists::entries_of(
                texts.exclusions->Ok_0@,
            ).contains(e),
{
    the_lowest_bit_puts_the_community_list_in_use(flags);
    let excluded = seqs::first_of_each(lists::entries_of(texts.exclusions->Ok_0@));
    lists::games_are_those_of_the_lists_in_use(
        lists,
        flags,
        texts.default->Ok_0@,
        texts.custom->Ok_0@,
        excluded,
        exe,
        path,
    );
    seqs::first_occurrences_keep_their_order(lists::entries_of(texts.exclusions->Ok_0@));
    rule_laws::a_list_matches_where_an_entry_does(excluded, exe, path);
    if lists.exclusions.matches(exe, path) {
        let i = choose|i: int|
            0 <= i < excluded.len() && rule_laws::entry_matches(#[trigger] excluded[i], exe, path);
        assert(excluded.contains(excluded[i]));
    }
    if exists|e: Seq<char>| #[trigger]
        rule_laws::entry_matches(e, exe, path) && lists::entries_of(texts.exclusions->Ok_0@).contains(
            e,
        ) {
        let e = choose|e: Seq<char>| #[trigger]
            rule_laws::entry_matches(e, exe, path) && lists::entries_of(
                texts.exclusions->Ok_0@,
            ).contains(e);
        assert(excluded.contains(e));
        let i = choose|i: int| 0 <= i < excluded.len() && excluded[i] == e;
        assert(rule_laws::entry_matches(excluded[i], exe, path));
    }
}

// ---------------------------------------------------------------------------
// The downloaded list
// ---------------------------------------------------------------------------
/// A download is taken for a list exactly where it has 25 entries or more, does not start with `404:`
/// or `<!doctype`, and has no `<html` within its first 512 characters, in any case and behind any
/// white space.
pub proof fn a_download_is_a_list_unless_it_is_short_or_a_page(blank: Seq<char>, body: Seq<char>)
    requires
        forall|i: int| 0 <= i < blank.len() ==> text::is_white_space(#[trigger] blank[i]),
        body.len() > 0 ==> !text::is_white_space(body[0]),
    ensures
        lists::is_game_list(blank + body) <==> {
            &&& lists::entries_of(blank + body).len() >= 25
            &&& !(body.len() >= 4 && text::lower(body.take(4)) == "404:"@)
            &&& !(body.len() >= 9 && text::lower(body.take(9)) == "<!doctype"@)
            &&& !(exists|i: int|
                0 <= i && i + 5 <= body.len() && i + 5 <= 512 && text::lower(
                    #[trigger] body.subrange(i, i + 5),
                ) == "<html"@)
        },
{
    reveal_strlit("404:");
    reveal_strlit("<!doctype");
    reveal_strlit("<html");
    let white = text::white();
    let s = blank + body;
    assert forall|i: int| 0 <= i < blank.len() implies white(#[trigger] s[i]) by {
        assert(s[i] == blank[i]);
    }
    assert(body.len() > 0 ==> s[blank.len() as int] == body[0]);
    text::lemma_span_is(s, white, blank.len());
    assert(text::trim_start_while(s, white) =~= body);
    let head = lists::page_head(s);
    let kept = if body.len() < 512 {
        body
    } else {
        body.take(512)
    };
    assert(head == text::lower(kept));
    if body.len() >= 4 {
        assert(head.take(4) =~= text::lower(body.take(4)));
    }
    if body.len() >= 9 {
        assert(head.take(9) =~= text::lower(body.take(9)));
    }
    assert forall|i: int| 0 <= i && i + 5 <= head.len() implies #[trigger] head.subrange(i, i + 5)
        == text::lower(body.subrange(i, i + 5)) by {
        assert(head.subrange(i, i + 5) =~= text::lower(body.subrange(i, i + 5)));
    }
    if text::contains_text(head, "<html"@) {
        let i = choose|i: int| text::stands_at(head, "<html"@, i);
        assert(head.subrange(i, i + 5) == "<html"@);
        assert(text::lower(body.subrange(i, i + 5)) == "<html"@);
    }
    if exists|i: int|
        0 <= i && i + 5 <= body.len() && i + 5 <= 512 && text::lower(
            #[trigger] body.subrange(i, i + 5),
        ) == "<html"@ {
        let i = choose|i: int|
            0 <= i && i + 5 <= body.len() && i + 5 <= 512 && text::lower(
                #[trigger] body.subrange(i, i + 5),
            ) == "<html"@;
        assert(head.subrange(i, i + 5) == "<html"@);
        assert(text::stands_at(head, "<html"@, i));
    }
}

// ---------------------------------------------------------------------------
// New files
// ---------------------------------------------------------------------------
/// A file is made exactly for each list that is not there, community, custom and exclusions in this
/// order.
pub proof fn files_are_made_for_lists_that_are_missing(present: ListPresence)
    ensures
        list_files::missing_lists(present) == (if present.default {
            Seq::<GameList>::empty()
        } else {
            seq![GameList::Default]
        }) + (if present.custom {
            Seq::<GameList>::empty()
        } else {
            seq![GameList::Custom]
        }) + (if present.exclusions {
            Seq::<GameList>::empty()
        } else {
            seq![GameList::Exclusions]
        }),
{
    let all = seq![GameList::Default, GameList::Custom, GameList::Exclusions];
    reveal_with_fuel(Seq::filter, 4);
    assert(all.drop_last() =~= seq![GameList::Default, GameList::Custom]);
    assert(all.drop_last().drop_last() =~= seq![GameList::Default]);
    assert(all.drop_last().drop_last().drop_last() =~= Seq::<GameList>::empty());
}

/// A new custom list and a new exclusion list are empty, and a file is made for one list alone.
pub proof fn new_lists_of_the_user_are_empty(file: NewListFile, list: GameList, other: GameList)
    requires
        list_files::is_new_file_for(file, list),
    ensures
        list != GameList::Default ==> file.contents@.len() == 0,
        list == GameList::Default ==> file.contents@ == list_files::DEFAULT_LIST_TEXT@,
        list_files::is_new_file_for(file, other) ==> other == list,
{
    reveal_strlit("");
}

} // verus!
