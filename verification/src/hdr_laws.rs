//! What holds of switching HDR over several calls.

use vstd::prelude::*;

use crate::hdr;
use crate::hdr::{DisplayPathQuery, DisplayTarget, HdrTargetState, TargetChange};
use crate::monitor;
use crate::monitor::{GameMonitor, MonitorAction, ScanRound};
use crate::seqs;

verus! {

// ---------------------------------------------------------------------------
// Listing the displays
// ---------------------------------------------------------------------------
/// No display is listed twice.
pub open spec fn distinct(targets: Seq<HdrTargetState>) -> bool {
    forall|i: int, j: int|
        0 <= i < j < targets.len() ==> (#[trigger] targets[i]).target != (
        #[trigger] targets[j]).target
}

proof fn lemma_supported_targets<E>(
    targets: Seq<DisplayTarget>,
    answers: Seq<Result<Option<bool>, E>>,
)
    requires
        targets.no_duplicates(),
        answers.len() <= targets.len(),
    ensures
        distinct(hdr::supported_targets(targets, answers)),
        forall|i: int|
            0 <= i < hdr::supported_targets(targets, answers).len() ==> exists|j: int|
                0 <= j < answers.len() && answers[j] == Ok::<Option<bool>, E>(
                    Some(hdr::supported_targets(targets, answers)[i].enabled),
                ) && #[trigger] targets[j] == (#[trigger] hdr::supported_targets(targets, answers)[i]).target,
    decreases answers.len(),
{
    if answers.len() > 0 {
        let rest = answers.drop_last();
        lemma_supported_targets(targets, rest);
        let before = hdr::supported_targets(targets, rest);
        let all = hdr::supported_targets(targets, answers);
        let n = answers.len() - 1;
        assert forall|i: int| 0 <= i < all.len() implies exists|j: int|
            0 <= j < answers.len() && answers[j] == Ok::<Option<bool>, E>(Some(all[i].enabled))
                && #[trigger] targets[j] == (#[trigger] all[i]).target by {
            if i < before.len() {
                let j = choose|j: int|
                    0 <= j < rest.len() && rest[j] == Ok::<Option<bool>, E>(Some(before[i].enabled))
                        && #[trigger] targets[j] == before[i].target;
                assert(all[i] == before[i]);
                assert(answers[j] == rest[j]);
                assert(targets[j] == all[i].target);
            } else {
                assert(targets[n] == all[i].target);
            }
        }
        assert forall|i: int, j: int| 0 <= i < j < all.len() implies (#[trigger] all[i]).target != (
        #[trigger] all[j]).target by {
            assert(all[i] == before[i]);
            if j < before.len() {
                assert(all[j] == before[j]);
            } else {
                let k = choose|k: int|
                    0 <= k < rest.len() && rest[k] == Ok::<Option<bool>, E>(Some(before[i].enabled))
                        && #[trigger] targets[k] == before[i].target;
                assert(targets[k] != targets[n]);
            }
        }
    }
}

/// Whatever the display paths are, each display is listed once, and only a display that some
/// path leads to.
pub proof fn displays_are_listed_once<E>(
    paths: Seq<DisplayTarget>,
    answers: Seq<Result<Option<bool>, E>>,
)
    requires
        hdr::asked(seqs::first_of_each(paths), answers),
    ensures
        distinct(hdr::supported_targets(seqs::first_of_each(paths), answers)),
        forall|i: int|
            0 <= i < hdr::supported_targets(seqs::first_of_each(paths), answers).len()
                ==> paths.contains(
                (#[trigger] hdr::supported_targets(seqs::first_of_each(paths), answers)[i]).target,
            ),
{
    let targets = seqs::first_of_each(paths);
    seqs::lemma_with_new(Seq::empty(), paths);
    if answers.len() > 0 {
        assert(hdr::next_target(targets, answers.take(answers.len() - 1)) is Some);
    }
    lemma_supported_targets(targets, answers);
    let all = hdr::supported_targets(targets, answers);
    assert forall|i: int| 0 <= i < all.len() implies paths.contains((#[trigger] all[i]).target) by {
        let j = choose|j: int|
            0 <= j < answers.len() && answers[j] == Ok::<Option<bool>, E>(Some(all[i].enabled))
                && #[trigger] targets[j] == all[i].target;
        assert(targets.contains(targets[j]));
    }
}

/// Where the asking for the active display paths stands after calls that gave `replies`: the
/// status and the number of paths.
pub open spec fn display_paths_run(start: DisplayPathQuery, replies: Seq<(i32, u32)>) -> DisplayPathQuery
    decreases replies.len(),
{
    if replies.len() == 0 {
        start
    } else {
        hdr::display_paths_after(
            display_paths_run(start, replies.drop_last()),
            replies.last().0,
            replies.last().1,
        )
    }
}

/// Asking for the active display paths ends after three attempts of two calls at most, and where
/// it fails it fails with a code that is none of success.
pub proof fn asking_for_displays_ends(replies: Seq<(i32, u32)>)
    ensures
        replies.len() >= 6 ==> match display_paths_run(DisplayPathQuery::Sizes { tried: 0 }, replies) {
            DisplayPathQuery::Done { count } => true,
            DisplayPathQuery::Failed { code } => true,
            _ => false,
        },
        match display_paths_run(DisplayPathQuery::Sizes { tried: 0 }, replies) {
            DisplayPathQuery::Sizes { tried } => replies.len() == 2 * tried && tried < 3,
            DisplayPathQuery::Paths { tried } => replies.len() == 2 * tried + 1 && tried < 3,
            DisplayPathQuery::Done { count } => true,
            DisplayPathQuery::Failed { code } => code != 0,
        },
    decreases replies.len(),
{
    if replies.len() > 0 {
        asking_for_displays_ends(replies.drop_last());
    }
}

// ---------------------------------------------------------------------------
// Switching the displays
// ---------------------------------------------------------------------------
/// The state of the displays after changes, each of which was made where its result says so.
pub open spec fn after_changes<E>(
    displays: Map<DisplayTarget, bool>,
    changes: Seq<TargetChange>,
    results: Seq<Result<(), E>>,
) -> Map<DisplayTarget, bool>
    decreases changes.len(),
{
    if changes.len() == 0 {
        displays
    } else {
        let before = after_changes(displays, changes.drop_last(), results.drop_last());
        if results.last() is Ok {
            before.insert(changes.last().target, changes.last().enabled)
        } else {
            before
        }
    }
}

/// The list says of each of its displays what holds of it.
pub open spec fn describes(targets: Seq<HdrTargetState>, displays: Map<DisplayTarget, bool>) -> bool {
    forall|i: int|
        0 <= i < targets.len() ==> displays.dom().contains((#[trigger] targets[i]).target)
            && displays[targets[i].target] == targets[i].enabled
}

/// Whether a display is listed.
pub open spec fn listed(targets: Seq<HdrTargetState>, target: DisplayTarget) -> bool {
    exists|i: int| 0 <= i < targets.len() && (#[trigger] targets[i]).target == target
}

/// Changes to a common state touch listed displays only, and bring each display that they touch
/// to that state.
proof fn lemma_changes_to<E>(
    displays: Map<DisplayTarget, bool>,
    targets: Seq<HdrTargetState>,
    enabled: bool,
    results: Seq<Result<(), E>>,
)
    requires
        describes(targets, displays),
        results.len() == hdr::changes_to(targets, enabled).len(),
    ensures
        ({
            let after = after_changes(displays, hdr::changes_to(targets, enabled), results);
            &&& after.dom() == displays.dom()
            &&& forall|t: DisplayTarget|
                #![trigger after[t]]
                after[t] == displays[t] || listed(targets, t) && after[t] == enabled
            &&& (forall|i: int| 0 <= i < results.len() ==> #[trigger] results[i] is Ok)
                ==> forall|i: int|
                0 <= i < targets.len() ==> after[(#[trigger] targets[i]).target] == enabled
            &&& !hdr::any_changed(results) ==> after == displays
        }),
    decreases targets.len(),
{
    if targets.len() > 0 {
        let rest = targets.drop_last();
        let last = targets.last();
        assert(targets[targets.len() - 1] == last);
        assert forall|i: int| 0 <= i < rest.len() implies displays.dom().contains(
            (#[trigger] rest[i]).target,
        ) && displays[rest[i].target] == rest[i].enabled by {
            assert(rest[i] == targets[i]);
        }
        let changes = hdr::changes_to(targets, enabled);
        let before = hdr::changes_to(rest, enabled);
        let after = after_changes(displays, changes, results);
        assert forall|t: DisplayTarget| listed(rest, t) implies listed(targets, t) by {
            let i = choose|i: int| 0 <= i < rest.len() && (#[trigger] rest[i]).target == t;
            assert(targets[i].target == t);
        }
        if last.enabled != enabled {
            let earlier = results.drop_last();
            assert(changes.drop_last() =~= before);
            lemma_changes_to(displays, rest, enabled, earlier);
            let mid = after_changes(displays, before, earlier);
            assert(after.dom() =~= displays.dom());
            assert forall|t: DisplayTarget| #![trigger after[t]]
                after[t] == displays[t] || listed(targets, t) && after[t] == enabled by {
                assert(mid[t] == displays[t] || listed(rest, t) && mid[t] == enabled);
                assert(listed(targets, last.target));
            }
            if forall|i: int| 0 <= i < results.len() ==> #[trigger] results[i] is Ok {
                assert forall|i: int| 0 <= i < earlier.len() implies #[trigger] earlier[i] is Ok by {
                    assert(results[i] is Ok);
                }
                assert(results[results.len() - 1] is Ok);
                assert forall|i: int| 0 <= i < targets.len() implies after[(
                #[trigger] targets[i]).target] == enabled by {
                    if i < rest.len() {
                        assert(mid[rest[i].target] == enabled);
                        assert(rest[i] == targets[i]);
                    }
                }
            }
            if !hdr::any_changed(results) {
                assert(!(results[results.len() - 1] is Ok));
                if hdr::any_changed(earlier) {
                    let i = choose|i: int| 0 <= i < earlier.len() && #[trigger] earlier[i] is Ok;
                    assert(results[i] is Ok);
                }
            }
        } else {
            lemma_changes_to(displays, rest, enabled, results);
            assert(displays[last.target] == enabled);
            if forall|i: int| 0 <= i < results.len() ==> #[trigger] results[i] is Ok {
                assert forall|i: int| 0 <= i < targets.len() implies after[(
                #[trigger] targets[i]).target] == enabled by {
                    if i < rest.len() {
                        assert(after[rest[i].target] == enabled);
                        assert(rest[i] == targets[i]);
                    } else {
                        assert(after[last.target] == displays[last.target] || after[last.target]
                            == enabled);
                    }
                }
            }
        }
    }
}

/// Changes back that are all made bring each listed display to the state it is listed with, and
/// leave every other display alone.
proof fn lemma_changes_back<E>(
    displays: Map<DisplayTarget, bool>,
    targets: Seq<HdrTargetState>,
    results: Seq<Result<(), E>>,
)
    requires
        distinct(targets),
        results.len() == targets.len(),
        forall|i: int| 0 <= i < results.len() ==> #[trigger] results[i] is Ok,
    ensures
        ({
            let after = after_changes(displays, hdr::changes_back(targets), results);
            &&& forall|t: DisplayTarget|
                #![trigger after.dom().contains(t)]
                after.dom().contains(t) <==> displays.dom().contains(t) || listed(targets, t)
            &&& forall|i: int|
                0 <= i < targets.len() ==> after[(#[trigger] targets[i]).target]
                    == targets[i].enabled
            &&& forall|t: DisplayTarget|
                #![trigger after[t]]
                !listed(targets, t) ==> after[t] == displays[t]
        }),
    decreases targets.len(),
{
    let changes = hdr::changes_back(targets);
    if targets.len() > 0 {
        let rest = targets.drop_last();
        let last = targets.last();
        let earlier = results.drop_last();
        assert(targets[targets.len() - 1] == last);
        assert(changes.drop_last() =~= hdr::changes_back(rest));
        assert forall|i: int, j: int| 0 <= i < j < rest.len() implies (#[trigger] rest[i]).target != (
        #[trigger] rest[j]).target by {
            assert(targets[i].target != targets[j].target);
        }
        assert forall|i: int| 0 <= i < earlier.len() implies #[trigger] earlier[i] is Ok by {
            assert(results[i] is Ok);
        }
        assert(results[results.len() - 1] is Ok);
        lemma_changes_back(displays, rest, earlier);
        let mid = after_changes(displays, hdr::changes_back(rest), earlier);
        let after = after_changes(displays, changes, results);
        assert(after == mid.insert(last.target, last.enabled));
        assert forall|t: DisplayTarget| listed(targets, t) <==> listed(rest, t) || t == last.target by {
            if listed(rest, t) {
                let i = choose|i: int| 0 <= i < rest.len() && (#[trigger] rest[i]).target == t;
                assert(targets[i].target == t);
            }
            if listed(targets, t) {
                let i = choose|i: int| 0 <= i < targets.len() && (#[trigger] targets[i]).target == t;
                if i < rest.len() {
                    assert(rest[i].target == t);
                }
            }
        }
        assert forall|t: DisplayTarget| #![trigger after.dom().contains(t)] after.dom().contains(t) <==> displays.dom().contains(
            t,
        ) || listed(targets, t) by {
            assert(mid.dom().contains(t) <==> displays.dom().contains(t) || listed(rest, t));
        }
        assert forall|t: DisplayTarget| #![trigger after[t]] !listed(targets, t) implies after[t]
            == displays[t] by {
            assert(mid[t] == displays[t]);
        }
        assert forall|i: int| 0 <= i < targets.len() implies after[(#[trigger] targets[i]).target]
            == targets[i].enabled by {
            if i < rest.len() {
                assert(rest[i] == targets[i]);
                assert(targets[i].target != targets[targets.len() - 1].target);
                assert(mid[rest[i].target] == rest[i].enabled);
            }
        }
    }
}

/// Switching HDR, where all changes are made, turns it off on every listed display where it was
/// on on some of them, and on on every one where it was off on all. It leaves every other display
/// alone.
pub proof fn switching_makes_all_displays_alike<E>(
    displays: Map<DisplayTarget, bool>,
    targets: Seq<HdrTargetState>,
    results: Seq<Result<(), E>>,
)
    requires
        describes(targets, displays),
        results.len() == hdr::changes_to(targets, !hdr::any_enabled(targets)).len(),
        seqs::first_error(results) is None,
    ensures
        ({
            let after = after_changes(
                displays,
                hdr::changes_to(targets, !hdr::any_enabled(targets)),
                results,
            );
            &&& forall|i: int|
                0 <= i < targets.len() ==> after[(#[trigger] targets[i]).target]
                    == !hdr::any_enabled(targets)
            &&& forall|t: DisplayTarget|
                #![trigger after[t]]
                !listed(targets, t) ==> after[t] == displays[t]
            &&& after.dom() == displays.dom()
        }),
{
    seqs::lemma_first_error(results);
    lemma_changes_to(displays, targets, !hdr::any_enabled(targets), results);
}

/// Turning HDR on for a game, where all changes are made, turns it on on every listed display.
pub proof fn a_game_gets_hdr_everywhere<E>(
    displays: Map<DisplayTarget, bool>,
    snapshot: Seq<HdrTargetState>,
    results: Seq<Result<(), E>>,
)
    requires
        describes(snapshot, displays),
        results.len() == hdr::changes_to(snapshot, true).len(),
        seqs::first_error(results) is None,
    ensures
        forall|i: int|
            0 <= i < snapshot.len() ==> after_changes(
                displays,
                hdr::changes_to(snapshot, true),
                results,
            )[(#[trigger] snapshot[i]).target],
{
    seqs::lemma_first_error(results);
    lemma_changes_to(displays, snapshot, true, results);
}

/// What turning HDR on for a game changed is undone by restoring the snapshot: afterwards every
/// display is as it was, whichever of the changes had been made, and whatever had become of the
/// listed displays in between. Where no change had been made, and no snapshot is kept, the
/// displays were left as they were.
pub proof fn restoring_undoes_what_a_game_changed<E>(
    displays: Map<DisplayTarget, bool>,
    snapshot: Seq<HdrTargetState>,
    enabling: Seq<Result<(), E>>,
    meanwhile: Map<DisplayTarget, bool>,
    restoring: Seq<Result<(), E>>,
)
    requires
        describes(snapshot, displays),
        distinct(snapshot),
        enabling.len() == hdr::changes_to(snapshot, true).len(),
        restoring.len() == snapshot.len(),
        seqs::first_error(restoring) is None,
        meanwhile.dom() == displays.dom(),
        forall|t: DisplayTarget|
            #![trigger meanwhile[t]]
            !listed(snapshot, t) ==> meanwhile[t] == after_changes(
                displays,
                hdr::changes_to(snapshot, true),
                enabling,
            )[t],
    ensures
        after_changes(meanwhile, hdr::changes_back(snapshot), restoring) == displays,
        !hdr::any_changed(enabling) ==> after_changes(
            displays,
            hdr::changes_to(snapshot, true),
            enabling,
        ) == displays,
{
    lemma_changes_to(displays, snapshot, true, enabling);
    seqs::lemma_first_error(restoring);
    lemma_changes_back(meanwhile, snapshot, restoring);
    let on = after_changes(displays, hdr::changes_to(snapshot, true), enabling);
    let after = after_changes(meanwhile, hdr::changes_back(snapshot), restoring);
    assert forall|t: DisplayTarget| #![trigger after.dom().contains(t)] after.dom().contains(t)
        == displays.dom().contains(t) by {
        if listed(snapshot, t) {
            let i = choose|i: int| 0 <= i < snapshot.len() && (#[trigger] snapshot[i]).target == t;
            assert(displays.dom().contains(snapshot[i].target));
        }
    }
    assert forall|t: DisplayTarget| after[t] == displays[t] by {
        if listed(snapshot, t) {
            let i = choose|i: int| 0 <= i < snapshot.len() && (#[trigger] snapshot[i]).target == t;
            assert(after[snapshot[i].target] == snapshot[i].enabled);
        } else {
            assert(after[t] == meanwhile[t]);
            assert(on[t] == displays[t] || listed(snapshot, t) && on[t] == true);
        }
    }
    assert(after =~= displays);
}

/// From the scan that finds a game to the scan that finds none any more, whatever the scans between
/// them find or fail to find but an end: where turning HDR on changed some display, the snapshot is
/// restored, and where all of that is done every display is as it was before the game; where it
/// changed none, nothing is done.
pub proof fn a_game_leaves_the_displays_as_they_were<E>(
    monitor: GameMonitor,
    displays: Map<DisplayTarget, bool>,
    snapshot: Vec<HdrTargetState>,
    enabling: Seq<Result<(), E>>,
    middle: Seq<ScanRound>,
    meanwhile: Map<DisplayTarget, bool>,
    restoring: Seq<Result<(), E>>,
)
    requires
        monitor.initialized,
        !monitor.was_running,
        forall|i: int| 0 <= i < middle.len() ==> monitor::finds_no_end(#[trigger] middle[i]),
        describes(snapshot@, displays),
        distinct(snapshot@),
        enabling.len() == hdr::changes_to(snapshot@, true).len(),
        restoring.len() == snapshot@.len(),
        seqs::first_error(restoring) is None,
        meanwhile.dom() == displays.dom(),
        forall|t: DisplayTarget|
            #![trigger meanwhile[t]]
            !listed(snapshot@, t) ==> meanwhile[t] == after_changes(
                displays,
                hdr::changes_to(snapshot@, true),
                enabling,
            )[t],
    ensures
        ({
            let kept = if hdr::any_changed(enabling) {
                Some(snapshot)
            } else {
                None
            };
            let started = monitor::round(
                monitor,
                ScanRound { found: Some(true), enabling: kept },
            );
            let action = monitor::rounds(started.0, middle).after_scan(Some(false)).1;
            &&& started.1 is EnableHdr
            &&& match action {
                MonitorAction::Restore(states) => hdr::any_changed(enabling) && after_changes(
                    meanwhile,
                    hdr::changes_back(states@),
                    restoring,
                ) == displays,
                MonitorAction::Nothing => !hdr::any_changed(enabling) && after_changes(
                    displays,
                    hdr::changes_to(snapshot@, true),
                    enabling,
                ) == displays,
                MonitorAction::EnableHdr => false,
            }
        }),
{
    let kept = if hdr::any_changed(enabling) {
        Some(snapshot)
    } else {
        None
    };
    monitor::hdr_is_on_from_start_to_stop(monitor, kept, middle);
    restoring_undoes_what_a_game_changed(displays, snapshot@, enabling, meanwhile, restoring);
}

// ---------------------------------------------------------------------------
// What is listed and what is changed
// ---------------------------------------------------------------------------
/// Every display that answered that it can show HDR is listed with the state that it answered, and
/// nothing else is.
pub proof fn every_display_that_can_show_hdr_is_listed<E>(
    targets: Seq<DisplayTarget>,
    answers: Seq<Result<Option<bool>, E>>,
    state: HdrTargetState,
)
    requires
        answers.len() <= targets.len(),
    ensures
        hdr::supported_targets(targets, answers).contains(state) <==> exists|i: int|
            0 <= i < answers.len() && #[trigger] answers[i] == Ok::<Option<bool>, E>(
                Some(state.enabled),
            ) && targets[i] == state.target,
    decreases answers.len(),
{
    if answers.len() > 0 {
        let rest = answers.drop_last();
        let n = answers.len() - 1;
        every_display_that_can_show_hdr_is_listed(targets, rest, state);
        let before = hdr::supported_targets(targets, rest);
        let all = hdr::supported_targets(targets, answers);
        assert forall|i: int| 0 <= i < n implies rest[i] == #[trigger] answers[i] by {}
        if exists|i: int|
            0 <= i < rest.len() && #[trigger] rest[i] == Ok::<Option<bool>, E>(Some(state.enabled))
                && targets[i] == state.target {
            let i = choose|i: int|
                0 <= i < rest.len() && #[trigger] rest[i] == Ok::<Option<bool>, E>(
                    Some(state.enabled),
                ) && targets[i] == state.target;
            assert(answers[i] == rest[i]);
        }
        match answers.last() {
            Ok(Some(enabled)) => {
                let new = HdrTargetState { target: targets[n], enabled };
                assert(all =~= before + seq![new]);
                seqs::lemma_add_contains(before, seq![new], state);
                assert(seq![new][0] == new);
                assert(answers[n] == Ok::<Option<bool>, E>(Some(enabled)));
            },
            _ => {},
        }
    }
}

/// Displays are listed in the order in which they were asked: the list of the first displays stands
/// first, and each further display adds itself at the end or nothing.
pub proof fn displays_are_listed_in_order<E>(
    targets: Seq<DisplayTarget>,
    answers: Seq<Result<Option<bool>, E>>,
    answer: Result<Option<bool>, E>,
)
    requires
        answers.len() < targets.len(),
    ensures
        hdr::supported_targets(targets, answers.push(answer)) == hdr::supported_targets(
            targets,
            answers,
        ) + (match answer {
            Ok(Some(enabled)) => seq![
                HdrTargetState { target: targets[answers.len() as int], enabled },
            ],
            _ => Seq::empty(),
        }),
        hdr::supported_targets::<E>(targets, Seq::empty()) == Seq::<HdrTargetState>::empty(),
{
    assert(answers.push(answer).drop_last() =~= answers);
    assert(hdr::supported_targets(targets, answers) + Seq::<HdrTargetState>::empty()
        =~= hdr::supported_targets(targets, answers));
}

/// A display is asked next exactly while no asking has failed and some display is left, and it is
/// the first one left.
pub proof fn displays_are_asked_in_turn_until_one_fails<E>(
    targets: Seq<DisplayTarget>,
    answers: Seq<Result<Option<bool>, E>>,
)
    ensures
        hdr::next_target(targets, answers) == (if answers.len() < targets.len() && forall|i: int|
            0 <= i < answers.len() ==> #[trigger] answers[i] is Ok {
            Some(targets[answers.len() as int])
        } else {
            None
        }),
{
    seqs::lemma_first_error(answers);
}

/// The calls of an attempt before call `k` went as they go where another attempt follows: the sizes
/// were given, and the room proved too small.
pub open spec fn tried_again(replies: Seq<(i32, u32)>, k: int) -> bool {
    forall|i: int|
        0 <= i < k ==> (#[trigger] replies[i]).0 == (if i % 2 == 0 {
            0i32
        } else {
            122i32
        })
}

/// The asking for display paths is done with the count of the first attempt that succeeds, goes on
/// only where the room proved too small, and fails with the code of the first call that fails
/// otherwise, or of the third attempt.
pub proof fn asking_goes_on_only_for_want_of_room(replies: Seq<(i32, u32)>)
    ensures
        match display_paths_run(DisplayPathQuery::Sizes { tried: 0 }, replies) {
            DisplayPathQuery::Sizes { tried } => tried < 3 && replies.len() == 2 * tried && tried_again(
                replies,
                replies.len() as int,
            ),
            DisplayPathQuery::Paths { tried } => tried < 3 && replies.len() == 2 * tried + 1
                && tried_again(replies, replies.len() as int),
            DisplayPathQuery::Done { count } => exists|k: int|
                0 <= k < replies.len() && k < 6 && k % 2 == 1 && #[trigger] replies[k] == (0i32, count)
                    && tried_again(replies, k),
            DisplayPathQuery::Failed { code } => exists|k: int|
                0 <= k < replies.len() && k < 6 && (#[trigger] replies[k]).0 == code && code != 0 && (k
                    % 2 == 0 || code != 122 || k == 5) && tried_again(replies, k),
        },
    decreases replies.len(),
{
    if replies.len() > 0 {
        let rest = replies.drop_last();
        let m = rest.len() as int;
        asking_goes_on_only_for_want_of_room(rest);
        assert forall|i: int| 0 <= i < m implies rest[i] == #[trigger] replies[i] by {}
        assert(replies[m] == replies.last());
        assert forall|k: int| 0 <= k <= m && tried_again(rest, k) implies tried_again(replies, k) by {
            assert forall|i: int| 0 <= i < k implies (#[trigger] replies[i]).0 == (if i % 2 == 0 {
                0i32
            } else {
                122i32
            }) by {
                assert(rest[i] == replies[i]);
            }
        }
        match display_paths_run(DisplayPathQuery::Sizes { tried: 0 }, rest) {
            DisplayPathQuery::Done { count } => {
                let k = choose|k: int|
                    0 <= k < rest.len() && k < 6 && k % 2 == 1 && #[trigger] rest[k] == (0i32, count)
                        && tried_again(rest, k);
                assert(replies[k] == rest[k]);
                assert(tried_again(replies, k));
            },
            DisplayPathQuery::Failed { code } => {
                let k = choose|k: int|
                    0 <= k < rest.len() && k < 6 && (#[trigger] rest[k]).0 == code && code != 0 && (k
                        % 2 == 0 || code != 122 || k == 5) && tried_again(rest, k);
                assert(replies[k] == rest[k]);
                assert(tried_again(replies, k));
            },
            _ => {
                assert(tried_again(replies, m));
            },
        }
    }
}

/// An answer of an HDR call stands, but for the two codes that say that Windows does not know it.
pub proof fn answers_stand_but_for_two_codes<T>(answer: Result<T, i32>)
    ensures
        hdr::after_hdr_call(answer) == (if answer is Err && (answer->Err_0 == 50 || answer->Err_0
            == 87) {
            hdr::HdrCall::TryLegacy
        } else {
            hdr::HdrCall::Answered(answer)
        }),
{
}

/// HDR counts as on exactly where some display has it on, whichever it is.
pub proof fn hdr_is_on_where_any_display_has_it_on(targets: Seq<HdrTargetState>, i: int)
    ensures
        0 <= i < targets.len() && targets[i].enabled ==> hdr::any_enabled(targets),
        (forall|j: int| 0 <= j < targets.len() ==> !(#[trigger] targets[j]).enabled)
            ==> !hdr::any_enabled(targets),
{
}

/// Where some listed display has HDR on, switching turns it off on every one; where all have it off,
/// switching turns it on on every one.
pub proof fn switching_turns_all_off_or_all_on<E>(
    displays: Map<DisplayTarget, bool>,
    targets: Seq<HdrTargetState>,
    results: Seq<Result<(), E>>,
    i: int,
)
    requires
        describes(targets, displays),
        results.len() == hdr::changes_to(targets, !hdr::any_enabled(targets)).len(),
        seqs::first_error(results) is None,
        0 <= i < targets.len(),
    ensures
        (exists|j: int| 0 <= j < targets.len() && (#[trigger] targets[j]).enabled) ==> !after_changes(
            displays,
            hdr::changes_to(targets, !hdr::any_enabled(targets)),
            results,
        )[targets[i].target],
        (forall|j: int| 0 <= j < targets.len() ==> !(#[trigger] targets[j]).enabled)
            ==> after_changes(
            displays,
            hdr::changes_to(targets, !hdr::any_enabled(targets)),
            results,
        )[targets[i].target],
{
    switching_makes_all_displays_alike(displays, targets, results);
    assert(after_changes(
        displays,
        hdr::changes_to(targets, !hdr::any_enabled(targets)),
        results,
    )[targets[i].target] == !hdr::any_enabled(targets));
}

/// A display is changed exactly where it is not in the wanted state, to that state, in the order of
/// the list.
pub proof fn only_displays_in_another_state_are_changed(
    targets: Seq<HdrTargetState>,
    next: HdrTargetState,
    enabled: bool,
)
    ensures
        hdr::changes_to(targets.push(next), enabled) == (if next.enabled == enabled {
            hdr::changes_to(targets, enabled)
        } else {
            hdr::changes_to(targets, enabled).push(TargetChange { target: next.target, enabled })
        }),
        hdr::changes_to(Seq::empty(), enabled) == Seq::<TargetChange>::empty(),
{
    assert(targets.push(next).drop_last() =~= targets);
}

/// Restoring sets every display of the snapshot, each to its state there, in the order of the
/// snapshot.
pub proof fn restoring_sets_every_display(snapshot: Seq<HdrTargetState>)
    ensures
        hdr::changes_back(snapshot).len() == snapshot.len(),
        forall|i: int|
            0 <= i < snapshot.len() ==> (#[trigger] hdr::changes_back(snapshot)[i]).target
                == snapshot[i].target && hdr::changes_back(snapshot)[i].enabled == snapshot[i].enabled,
{
}

/// Something was changed exactly where not every change failed.
pub proof fn something_was_changed_unless_all_failed<E>(results: Seq<Result<(), E>>)
    ensures
        hdr::any_changed(results) <==> !(forall|i: int|
            0 <= i < results.len() ==> #[trigger] results[i] is Err),
{
    if hdr::any_changed(results) {
        let i = choose|i: int| 0 <= i < results.len() && #[trigger] results[i] is Ok;
        assert(!(results[i] is Err));
    } else {
        assert forall|i: int| 0 <= i < results.len() implies #[trigger] results[i] is Err by {
            assert(!(results[i] is Ok));
        }
    }
}

} // verus!
