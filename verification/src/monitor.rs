//! The monitor: which lists it scans with, when it scans, and what it does when a game starts or
//! stops.

use std::sync::Arc;

use vstd::prelude::*;

use crate::hdr::HdrTargetState;
use crate::lists;
use crate::lists::{game_list_flags, load_cached_game_lists, CachedGameLists, ListTexts, Unavailable};
use crate::rules;
use crate::rules::{matching_game_processes, ProcessEntry};

verus! {

// ---------------------------------------------------------------------------
// Control
// ---------------------------------------------------------------------------
/// `Arc::clone` gives another pointer to the same value.
#[verifier::external_body]
fn share(lists: &Arc<CachedGameLists>) -> (r: Arc<CachedGameLists>)
    ensures
        r == *lists,
{
    Arc::clone(lists)
}

/// What the monitor goes by.
pub struct MonitorState {
    /// The lists to scan with.
    pub game_lists: Arc<CachedGameLists>,
    /// A number that changes with the lists.
    pub revision: u64,
    /// The monitor has to stop.
    pub quit: bool,
}

/// What the rest of the application controls the monitor with.
pub struct MonitorControl {
    pub state: MonitorState,
}

/// How long the monitor waits at most for its next scan while nothing has changed, in milliseconds.
pub const POLL_INTERVAL_MS: u64 = 1000;

/// What the monitor does before its next scan.
#[derive(Clone, Copy, Debug, PartialEq, Eq, Structural)]
pub enum ScanWait {
    /// Stop.
    Stop,
    /// Scan at once.
    ScanNow,
    /// Wait for a wake-up, for `millis` milliseconds at most, then look again whether to stop.
    Sleep { millis: u64 },
}

impl MonitorState {
    /// The state with other lists.
    pub open spec fn replaced(self, game_lists: Arc<CachedGameLists>) -> MonitorState {
        MonitorState {
            game_lists,
            revision: if self.revision == u64::MAX {
                0
            } else {
                (self.revision + 1) as u64
            },
            quit: self.quit,
        }
    }

    /// The state after the monitor was told to stop.
    pub open spec fn stopped(self) -> MonitorState {
        MonitorState { quit: true, ..self }
    }

    /// The lists to scan with and their number; none once the monitor has to stop.
    pub open spec fn current(self) -> Option<(Arc<CachedGameLists>, u64)> {
        if self.quit {
            None
        } else {
            Some((self.game_lists, self.revision))
        }
    }

    /// What to do before the next scan, after a scan with the lists of the given number.
    pub open spec fn wait_after(self, scanned_revision: u64) -> ScanWait {
        if self.quit {
            ScanWait::Stop
        } else if self.revision == scanned_revision {
            ScanWait::Sleep { millis: POLL_INTERVAL_MS }
        } else {
            ScanWait::ScanNow
        }
    }

    /// Whether the monitor scans again, where the state stays as it is in the meantime.
    pub open spec fn scans_again(self, scanned_revision: u64) -> bool {
        match self.wait_after(scanned_revision) {
            ScanWait::Stop => false,
            ScanWait::ScanNow => true,
            ScanWait::Sleep { .. } => self.current() is Some,
        }
    }
}

impl MonitorControl {
    /// A control with its first lists.
    pub fn new(game_lists: Arc<CachedGameLists>) -> (r: Self)
        ensures
            r.state == (MonitorState { game_lists, revision: 0, quit: false }),
    {
        MonitorControl { state: MonitorState { game_lists, revision: 0, quit: false } }
    }

    /// The lists to scan with and their number; none once the monitor has to stop.
    pub fn game_lists(&self) -> (r: Option<(Arc<CachedGameLists>, u64)>)
        ensures
            r == self.state.current(),
    {
        if self.state.quit {
            None
        } else {
            Some((share(&self.state.game_lists), self.state.revision))
        }
    }

    /// Puts other lists in use.
    pub fn replace_game_lists(&mut self, game_lists: Arc<CachedGameLists>)
        ensures
            final(self).state == old(self).state.replaced(game_lists),
    {
        self.state.game_lists = game_lists;
        self.state.revision = self.state.revision.wrapping_add(1);
    }

    /// What to do before the next scan. New lists are scanned with at once; else the wait lasts one
    /// second at most.
    pub fn wait_for_next_scan(&self, scanned_revision: u64) -> (r: ScanWait)
        ensures
            r == self.state.wait_after(scanned_revision),
    {
        if self.state.quit {
            return ScanWait::Stop;
        }
        if self.state.revision == scanned_revision {
            ScanWait::Sleep { millis: POLL_INTERVAL_MS }
        } else {
            ScanWait::ScanNow
        }
    }

    /// Whether to scan again once the wait is over, whether it was cut short or not.
    pub fn scan_after_wait(&self) -> (r: bool)
        ensures
            r == (self.state.current() is Some),
    {
        !self.state.quit
    }

    /// Tells the monitor to stop.
    pub fn shutdown(&mut self)
        ensures
            final(self).state == old(self).state.stopped(),
    {
        self.state.quit = true;
    }
}

// ---------------------------------------------------------------------------
// Reloading
// ---------------------------------------------------------------------------
/// Why the lists were not reloaded.
#[derive(Debug)]
pub enum ReloadError<E> {
    /// Something is not set up.
    Unavailable(Unavailable),
    /// A list could not be read.
    Read(E),
}

/// Loads the lists and puts them in use. Where they cannot be loaded, those in use stay.
pub fn replace_cached_game_lists<E>(
    control: &mut MonitorControl,
    texts: ListTexts<E>,
    flags: usize,
) -> (r: Result<(), E>)
    ensures
        match texts.failure(flags) {
            Some(e) => r == Err::<(), E>(e) && *final(control) == *old(control),
            None => r == Ok::<(), E>(()) && final(control).state == old(control).state.replaced(
                final(control).state.game_lists,
            ) && texts.make(flags, *final(control).state.game_lists),
        },
{
    match load_cached_game_lists(texts, flags) {
        Ok(lists) => {
            control.replace_game_lists(Arc::new(lists));
            Ok(())
        },
        Err(e) => Err(e),
    }
}

/// Loads the lists that `flags` put in use and puts them in use. There are no texts where it is
/// not known where the lists stand, and no control where no monitor runs.
pub fn reload_game_lists_for_flags<E>(
    texts: Option<ListTexts<E>>,
    control: Option<&mut MonitorControl>,
    flags: usize,
) -> (r: Result<(), ReloadError<E>>)
    ensures
        match (texts, control) {
            (None, _) => r == Err::<(), ReloadError<E>>(
                ReloadError::Unavailable(Unavailable::Paths),
            ) && (control matches Some(c) ==> *final(c) == *c),
            (Some(_), None) => r == Err::<(), ReloadError<E>>(
                ReloadError::Unavailable(Unavailable::Control),
            ),
            (Some(texts), Some(c)) => match texts.failure(flags) {
                Some(e) => r == Err::<(), ReloadError<E>>(ReloadError::Read(e)) && *final(c) == *c,
                None => r == Ok::<(), ReloadError<E>>(()) && final(c).state == c.state.replaced(
                    final(c).state.game_lists,
                ) && texts.make(flags, *final(c).state.game_lists),
            },
        },
{
    let texts = match texts {
        Some(texts) => texts,
        None => {
            return Err(ReloadError::Unavailable(Unavailable::Paths));
        },
    };
    let control = match control {
        Some(control) => control,
        None => {
            return Err(ReloadError::Unavailable(Unavailable::Control));
        },
    };
    match replace_cached_game_lists(control, texts, flags) {
        Ok(_) => Ok(()),
        Err(e) => Err(ReloadError::Read(e)),
    }
}

/// Loads the lists that are in use again, by the active flags.
pub fn reload_game_lists<E>(
    texts: Option<ListTexts<E>>,
    control: Option<&mut MonitorControl>,
    active: Option<usize>,
) -> (r: Result<(), ReloadError<E>>)
    ensures
        match (texts, control) {
            (None, _) => r == Err::<(), ReloadError<E>>(
                ReloadError::Unavailable(Unavailable::Paths),
            ) && (control matches Some(c) ==> *final(c) == *c),
            (Some(_), None) => r == Err::<(), ReloadError<E>>(
                ReloadError::Unavailable(Unavailable::Control),
            ),
            (Some(texts), Some(c)) => match texts.failure(lists::flags_in_use(active)) {
                Some(e) => r == Err::<(), ReloadError<E>>(ReloadError::Read(e)) && *final(c) == *c,
                None => r == Ok::<(), ReloadError<E>>(()) && final(c).state == c.state.replaced(
                    final(c).state.game_lists,
                ) && texts.make(lists::flags_in_use(active), *final(c).state.game_lists),
            },
        },
{
    reload_game_lists_for_flags(texts, control, game_list_flags(active))
}

// ---------------------------------------------------------------------------
// The monitor
// ---------------------------------------------------------------------------
/// What the monitor remembers from scan to scan.
pub struct GameMonitor {
    /// A game was running at the last scan.
    pub was_running: bool,
    /// There has been a scan.
    pub initialized: bool,
    /// The displays as they were before HDR was turned on for a game.
    pub hdr_snapshot: Option<Vec<HdrTargetState>>,
}

/// What the monitor does after a scan.
pub enum MonitorAction {
    /// Nothing.
    Nothing,
    /// Turn HDR on for a game, and remember what came of it.
    EnableHdr,
    /// Bring the displays back to a snapshot.
    Restore(Vec<HdrTargetState>),
}

/// Whether a scan found a game running; nothing where the scan failed.
pub open spec fn scan_found<E>(
    lists: &CachedGameLists,
    snapshot: Result<Vec<ProcessEntry>, E>,
) -> Option<bool> {
    if lists.games.names_nothing() {
        Some(false)
    } else {
        match snapshot {
            Ok(processes) => Some(
                !rules::running_games(processes@, &lists.games, &lists.exclusions).is_empty(),
            ),
            Err(_) => None,
        }
    }
}

impl GameMonitor {
    /// What the monitor remembers and does after a scan. A failed scan changes nothing. The first
    /// scan tells only where things stand. After that HDR is turned on when a game starts, and the
    /// displays are restored when the last one stops, where there is a snapshot.
    pub open spec fn after_scan(self, found: Option<bool>) -> (GameMonitor, MonitorAction) {
        match found {
            None => (self, MonitorAction::Nothing),
            Some(running) => {
                let stops = self.initialized && !running && self.was_running;
                let next = GameMonitor {
                    was_running: running,
                    initialized: true,
                    hdr_snapshot: if stops {
                        None
                    } else {
                        self.hdr_snapshot
                    },
                };
                if self.initialized && running && !self.was_running {
                    (next, MonitorAction::EnableHdr)
                } else if stops && self.hdr_snapshot is Some {
                    (next, MonitorAction::Restore(self.hdr_snapshot->0))
                } else {
                    (next, MonitorAction::Nothing)
                }
            },
        }
    }

    /// What the monitor remembers after HDR was turned on for a game with the given outcome.
    pub open spec fn after_enabling(self, snapshot: Option<Vec<HdrTargetState>>) -> GameMonitor {
        GameMonitor { hdr_snapshot: snapshot, ..self }
    }

    /// A monitor before its first scan.
    pub fn new() -> (r: Self)
        ensures
            r == (GameMonitor { was_running: false, initialized: false, hdr_snapshot: None }),
    {
        GameMonitor { was_running: false, initialized: false, hdr_snapshot: None }
    }

    /// Remembers what came of turning HDR on for a game: the snapshot to restore, where there is
    /// one.
    pub fn hdr_enabled<E>(&mut self, outcome: Result<Option<Vec<HdrTargetState>>, E>)
        ensures
            *final(self) == old(self).after_enabling(
                match outcome {
                    Ok(snapshot) => snapshot,
                    Err(_) => None,
                },
            ),
    {
        self.hdr_snapshot =
        match outcome {
            Ok(snapshot) => snapshot,
            Err(_) => None,
        };
    }
}

/// What the monitor does after one scan with `game_lists`, from what the snapshot of the running
/// processes gave.
pub fn monitor_games<E>(
    monitor: &mut GameMonitor,
    game_lists: &CachedGameLists,
    snapshot: Result<Vec<ProcessEntry>, E>,
) -> (r: MonitorAction)
    ensures
        (*final(monitor), r) == old(monitor).after_scan(scan_found(game_lists, snapshot)),
{
    let is_running = match matching_game_processes(
        &game_lists.games,
        &game_lists.exclusions,
        snapshot,
    ) {
        Ok(matches) => !matches.is_empty(),
        Err(_) => {
            return MonitorAction::Nothing;
        },
    };
    let mut action = MonitorAction::Nothing;
    if !monitor.initialized {
        monitor.initialized = true;
    } else if is_running && !monitor.was_running {
        action = MonitorAction::EnableHdr;
    } else if !is_running && monitor.was_running {
        if let Some(snapshot) = monitor.hdr_snapshot.take() {
            action = MonitorAction::Restore(snapshot);
        }
    }
    monitor.was_running = is_running;
    action
}

// ---------------------------------------------------------------------------
// Laws
// ---------------------------------------------------------------------------
/// Once new lists are in use, a monitor that has scanned with the old ones scans at once, and
/// with the new ones, unless it has to stop.
pub proof fn new_lists_are_scanned_at_once(state: MonitorState, lists: Arc<CachedGameLists>)
    requires
        !state.quit,
    ensures
        state.replaced(lists).wait_after(state.revision) == ScanWait::ScanNow,
        state.replaced(lists).current() matches Some((scanned, revision)) && scanned == lists
            && revision != state.revision,
{
}

/// Where nothing changes in the meantime, the monitor scans again exactly where it has lists to scan
/// with, also after a wait that brought no news. It waits only where it has scanned with these very
/// lists, and then for one second at most; where it has to stop or has other lists by now, it does
/// not wait.
pub proof fn a_wait_without_news_is_short_and_goes_on(state: MonitorState, scanned_revision: u64)
    ensures
        state.scans_again(scanned_revision) <==> state.current() is Some,
        state.wait_after(scanned_revision) is Sleep <==> state.current() == Some(
            (state.game_lists, scanned_revision),
        ),
        state.wait_after(scanned_revision) matches ScanWait::Sleep { millis } ==> millis
            == POLL_INTERVAL_MS && millis <= 1000,
{
}

/// A monitor that was told to stop gets no more lists and waits for no more scans, even where new
/// lists come in.
pub proof fn a_stopped_monitor_stays_stopped(
    state: MonitorState,
    lists: Arc<CachedGameLists>,
    scanned_revision: u64,
)
    ensures
        state.stopped().current() is None,
        state.stopped().wait_after(scanned_revision) == ScanWait::Stop,
        state.stopped().replaced(lists).current() is None,
        state.stopped().replaced(lists).wait_after(scanned_revision) == ScanWait::Stop,
        state.stopped().stopped() == state.stopped(),
{
}

/// A scan, and what turning HDR on would give after it.
pub struct ScanRound {
    pub found: Option<bool>,
    pub enabling: Option<Vec<HdrTargetState>>,
}

/// What the monitor remembers and does in a round.
pub open spec fn round(monitor: GameMonitor, round: ScanRound) -> (GameMonitor, MonitorAction) {
    let (next, action) = monitor.after_scan(round.found);
    if action is EnableHdr {
        (next.after_enabling(round.enabling), action)
    } else {
        (next, action)
    }
}

/// What the monitor remembers after some rounds.
pub open spec fn rounds(monitor: GameMonitor, all: Seq<ScanRound>) -> GameMonitor
    decreases all.len(),
{
    if all.len() == 0 {
        monitor
    } else {
        round(rounds(monitor, all.drop_last()), all.last()).0
    }
}

/// A monitor keeps a snapshot only while a game runs, however its scans turn out. So HDR is never
/// restored but after it was turned on for a game that has been running since.
pub proof fn a_snapshot_is_kept_only_while_a_game_runs(monitor: GameMonitor, all: Seq<ScanRound>)
    requires
        monitor.hdr_snapshot is None,
    ensures
        rounds(monitor, all).hdr_snapshot is Some ==> rounds(monitor, all).was_running && rounds(
            monitor,
            all,
        ).initialized,
    decreases all.len(),
{
    if all.len() > 0 {
        a_snapshot_is_kept_only_while_a_game_runs(monitor, all.drop_last());
    }
}

/// The first scan that does not fail changes no display, whether it finds a game or not.
pub proof fn the_first_scan_changes_nothing(monitor: GameMonitor, found: Option<bool>)
    requires
        !monitor.initialized,
    ensures
        monitor.after_scan(found).1 is Nothing,
        monitor.after_scan(found).0.initialized == (found is Some),
{
}

/// A scan that finds what the last one found changes nothing but for the first one's mark, and a
/// failed scan changes nothing at all.
pub proof fn only_a_start_or_a_stop_acts(monitor: GameMonitor, found: Option<bool>)
    requires
        found is None || found == Some(monitor.was_running),
    ensures
        monitor.after_scan(found).1 is Nothing,
        monitor.after_scan(found).0.hdr_snapshot == monitor.hdr_snapshot,
        monitor.after_scan(found).0.was_running == monitor.was_running,
{
}

/// A round whose scan finds a game or fails.
pub open spec fn finds_no_end(round: ScanRound) -> bool {
    round.found == None::<bool> || round.found == Some(true)
}

/// While a game runs, rounds whose scans find a game or fail change nothing.
proof fn lemma_quiet_rounds(monitor: GameMonitor, all: Seq<ScanRound>)
    requires
        monitor.initialized,
        monitor.was_running,
        forall|i: int| 0 <= i < all.len() ==> finds_no_end(#[trigger] all[i]),
    ensures
        rounds(monitor, all) == monitor,
    decreases all.len(),
{
    if all.len() > 0 {
        let rest = all.drop_last();
        assert forall|i: int| 0 <= i < rest.len() implies finds_no_end(#[trigger] rest[i]) by {
            assert(rest[i] == all[i]);
        }
        lemma_quiet_rounds(monitor, rest);
        assert(finds_no_end(all[all.len() - 1]));
    }
}

/// A game that starts after the first scan gets HDR turned on once; while scans find a game or
/// fail, nothing more is done; and the scan that finds none restores exactly the snapshot that
/// turning HDR on gave, where it gave one, and forgets it.
pub proof fn hdr_is_on_from_start_to_stop(
    monitor: GameMonitor,
    enabling: Option<Vec<HdrTargetState>>,
    middle: Seq<ScanRound>,
)
    requires
        monitor.initialized,
        !monitor.was_running,
        forall|i: int| 0 <= i < middle.len() ==> finds_no_end(#[trigger] middle[i]),
    ensures
        ({
            let start = ScanRound { found: Some(true), enabling };
            let started = round(monitor, start).0;
            let (stopped, action) = rounds(started, middle).after_scan(Some(false));
            &&& round(monitor, start).1 is EnableHdr
            &&& forall|i: int|
                0 <= i < middle.len() ==> round(
                    rounds(started, middle.take(i)),
                    #[trigger] middle[i],
                ).1 is Nothing
            &&& enabling is Some ==> action == MonitorAction::Restore(enabling->0)
            &&& enabling is None ==> action is Nothing
            &&& stopped == (GameMonitor {
                was_running: false,
                initialized: true,
                hdr_snapshot: None,
            })
        }),
{
    let start = ScanRound { found: Some(true), enabling };
    let started = round(monitor, start).0;
    lemma_quiet_rounds(started, middle);
    assert forall|i: int| 0 <= i < middle.len() implies round(
        rounds(started, middle.take(i)),
        #[trigger] middle[i],
    ).1 is Nothing by {
        let head = middle.take(i);
        assert forall|j: int| 0 <= j < head.len() implies finds_no_end(#[trigger] head[j]) by {
            assert(head[j] == middle[j]);
        }
        lemma_quiet_rounds(started, head);
        assert(finds_no_end(middle[i]));
    }
}

/// A scan that does not fail finds a game exactly where at least one process counts as one, however
/// many there are.
pub proof fn a_scan_finds_a_game_where_a_process_counts<E>(
    lists: CachedGameLists,
    processes: Vec<ProcessEntry>,
)
    ensures
        scan_found::<E>(&lists, Ok(processes)) == Some(
            exists|i: int|
                0 <= i < processes@.len() && (#[trigger] processes@[i]).counts(
                    &lists.games,
                    &lists.exclusions,
                ),
        ),
{
    let ps = processes@;
    let found = rules::running_games(ps, &lists.games, &lists.exclusions);
    if exists|i: int|
        0 <= i < ps.len() && (#[trigger] ps[i]).counts(&lists.games, &lists.exclusions) {
        let i = choose|i: int|
            0 <= i < ps.len() && (#[trigger] ps[i]).counts(&lists.games, &lists.exclusions);
        assert(found.contains(ps[i].exe_name()));
        assert(!found.is_empty());
        assert(!lists.games.names_nothing());
    } else {
        assert(found =~= Set::empty());
    }
}

/// More processes never make a game seem to have stopped: where a scan finds a game, every scan of a
/// snapshot that holds these processes too finds one.
pub proof fn more_processes_never_stop_a_game<E>(
    lists: CachedGameLists,
    some: Vec<ProcessEntry>,
    more: Vec<ProcessEntry>,
)
    requires
        forall|p: ProcessEntry| some@.contains(p) ==> more@.contains(p),
        scan_found::<E>(&lists, Ok(some)) == Some(true),
    ensures
        scan_found::<E>(&lists, Ok(more)) == Some(true),
{
    a_scan_finds_a_game_where_a_process_counts::<E>(lists, some);
    a_scan_finds_a_game_where_a_process_counts::<E>(lists, more);
    let i = choose|i: int|
        0 <= i < some@.len() && (#[trigger] some@[i]).counts(&lists.games, &lists.exclusions);
    assert(some@.contains(some@[i]));
    let j = choose|j: int| 0 <= j < more@.len() && more@[j] == some@[i];
    assert(more@[j].counts(&lists.games, &lists.exclusions));
}

/// A scan fails exactly where the snapshot failed and some rule names a game; where none does, there
/// is no game to find.
pub proof fn a_scan_fails_only_where_there_is_something_to_find<E>(lists: CachedGameLists, error: E)
    ensures
        scan_found::<E>(&lists, Err(error)) == (if exists|key: Seq<char>|
            lists.games.names@.contains(key) || lists.games.paths@.contains(key) {
            None::<bool>
        } else {
            Some(false)
        }),
{
    if exists|key: Seq<char>|
        lists.games.names@.contains(key) || lists.games.paths@.contains(key) {
        let key = choose|key: Seq<char>|
            lists.games.names@.contains(key) || lists.games.paths@.contains(key);
        assert(!lists.games.names_nothing());
    } else {
        assert(lists.games.names@ =~= Set::empty());
        assert(lists.games.paths@ =~= Set::empty());
    }
}

/// New lists get the next number, and the first one after the last.
pub proof fn revisions_count_on(state: MonitorState, lists: Arc<CachedGameLists>)
    ensures
        state.replaced(lists).revision as int == (state.revision + 1) % 0x1_0000_0000_0000_0000,
        state.replaced(lists).quit == state.quit,
        state.stopped().revision == state.revision,
        state.stopped().game_lists == state.game_lists,
{
}

/// After a scan that does not fail the monitor knows what it found and that there was a scan. It
/// forgets a snapshot only where a game stopped, and never makes one up.
pub proof fn a_monitor_remembers_what_the_last_scan_found(monitor: GameMonitor, running: bool)
    ensures
        monitor.after_scan(Some(running)).0.was_running == running,
        monitor.after_scan(Some(running)).0.initialized,
        running || !monitor.was_running || !monitor.initialized ==> monitor.after_scan(
            Some(running),
        ).0.hdr_snapshot == monitor.hdr_snapshot,
        monitor.after_scan(None) == (monitor, MonitorAction::Nothing),
{
}

/// HDR is turned on exactly where a scan after the first one finds a game and the last one found
/// none; the displays are restored exactly where it finds none, the last one found a game, and there
/// is a snapshot, which is the one that is restored.
pub proof fn displays_change_exactly_at_a_start_and_a_stop(monitor: GameMonitor, found: Option<bool>)
    ensures
        monitor.after_scan(found).1 is EnableHdr <==> monitor.initialized && !monitor.was_running
            && found == Some(true),
        monitor.after_scan(found).1 is Restore <==> monitor.initialized && monitor.was_running && found
            == Some(false) && monitor.hdr_snapshot is Some,
        monitor.after_scan(found).1 matches MonitorAction::Restore(states) ==> monitor.hdr_snapshot
            == Some(states),
{
}

} // verus!
