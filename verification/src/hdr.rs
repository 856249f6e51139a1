//! HDR of the displays: what Windows says of them, what has to be changed, and what came of it.

use vstd::prelude::*;

use crate::seqs;
use crate::seqs::first_failure;
use crate::status::{
    windows_status_is, ERROR_INSUFFICIENT_BUFFER, ERROR_INVALID_PARAMETER, ERROR_NOT_SUPPORTED, ERROR_SUCCESS,
};

verus! {

// ---------------------------------------------------------------------------
// The HDR calls
// ---------------------------------------------------------------------------
/// A code that says that Windows does not know the HDR calls, so that only the older calls for
/// advanced color are left.
pub open spec fn lacks_hdr_calls(code: i32) -> bool {
    code == ERROR_INVALID_PARAMETER as i32 || code == ERROR_NOT_SUPPORTED as i32
}

/// Whether an error, by its operating system code, says that Windows does not know the HDR
/// calls.
pub fn hdr_specific_display_config_unavailable(raw_os_error: Option<i32>) -> (r: bool)
    ensures
        r == (raw_os_error is Some && lacks_hdr_calls(raw_os_error->0)),
{
    match raw_os_error {
        Some(code) => code == ERROR_INVALID_PARAMETER as i32 || code == ERROR_NOT_SUPPORTED as i32,
        None => false,
    }
}

// ---------------------------------------------------------------------------
// Displays
// ---------------------------------------------------------------------------
/// A display as Windows names it: the adapter by the two parts of its identifier, and the target
/// on that adapter.
#[derive(Clone, Copy, Debug, PartialEq, Eq, Structural)]
pub struct DisplayTarget {
    pub adapter_low: u32,
    pub adapter_high: i32,
    pub id: u32,
}

/// A display that can show HDR, and whether it does.
#[derive(Clone, Copy, Debug, PartialEq, Eq, Structural)]
pub struct HdrTargetState {
    pub target: DisplayTarget,
    pub enabled: bool,
}

/// The numbers by which displays are told apart.
pub fn display_target_key(target: DisplayTarget) -> (r: (u32, i32, u32))
    ensures
        r == (target.adapter_low, target.adapter_high, target.id),
{
    (target.adapter_low, target.adapter_high, target.id)
}

/// Whether two keys are the same.
fn same_key(a: (u32, i32, u32), b: (u32, i32, u32)) -> (r: bool)
    ensures
        r == (a == b),
{
    a.0 == b.0 && a.1 == b.1 && a.2 == b.2
}

/// The displays that a list of display paths leads to, each where it is first led to. More than
/// one path may lead to the same display.
pub fn distinct_targets(paths: &[DisplayTarget]) -> (r: Vec<DisplayTarget>)
    ensures
        r@ == seqs::first_of_each(paths@),
{
    let mut r: Vec<DisplayTarget> = Vec::new();
    let mut i: usize = 0;
    while i < paths.len()
        invariant
            i <= paths@.len(),
            r@ == seqs::first_of_each(paths@.take(i as int)),
        decreases paths@.len() - i,
    {
        let target = paths[i];
        assert(paths@.take(i + 1).drop_last() =~= paths@.take(i as int));
        let mut seen = false;
        let mut j: usize = 0;
        while j < r.len()
            invariant
                j <= r@.len(),
                seen == (exists|k: int| 0 <= k < j && r@[k] == target),
            decreases r@.len() - j,
        {
            if same_key(display_target_key(r[j]), display_target_key(target)) {
                seen = true;
            }
            j = j + 1;
        }
        assert(seen == r@.contains(target));
        if !seen {
            r.push(target);
        }
        i = i + 1;
    }
    assert(paths@.take(i as int) =~= paths@);
    r
}

// ---------------------------------------------------------------------------
// Asking for the active displays
// ---------------------------------------------------------------------------
/// How often the active display paths are asked for while the room for them proves too small.
pub const DISPLAY_PATH_ATTEMPTS: u8 = 3;

/// Where asking for the active display paths stands.
#[derive(Clone, Copy, Debug, PartialEq, Eq, Structural)]
pub enum DisplayPathQuery {
    /// The sizes are to be asked for; `tried` attempts have been made.
    Sizes { tried: u8 },
    /// The paths are to be asked for, with room for as many as the sizes said.
    Paths { tried: u8 },
    /// The first `count` paths are the active ones.
    Done { count: u32 },
    /// The asking failed with a code.
    Failed { code: i32 },
}

/// Where the asking stands after a call that returned `status` and counted `count` paths.
pub open spec fn display_paths_after(query: DisplayPathQuery, status: i32, count: u32) -> DisplayPathQuery {
    match query {
        DisplayPathQuery::Sizes { tried } => if status == 0 {
            DisplayPathQuery::Paths { tried }
        } else {
            DisplayPathQuery::Failed { code: status }
        },
        DisplayPathQuery::Paths { tried } => if status == 0 {
            DisplayPathQuery::Done { count }
        } else if status == ERROR_INSUFFICIENT_BUFFER as i32 && tried + 1 < DISPLAY_PATH_ATTEMPTS {
            DisplayPathQuery::Sizes { tried: (tried + 1) as u8 }
        } else {
            DisplayPathQuery::Failed { code: status }
        },
        _ => query,
    }
}

/// Where asking for the active display paths stands after a call that returned `status` and
/// counted `count` paths. It starts with the sizes and no attempt made. Where the paths did not
/// fit, because there were more of them by then, the sizes are asked for again, up to three times
/// in all.
pub fn active_display_paths(query: DisplayPathQuery, status: i32, count: u32) -> (r: DisplayPathQuery)
    ensures
        r == display_paths_after(query, status, count),
{
    match query {
        DisplayPathQuery::Sizes { tried } => {
            if !windows_status_is(status, ERROR_SUCCESS) {
                DisplayPathQuery::Failed { code: status }
            } else {
                DisplayPathQuery::Paths { tried }
            }
        },
        DisplayPathQuery::Paths { tried } => {
            if windows_status_is(status, ERROR_SUCCESS) {
                DisplayPathQuery::Done { count }
            } else if !windows_status_is(status, ERROR_INSUFFICIENT_BUFFER) {
                DisplayPathQuery::Failed { code: status }
            } else if tried < DISPLAY_PATH_ATTEMPTS - 1 {
                DisplayPathQuery::Sizes { tried: tried + 1 }
            } else {
                DisplayPathQuery::Failed { code: ERROR_INSUFFICIENT_BUFFER as i32 }
            }
        },
        DisplayPathQuery::Done { count } => DisplayPathQuery::Done { count },
        DisplayPathQuery::Failed { code } => DisplayPathQuery::Failed { code },
    }
}

// ---------------------------------------------------------------------------
// Asking one display
// ---------------------------------------------------------------------------
/// The bit that says that a display can show HDR.
pub const ADVANCED_COLOR_INFO_2_HDR_SUPPORTED: u32 = 0x10;

/// The bit that says that the user has HDR on.
pub const ADVANCED_COLOR_INFO_2_HDR_USER_ENABLED: u32 = 0x20;

/// What the HDR call says of a display, as bits.
#[derive(Clone, Copy, Debug)]
pub struct DisplayConfigGetAdvancedColorInfo2 {
    pub value: u32,
}

impl DisplayConfigGetAdvancedColorInfo2 {
    /// Whether the display can show HDR.
    pub fn high_dynamic_range_supported(&self) -> (r: bool)
        ensures
            r == (self.value & ADVANCED_COLOR_INFO_2_HDR_SUPPORTED != 0),
    {
        self.value & ADVANCED_COLOR_INFO_2_HDR_SUPPORTED != 0
    }

    /// Whether the user has HDR on.
    pub fn high_dynamic_range_user_enabled(&self) -> (r: bool)
        ensures
            r == (self.value & ADVANCED_COLOR_INFO_2_HDR_USER_ENABLED != 0),
    {
        self.value & ADVANCED_COLOR_INFO_2_HDR_USER_ENABLED != 0
    }
}

/// What the HDR call says of a display: whether HDR is on, or nothing where the display cannot
/// show HDR.
pub fn display_target_hdr_enabled_v2(status: i32, info: DisplayConfigGetAdvancedColorInfo2) -> (r:
    Result<Option<bool>, i32>)
    ensures
        r == (if status != 0 {
            Err::<Option<bool>, i32>(status)
        } else if info.value & ADVANCED_COLOR_INFO_2_HDR_SUPPORTED == 0 {
            Ok(None)
        } else {
            Ok(Some(info.value & ADVANCED_COLOR_INFO_2_HDR_USER_ENABLED != 0))
        }),
{
    if !windows_status_is(status, ERROR_SUCCESS) {
        return Err(status);
    }
    if info.high_dynamic_range_supported() {
        Ok(Some(info.high_dynamic_range_user_enabled()))
    } else {
        Ok(None)
    }
}

/// What the older call for advanced color says of a display, from its two bit fields: whether
/// advanced color is on, or nothing where the display does not support it.
pub fn display_target_hdr_enabled_legacy(status: i32, supported: u32, enabled: u32) -> (r: Result<
    Option<bool>,
    i32,
>)
    ensures
        r == (if status != 0 {
            Err::<Option<bool>, i32>(status)
        } else if supported == 0 {
            Ok(None)
        } else {
            Ok(Some(enabled != 0))
        }),
{
    if windows_status_is(status, ERROR_SUCCESS) {
        if supported != 0 {
            Ok(Some(enabled != 0))
        } else {
            Ok(None)
        }
    } else {
        Err(status)
    }
}

/// What follows the answer of an HDR call.
#[derive(Debug)]
pub enum HdrCall<T> {
    /// The answer stands.
    Answered(Result<T, i32>),
    /// The older call for advanced color has to be made; its answer stands.
    TryLegacy,
}

/// What follows the answer of the HDR call: it stands, unless Windows does not know the call.
pub open spec fn after_hdr_call<T>(answer: Result<T, i32>) -> HdrCall<T> {
    match answer {
        Err(code) => if lacks_hdr_calls(code) {
            HdrCall::TryLegacy
        } else {
            HdrCall::Answered(Err(code))
        },
        Ok(value) => HdrCall::Answered(Ok(value)),
    }
}

/// What follows the answer of the HDR call on whether HDR of a display is on.
pub fn display_target_hdr_enabled(v2: Result<Option<bool>, i32>) -> (r: HdrCall<Option<bool>>)
    ensures
        r == after_hdr_call(v2),
{
    match v2 {
        Ok(enabled) => HdrCall::Answered(Ok(enabled)),
        Err(code) => {
            if hdr_specific_display_config_unavailable(Some(code)) {
                HdrCall::TryLegacy
            } else {
                HdrCall::Answered(Err(code))
            }
        },
    }
}

/// The displays that can show HDR, with their state, from the answers of the first displays
/// asked.
pub open spec fn supported_targets<E>(
    targets: Seq<DisplayTarget>,
    answers: Seq<Result<Option<bool>, E>>,
) -> Seq<HdrTargetState>
    decreases answers.len(),
{
    if answers.len() == 0 {
        Seq::empty()
    } else {
        let before = supported_targets(targets, answers.drop_last());
        match answers.last() {
            Ok(Some(enabled)) => before.push(
                HdrTargetState { target: targets[answers.len() - 1], enabled },
            ),
            _ => before,
        }
    }
}

/// The display to ask next: the first one that has not been asked, as long as no asking failed.
pub open spec fn next_target<E>(
    targets: Seq<DisplayTarget>,
    answers: Seq<Result<Option<bool>, E>>,
) -> Option<DisplayTarget> {
    if answers.len() < targets.len() && seqs::first_error(answers) is None {
        Some(targets[answers.len() as int])
    } else {
        None
    }
}

/// The display to ask next, after `answers` of the first displays; none where all have been asked
/// or where the asking failed.
pub fn next_display<E>(targets: &[DisplayTarget], answers: &[Result<Option<bool>, E>]) -> (r: Option<
    DisplayTarget,
>)
    ensures
        r == next_target(targets@, answers@),
{
    proof {
        seqs::lemma_first_error(answers@);
    }
    let mut i: usize = 0;
    while i < answers.len()
        invariant
            i <= answers@.len(),
            forall|j: int| 0 <= j < i ==> #[trigger] answers@[j] is Ok,
            seqs::first_error(answers@) is None <==> (forall|j: int|
                0 <= j < answers@.len() ==> #[trigger] answers@[j] is Ok),
        decreases answers@.len() - i,
    {
        match &answers[i] {
            Ok(_) => {},
            Err(_) => {
                assert(!(answers@[i as int] is Ok));
                return None;
            },
        }
        i = i + 1;
    }
    if answers.len() < targets.len() {
        Some(targets[answers.len()])
    } else {
        None
    }
}

/// The displays were asked one after the other, each as the next one, until there was none to ask.
pub open spec fn asked<E>(targets: Seq<DisplayTarget>, answers: Seq<Result<Option<bool>, E>>) -> bool {
    &&& forall|i: int|
        0 <= i < answers.len() ==> next_target(targets, #[trigger] answers.take(i)) == Some(
            targets[i],
        )
    &&& next_target(targets, answers) is None
}

/// The displays that can show HDR, from the displays in the order in which they were asked and
/// their answers. The first failure is handed on.
pub fn active_hdr_targets<E>(targets: &[DisplayTarget], answers: Vec<Result<Option<bool>, E>>) -> (r:
    Result<Vec<HdrTargetState>, E>)
    requires
        asked(targets@, answers@),
    ensures
        match seqs::first_error(answers@) {
            Some(e) => r == Err::<Vec<HdrTargetState>, E>(e),
            None => r is Ok && r->Ok_0@ == supported_targets(targets@, answers@),
        },
{
    let mut r: Vec<HdrTargetState> = Vec::new();
    let ghost all = answers@;
    proof {
        if all.len() > 0 {
            assert(next_target(targets@, all.take(all.len() - 1)) == Some(targets@[all.len() - 1]));
        }
    }
    let mut i: usize = 0;
    for answer in it: answers
        invariant
            it.seq() == all,
            i == it.index(),
            all.len() <= targets@.len(),
            seqs::first_error(all.take(i as int)) is None,
            r@ == supported_targets(targets@, all.take(i as int)),
    {
        proof {
            assert(all.take(i + 1).drop_last() =~= all.take(i as int));
            assert(all.take(i + 1).last() == answer);
        }
        match answer {
            Ok(Some(enabled)) => {
                r.push(HdrTargetState { target: targets[i], enabled });
            },
            Ok(None) => {},
            Err(e) => {
                proof {
                    seqs::lemma_first_error_stays(all, i as int + 1);
                }
                return Err(e);
            },
        }
        i = i + 1;
    }
    assert(all.take(i as int) =~= all);
    Ok(r)
}

/// Some display has HDR on.
pub open spec fn any_enabled(targets: Seq<HdrTargetState>) -> bool {
    exists|i: int| 0 <= i < targets.len() && (#[trigger] targets[i]).enabled
}

/// Whether some display has HDR on.
fn some_enabled(targets: &[HdrTargetState]) -> (r: bool)
    ensures
        r == any_enabled(targets@),
{
    let mut i: usize = 0;
    while i < targets.len()
        invariant
            i <= targets@.len(),
            forall|j: int| 0 <= j < i ==> !(#[trigger] targets@[j]).enabled,
        decreases targets@.len() - i,
    {
        if targets[i].enabled {
            return true;
        }
        i = i + 1;
    }
    false
}

/// Whether HDR is on: on any of the active displays.
pub fn windows_hdr_enabled<E>(targets: Result<Vec<HdrTargetState>, E>) -> (r: Result<bool, E>)
    ensures
        r == (match targets {
            Ok(targets) => Ok::<bool, E>(any_enabled(targets@)),
            Err(e) => Err(e),
        }),
{
    match targets {
        Ok(targets) => Ok(some_enabled(targets.as_slice())),
        Err(e) => Err(e),
    }
}

/// The menu's text for switching HDR.
pub fn toggle_hdr_menu_text<E>(enabled: Result<bool, E>) -> (r: &'static str)
    ensures
        r@ == (match enabled {
            Ok(true) => "Toggle HDR Off"@,
            _ => "Toggle HDR On"@,
        }),
{
    match enabled {
        Ok(true) => "Toggle HDR Off",
        Ok(false) => "Toggle HDR On",
        Err(_) => "Toggle HDR On",
    }
}

// ---------------------------------------------------------------------------
// Changing displays
// ---------------------------------------------------------------------------
/// A change to make: HDR of a display on or off.
#[derive(Clone, Copy, Debug, PartialEq, Eq, Structural)]
pub struct TargetChange {
    pub target: DisplayTarget,
    pub enabled: bool,
}

/// The value that the HDR call takes for on and off.
pub fn hdr_state_value(enabled: bool) -> (r: u32)
    ensures
        r == (if enabled {
            1u32
        } else {
            0
        }),
{
    if enabled {
        1
    } else {
        0
    }
}

/// What follows the answer of the HDR call that switches a display.
pub fn set_display_target_hdr_enabled(v2: Result<(), i32>) -> (r: HdrCall<()>)
    ensures
        r == after_hdr_call(v2),
{
    match v2 {
        Ok(_) => HdrCall::Answered(Ok(())),
        Err(code) => {
            if hdr_specific_display_config_unavailable(Some(code)) {
                HdrCall::TryLegacy
            } else {
                HdrCall::Answered(Err(code))
            }
        },
    }
}

/// The changes that bring every display to `enabled`: one for each display that is not there yet,
/// in order.
pub open spec fn changes_to(targets: Seq<HdrTargetState>, enabled: bool) -> Seq<TargetChange>
    decreases targets.len(),
{
    if targets.len() == 0 {
        Seq::empty()
    } else {
        let before = changes_to(targets.drop_last(), enabled);
        if targets.last().enabled != enabled {
            before.push(TargetChange { target: targets.last().target, enabled })
        } else {
            before
        }
    }
}

/// The changes that bring every display to the state it is listed with.
pub open spec fn changes_back(targets: Seq<HdrTargetState>) -> Seq<TargetChange> {
    Seq::new(
        targets.len(),
        |i: int| TargetChange { target: targets[i].target, enabled: targets[i].enabled },
    )
}

/// The changes to make so that HDR of every display is on or off as `enabled` says.
pub fn set_hdr_targets_enabled(targets: &[HdrTargetState], enabled: bool) -> (r: Vec<TargetChange>)
    ensures
        r@ == changes_to(targets@, enabled),
{
    let mut r: Vec<TargetChange> = Vec::new();
    let mut i: usize = 0;
    while i < targets.len()
        invariant
            i <= targets@.len(),
            r@ == changes_to(targets@.take(i as int), enabled),
        decreases targets@.len() - i,
    {
        assert(targets@.take(i + 1).drop_last() =~= targets@.take(i as int));
        if targets[i].enabled != enabled {
            r.push(TargetChange { target: targets[i].target, enabled });
        }
        i = i + 1;
    }
    assert(targets@.take(i as int) =~= targets@);
    r
}

/// The changes to make so that every display is in the state it is listed with. Each display is
/// set, whatever its state is by then.
pub fn set_hdr_target_states(targets: &[HdrTargetState]) -> (r: Vec<TargetChange>)
    ensures
        r@ == changes_back(targets@),
{
    let mut r: Vec<TargetChange> = Vec::new();
    let mut i: usize = 0;
    while i < targets.len()
        invariant
            i <= targets@.len(),
            r@.len() == i,
            forall|j: int| 0 <= j < i ==> r@[j] == changes_back(targets@)[j],
        decreases targets@.len() - i,
    {
        r.push(TargetChange { target: targets[i].target, enabled: targets[i].enabled });
        i = i + 1;
    }
    assert(r@ =~= changes_back(targets@));
    r
}

/// The changes that bring the displays back to a snapshot.
pub fn restore_hdr_targets(snapshot: &[HdrTargetState]) -> (r: Vec<TargetChange>)
    ensures
        r@ == changes_back(snapshot@),
{
    set_hdr_target_states(snapshot)
}

/// The changes that switch HDR: off everywhere where some display has it on, else on everywhere.
pub fn toggle_windows_hdr<E>(targets: Result<Vec<HdrTargetState>, E>) -> (r: Result<
    Vec<TargetChange>,
    E,
>)
    ensures
        match targets {
            Ok(targets) => r is Ok && r->Ok_0@ == changes_to(targets@, !any_enabled(targets@)),
            Err(e) => r == Err::<Vec<TargetChange>, E>(e),
        },
{
    match targets {
        Ok(targets) => {
            let on = some_enabled(targets.as_slice());
            Ok(set_hdr_targets_enabled(targets.as_slice(), !on))
        },
        Err(e) => Err(e),
    }
}

/// What came of changes that were all tried: the first failure, where there was one.
pub fn changes_result<E>(results: Vec<Result<(), E>>) -> (r: Result<(), E>)
    ensures
        r == (match seqs::first_error(results@) {
            Some(e) => Err::<(), E>(e),
            None => Ok(()),
        }),
{
    first_failure(results)
}

/// The changes to make when a game starts: HDR on on every display that has it off.
pub fn changes_for_game(snapshot: &[HdrTargetState]) -> (r: Vec<TargetChange>)
    ensures
        r@ == changes_to(snapshot@, true),
{
    set_hdr_targets_enabled(snapshot, true)
}

/// Some change was made.
pub open spec fn any_changed<E>(results: Seq<Result<(), E>>) -> bool {
    exists|i: int| 0 <= i < results.len() && #[trigger] results[i] is Ok
}

/// What came of turning HDR on for a game, from the displays before and from the results of the
/// changes: the snapshot to restore where some display was changed, else the first failure, else
/// nothing.
pub fn enable_hdr_for_game<E>(snapshot: Vec<HdrTargetState>, results: Vec<Result<(), E>>) -> (r:
    Result<Option<Vec<HdrTargetState>>, E>)
    ensures
        r == (if any_changed(results@) {
            Ok::<Option<Vec<HdrTargetState>>, E>(Some(snapshot))
        } else {
            match seqs::first_error(results@) {
                Some(e) => Err(e),
                None => Ok(None),
            }
        }),
{
    let mut changed = false;
    let mut i: usize = 0;
    while i < results.len()
        invariant
            i <= results@.len(),
            changed == (exists|j: int| 0 <= j < i && #[trigger] results@[j] is Ok),
        decreases results@.len() - i,
    {
        match &results[i] {
            Ok(_) => {
                assert(results@[i as int] is Ok);
                changed = true;
            },
            Err(_) => {},
        }
        i = i + 1;
    }
    if changed {
        return Ok(Some(snapshot));
    }
    match changes_result(results) {
        Ok(_) => Ok(None),
        Err(e) => Err(e),
    }
}

} // verus!
