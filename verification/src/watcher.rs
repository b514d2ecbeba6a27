//! When a change in the skills directory calls for a reload.

use crate::text::{ascii_lower, eq_ignore_ascii_case, lowered};
use std::path::PathBuf;
use vstd::prelude::*;
use vstd::string::*;

verus! {

/// `std::path::PathBuf`.
#[verifier::external_type_specification]
#[verifier::external_body]
pub struct ExPathBuf(std::path::PathBuf);

/// `PathBuf::clone` gives the same path again.
pub assume_specification[ <PathBuf as Clone>::clone ](path: &PathBuf) -> (copy: PathBuf)
    ensures
        copy == *path,
;

/// Tells the main thread that the skills should be loaded again.
#[derive(Debug)]
pub struct SkillReloadEvent {
    /// The file that triggered the reload.
    pub trigger_path: PathBuf,
}

impl Clone for SkillReloadEvent {
    fn clone(&self) -> (copy: Self)
        ensures
            copy == *self,
    {
        SkillReloadEvent { trigger_path: self.trigger_path.clone() }
    }
}

/// A path that changed.
pub struct ChangedPath {
    pub path: PathBuf,
    /// The last component of the path, where there is one and it is text.
    pub file_name: Option<String>,
}

/// How long after a reload further changes are ignored, in nanoseconds.
pub const DEBOUNCE_NANOS: u128 = 300_000_000;

/// Decides which changes are reported, and remembers when it last reported one.
pub struct Debouncer {
    last_event: Option<u128>,
}

impl View for Debouncer {
    type V = Option<nat>;

    /// When a change was last reported, in nanoseconds.
    closed spec fn view(&self) -> Option<nat> {
        match self.last_event {
            Some(at) => Some(at as nat),
            None => None,
        }
    }
}

/// `change` concerns a file named `SKILL.md`, in whatever ASCII case.
pub open spec fn is_skill_file(change: ChangedPath) -> bool {
    change.file_name matches Some(name) && lowered(name@) == lowered("SKILL.md"@)
}

/// One of `changes` concerns a skill file.
pub open spec fn relevant(changes: Seq<ChangedPath>) -> bool {
    exists|i: int| 0 <= i < changes.len() && is_skill_file(#[trigger] changes[i])
}

/// The place of the first of `changes` that concerns a skill file, counted from `from` on.
pub open spec fn first_skill_from(changes: Seq<ChangedPath>, from: int) -> int
    decreases changes.len() - from,
{
    if from >= changes.len() || is_skill_file(changes[from]) {
        from
    } else {
        first_skill_from(changes, from + 1)
    }
}

/// The place of the first of `changes` that concerns a skill file; their number, if none does.
pub open spec fn first_skill(changes: Seq<ChangedPath>) -> int {
    first_skill_from(changes, 0)
}

/// The time from `earlier` to `later`; none where they are the other way round.
pub open spec fn elapsed(earlier: nat, later: nat) -> nat {
    if earlier <= later {
        (later - earlier) as nat
    } else {
        0
    }
}

/// At `now`, changes are ignored because one was reported at `last`.
pub open spec fn muted(last: Option<nat>, now: nat) -> bool {
    last matches Some(at) && elapsed(at, now) < DEBOUNCE_NANOS
}

/// An event, as far as it counts here.
pub struct ChangeView {
    /// It concerns a skill file.
    pub relevant: bool,
    /// When it came.
    pub at: nat,
}

/// `change` is reported by a debouncer in state `last`.
pub open spec fn reported(last: Option<nat>, change: ChangeView) -> bool {
    change.relevant && !muted(last, change.at)
}

/// Where the first change to a skill file stands, there is one, and those before it are of other
/// files.
proof fn lemma_first_skill_from(changes: Seq<ChangedPath>, from: int)
    requires
        0 <= from <= changes.len(),
    ensures
        from <= first_skill_from(changes, from) <= changes.len(),
        first_skill_from(changes, from) < changes.len() ==> is_skill_file(
            changes[first_skill_from(changes, from)],
        ),
        forall|i: int|
            from <= i < first_skill_from(changes, from) ==> !is_skill_file(#[trigger] changes[i]),
    decreases changes.len() - from,
{
    if from < changes.len() && !is_skill_file(changes[from]) {
        lemma_first_skill_from(changes, from + 1);
    }
}

/// The first change to a skill file is one, no change before it is, and there is one exactly where
/// the changes are relevant.
pub proof fn first_skill_is_the_first(changes: Seq<ChangedPath>)
    ensures
        0 <= first_skill(changes) <= changes.len(),
        relevant(changes) <==> first_skill(changes) < changes.len(),
        first_skill(changes) < changes.len() ==> is_skill_file(changes[first_skill(changes)]),
        forall|i: int| 0 <= i < first_skill(changes) ==> !is_skill_file(#[trigger] changes[i]),
{
    lemma_first_skill_from(changes, 0);
}

/// The place of the first of `changes` that concerns a skill file.
fn find_skill(changes: &Vec<ChangedPath>) -> (place: Option<usize>)
    ensures
        match place {
            Some(i) => relevant(changes@) && i < changes@.len() && i == first_skill(changes@),
            None => !relevant(changes@),
        },
{
    let mut i: usize = 0;
    while i < changes.len()
        invariant
            i <= changes.len(),
            forall|j: int| 0 <= j < i ==> !is_skill_file(#[trigger] changes@[j]),
            first_skill(changes@) == first_skill_from(changes@, i as int),
        decreases changes.len() - i,
    {
        if let Some(name) = &changes[i].file_name {
            if eq_ignore_ascii_case(name, "SKILL.md") {
                assert(is_skill_file(changes@[i as int]));
                return Some(i);
            }
        }
        i = i + 1;
    }
    None
}

/// Whether one of `changes` concerns a skill file.
pub fn is_relevant(changes: &Vec<ChangedPath>) -> (yes: bool)
    ensures
        yes == relevant(changes@),
{
    find_skill(changes).is_some()
}

impl Debouncer {
    /// A debouncer that has not reported anything.
    pub fn new() -> (debouncer: Self)
        ensures
            debouncer@ == None::<nat>,
    {
        Debouncer { last_event: None }
    }

    /// Takes in a file system event that came at `now`, in nanoseconds of a clock that never runs
    /// back. A change to a skill file is reported, unless one was reported just before; the report
    /// names that file, or the first of them.
    pub fn on_event(&mut self, changes: Vec<ChangedPath>, now: u128) -> (event: Option<
        SkillReloadEvent,
    >)
        ensures
            event is Some <==> reported(
                old(self)@,
                (ChangeView { relevant: relevant(changes@), at: now as nat }),
            ),
            event matches Some(e) ==> exists|i: int|
                0 <= i < changes@.len() && is_skill_file(#[trigger] changes@[i]) && e.trigger_path
                    == changes@[i].path && forall|j: int|
                    0 <= j < i ==> !is_skill_file(#[trigger] changes@[j]),
            event matches Some(e) ==> {
                &&& e.trigger_path == changes@[first_skill(changes@)].path
                &&& final(self)@ == Some(now as nat)
            },
            event is None ==> final(self)@ == old(self)@,
    {
        let place = match find_skill(&changes) {
            Some(place) => place,
            None => {
                return None;
            },
        };
        if let Some(last) = self.last_event {
            let since: u128 = if last <= now {
                now - last
            } else {
                0
            };
            if since < DEBOUNCE_NANOS {
                return None;
            }
        }
        self.last_event = Some(now);
        proof {
            first_skill_is_the_first(changes@);
        }
        let mut changes = changes;
        let trigger = changes.remove(place);
        Some(SkillReloadEvent { trigger_path: trigger.path })
    }
}

// ---- laws ----

/// The state of a debouncer that has taken in `changes`.
pub open spec fn last_report(changes: Seq<ChangeView>) -> Option<nat>
    decreases changes.len(),
{
    if changes.len() == 0 {
        None
    } else {
        let last = last_report(changes.drop_last());
        if reported(last, changes.last()) {
            Some(changes.last().at)
        } else {
            last
        }
    }
}

/// When the changes among `changes` came that a debouncer reports.
pub open spec fn report_times(changes: Seq<ChangeView>) -> Seq<nat>
    decreases changes.len(),
{
    if changes.len() == 0 {
        Seq::empty()
    } else {
        let earlier = report_times(changes.drop_last());
        if reported(last_report(changes.drop_last()), changes.last()) {
            earlier.push(changes.last().at)
        } else {
            earlier
        }
    }
}

/// The changes come in the order of time.
pub open spec fn in_order(changes: Seq<ChangeView>) -> bool {
    forall|i: int, j: int| 0 <= i <= j < changes.len() ==> (#[trigger] changes[i]).at <= (#[trigger] changes[j]).at
}

proof fn lemma_last_report(changes: Seq<ChangeView>)
    requires
        in_order(changes),
    ensures
        last_report(changes) == (if report_times(changes).len() == 0 {
            None
        } else {
            Some(report_times(changes).last())
        }),
        forall|i: int|
            0 <= i < report_times(changes).len() ==> changes.len() > 0 && #[trigger] report_times(changes)[i]
                <= changes.last().at,
    decreases changes.len(),
{
    if changes.len() > 0 {
        assert(in_order(changes.drop_last()));
        lemma_last_report(changes.drop_last());
        if changes.len() > 1 {
            assert(changes[changes.len() - 2].at <= changes.last().at);
        }
    }
}

/// Two reports are never closer to each other than the debounce time.
pub proof fn reports_keep_their_distance(changes: Seq<ChangeView>, i: int, j: int)
    requires
        in_order(changes),
        0 <= i < j < report_times(changes).len(),
    ensures
        report_times(changes)[i] + DEBOUNCE_NANOS <= report_times(changes)[j],
    decreases changes.len(),
{
    let earlier = changes.drop_last();
    assert(in_order(earlier));
    lemma_last_report(earlier);
    lemma_last_report(changes);
    if j < report_times(earlier).len() {
        reports_keep_their_distance(earlier, i, j);
    } else {
        let n = report_times(earlier).len();
        if i < n - 1 {
            reports_keep_their_distance(earlier, i, n - 1);
        }
        if earlier.len() > 0 {
            assert(changes[earlier.len() - 1].at <= changes.last().at);
        }
    }
}

/// No change to a skill file goes by unheard: it is reported, or another one was reported less than
/// the debounce time before.
pub proof fn every_relevant_change_is_heard(changes: Seq<ChangeView>, k: int)
    requires
        in_order(changes),
        0 <= k < changes.len(),
        changes[k].relevant,
    ensures
        exists|i: int|
            0 <= i < report_times(changes).len() && (#[trigger] report_times(changes)[i]) <= changes[k].at
                < report_times(changes)[i] + DEBOUNCE_NANOS,
    decreases changes.len(),
{
    let earlier = changes.drop_last();
    assert(in_order(earlier));
    lemma_last_report(earlier);
    let times = report_times(earlier);
    if k < earlier.len() {
        every_relevant_change_is_heard(earlier, k);
        let i = choose|i: int|
            0 <= i < times.len() && (#[trigger] times[i]) <= earlier[k].at < times[i] + DEBOUNCE_NANOS;
        assert(report_times(changes)[i] == times[i]);
    } else if reported(last_report(earlier), changes.last()) {
        let i = times.len() as int;
        assert(report_times(changes)[i] == changes[k].at);
    } else {
        let i = times.len() - 1;
        if earlier.len() > 0 {
            assert(changes[earlier.len() - 1].at <= changes.last().at);
        }
        assert(report_times(changes)[i] == times[i]);
    }
}

/// Changes to other files have no influence on what is reported.
pub proof fn other_files_do_not_count(changes: Seq<ChangeView>)
    ensures
        report_times(changes) == report_times(changes.filter(|change: ChangeView| change.relevant)),
        last_report(changes) == last_report(changes.filter(|change: ChangeView| change.relevant)),
    decreases changes.len(),
{
    reveal(Seq::filter);
    if changes.len() > 0 {
        let kept = changes.drop_last().filter(|change: ChangeView| change.relevant);
        other_files_do_not_count(changes.drop_last());
        if changes.last().relevant {
            assert(kept.push(changes.last()).drop_last() =~= kept);
        }
    }
}

/// A skill file has a name of eight characters, `S`, `K`, `I`, `L`, `L`, a dot, `m` and `d`, each
/// letter in either case; a file of any other name, and what has no name, is none.
pub proof fn skill_files_are_known_by_eight_letters(change: ChangedPath)
    ensures
        is_skill_file(change) <==> (change.file_name matches Some(name) && {
            &&& name@.len() == 8
            &&& name@[0] == 'S' || name@[0] == 's'
            &&& name@[1] == 'K' || name@[1] == 'k'
            &&& name@[2] == 'I' || name@[2] == 'i'
            &&& name@[3] == 'L' || name@[3] == 'l'
            &&& name@[4] == 'L' || name@[4] == 'l'
            &&& name@[5] == '.'
            &&& name@[6] == 'M' || name@[6] == 'm'
            &&& name@[7] == 'D' || name@[7] == 'd'
        }),
{
    reveal_strlit("SKILL.md");
    if let Some(name) = change.file_name {
        let skill = "SKILL.md"@;
        assert(skill.len() == 8);
        assert(skill[0] == 'S' && skill[1] == 'K' && skill[2] == 'I' && skill[3] == 'L');
        assert(skill[4] == 'L' && skill[5] == '.' && skill[6] == 'm' && skill[7] == 'd');
        let n = name@;
        assert(lowered(n).len() == n.len() && lowered(skill).len() == 8);
        if n.len() == 8 {
            lemma_either_case(n[0], 'S');
            lemma_either_case(n[1], 'K');
            lemma_either_case(n[2], 'I');
            lemma_either_case(n[3], 'L');
            lemma_either_case(n[4], 'L');
            lemma_either_case(n[5], '.');
            lemma_either_case(n[6], 'm');
            lemma_either_case(n[7], 'd');
            if is_skill_file(change) {
                assert forall|i: int| 0 <= i < 8 implies ascii_lower(#[trigger] n[i]) == ascii_lower(
                    skill[i],
                ) by {
                    assert(lowered(n)[i] == lowered(skill)[i]);
                }
            } else if ascii_lower(n[0]) == 's' && ascii_lower(n[1]) == 'k' && ascii_lower(n[2]) == 'i'
                && ascii_lower(n[3]) == 'l' && ascii_lower(n[4]) == 'l' && ascii_lower(n[5]) == '.'
                && ascii_lower(n[6]) == 'm' && ascii_lower(n[7]) == 'd' {
                assert(lowered(n) =~= lowered(skill));
            }
        }
    }
}

proof fn lemma_either_case(c: char, letter: char)
    ensures
        'A' <= letter <= 'Z' ==> (ascii_lower(c) == ascii_lower(letter) <==> c == letter || c
            == ascii_lower(letter)),
        'a' <= letter <= 'z' ==> (ascii_lower(c) == letter <==> c == letter || c == (letter as u32
            - 32) as char),
        letter == '.' ==> (ascii_lower(c) == letter <==> c == letter),
        ascii_lower('S') == 's' && ascii_lower('K') == 'k' && ascii_lower('I') == 'i',
        ascii_lower('L') == 'l' && ascii_lower('.') == '.' && ascii_lower('m') == 'm',
        ascii_lower('d') == 'd',
{
}

/// A row of changes is relevant as soon as one of them concerns a skill file, and where none does it
/// is never reported, whenever it comes and whatever was reported before.
pub proof fn only_skill_files_are_reported(
    changes: Seq<ChangedPath>,
    i: int,
    last: Option<nat>,
    now: nat,
)
    ensures
        0 <= i < changes.len() && is_skill_file(changes[i]) ==> relevant(changes),
        (forall|j: int| 0 <= j < changes.len() ==> !is_skill_file(#[trigger] changes[j])) ==> {
            &&& !relevant(changes)
            &&& !reported(last, ChangeView { relevant: relevant(changes), at: now })
        },
{
}

/// The first change to a skill file is always reported, and after a report the next one exactly
/// where three tenths of a second or more have gone by.
pub proof fn reports_wait_three_tenths_of_a_second(last: nat, now: nat)
    ensures
        reported(None, ChangeView { relevant: true, at: now }),
        reported(Some(last), ChangeView { relevant: true, at: now }) <==> last + 300_000_000 <= now,
        !reported(None, ChangeView { relevant: false, at: now }),
        !reported(Some(last), ChangeView { relevant: false, at: now }),
{
}

} // verus!
