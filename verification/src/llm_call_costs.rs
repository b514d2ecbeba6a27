//! What the calls of each alias have cost since the costs were last drained.

use crate::string_map::StringMap;
use vstd::prelude::*;

verus! {

/// A sum of costs in hundred-millionths of a US dollar, with room for as many of them as there can
/// be calls.
#[derive(Debug, Clone, Copy, PartialEq, Eq, Structural)]
pub struct Cost {
    /// The sum, less what `high` stands for.
    pub low: u128,
    /// How often `low` has run over, at one more than `u128::MAX` each time.
    pub high: u32,
}

impl View for Cost {
    type V = nat;

    open spec fn view(&self) -> nat {
        self.low as nat + self.high as nat * 0x1_0000_0000_0000_0000_0000_0000_0000_0000nat
    }
}

impl Cost {
    /// The sum with `amount` more.
    pub fn plus(self, amount: u128) -> (sum: Cost)
        requires
            self.high < u32::MAX,
        ensures
            sum@ == self@ + amount,
            sum.high <= self.high + 1,
    {
        match self.low.checked_add(amount) {
            Some(low) => Cost { low, high: self.high },
            None => {
                let left: u128 = u128::MAX - self.low;
                Cost { low: amount - left - 1, high: self.high + 1 }
            },
        }
    }
}

/// The costs of one alias.
#[derive(Debug, Clone, Copy)]
pub struct AliasCostEntry {
    pub calls: u32,
    pub tokens_in: u64,
    pub tokens_out: u64,
    /// Estimated cost in hundred-millionths of a US dollar.
    pub cost_usd_e8: Cost,
}

/// The costs of one alias, as numbers without a bound.
pub struct EntryView {
    pub calls: nat,
    pub tokens_in: nat,
    pub tokens_out: nat,
    pub cost: nat,
}

impl View for AliasCostEntry {
    type V = EntryView;

    open spec fn view(&self) -> EntryView {
        EntryView {
            calls: self.calls as nat,
            tokens_in: self.tokens_in as nat,
            tokens_out: self.tokens_out as nat,
            cost: self.cost_usd_e8@,
        }
    }
}

impl Default for AliasCostEntry {
    fn default() -> (entry: Self)
        ensures
            entry@ == no_costs(),
    {
        let cost_usd_e8 = Cost { low: 0, high: 0 };
        AliasCostEntry { calls: 0, tokens_in: 0, tokens_out: 0, cost_usd_e8 }
    }
}

/// The costs by alias, in the order of the aliases.
pub type AliasMap = StringMap<AliasCostEntry>;

/// One call, as it is reported.
pub struct ReportView {
    pub alias: Seq<char>,
    pub tokens_in: nat,
    pub tokens_out: nat,
    pub cost: nat,
}

/// The costs of an alias of which nothing was reported.
pub open spec fn no_costs() -> EntryView {
    EntryView { calls: 0, tokens_in: 0, tokens_out: 0, cost: 0 }
}

/// The costs by alias that a map holds.
pub open spec fn totals(ledger: AliasMap) -> Map<Seq<char>, EntryView> {
    ledger@.map_values(|entry: AliasCostEntry| entry@)
}

/// The costs of `alias`.
pub open spec fn costs_of(ledger: Map<Seq<char>, EntryView>, alias: Seq<char>) -> EntryView {
    if ledger.dom().contains(alias) {
        ledger[alias]
    } else {
        no_costs()
    }
}

/// The costs of an alias with one call more.
pub open spec fn with_call(entry: EntryView, report: ReportView) -> EntryView {
    EntryView {
        calls: entry.calls + 1,
        tokens_in: entry.tokens_in + report.tokens_in,
        tokens_out: entry.tokens_out + report.tokens_out,
        cost: entry.cost + report.cost,
    }
}

/// The costs by alias with one call more.
pub open spec fn posted(ledger: Map<Seq<char>, EntryView>, report: ReportView) -> Map<
    Seq<char>,
    EntryView,
> {
    ledger.insert(report.alias, with_call(costs_of(ledger, report.alias), report))
}

/// The counters of an entry fit in their fields. Its cost always does.
pub open spec fn fits(entry: EntryView) -> bool {
    &&& entry.calls <= u32::MAX
    &&& entry.tokens_in <= u64::MAX
    &&& entry.tokens_out <= u64::MAX
}

/// The map is in order, and no cost has run over more often than its alias was called.
pub open spec fn ledger_wf(ledger: AliasMap) -> bool {
    &&& ledger.wf()
    &&& forall|alias: Seq<char>| #[trigger]
        ledger@.dom().contains(alias) ==> ledger@[alias].cost_usd_e8.high <= ledger@[alias].calls
}

/// There is room for `report`: no counter of its alias would overflow.
pub open spec fn has_room(ledger: Map<Seq<char>, EntryView>, report: ReportView) -> bool {
    fits(with_call(costs_of(ledger, report.alias), report))
}

/// Whether a call can be reported without an overflow, whatever it cost.
pub fn can_report(ledger: &AliasMap, alias: &str, tokens_in: u64, tokens_out: u64) -> (yes: bool)
    requires
        ledger.wf(),
    ensures
        forall|cost: nat|
            yes == #[trigger] has_room(
                totals(*ledger),
                ReportView {
                    alias: alias@,
                    tokens_in: tokens_in as nat,
                    tokens_out: tokens_out as nat,
                    cost,
                },
            ),
{
    match ledger.get(alias) {
        Some(entry) => entry.calls < u32::MAX && tokens_in <= u64::MAX - entry.tokens_in && tokens_out
            <= u64::MAX - entry.tokens_out,
        None => true,
    }
}

/// Adds a successful call to the costs of its alias.
pub fn report(
    ledger: &mut AliasMap,
    alias: &str,
    tokens_in: u64,
    tokens_out: u64,
    cost_usd_e8: u128,
)
    requires
        ledger_wf(*old(ledger)),
        has_room(
            totals(*old(ledger)),
            (ReportView {
                alias: alias@,
                tokens_in: tokens_in as nat,
                tokens_out: tokens_out as nat,
                cost: cost_usd_e8 as nat,
            }),
        ),
    ensures
        ledger_wf(*final(ledger)),
        totals(*final(ledger)) == posted(
            totals(*old(ledger)),
            (ReportView {
                alias: alias@,
                tokens_in: tokens_in as nat,
                tokens_out: tokens_out as nat,
                cost: cost_usd_e8 as nat,
            }),
        ),
{
    let ghost before = *ledger;
    let mut entry = match ledger.get(alias) {
        Some(entry) => *entry,
        None => AliasCostEntry::default(),
    };
    assert(entry@ == costs_of(totals(before), alias@));
    entry.calls = entry.calls + 1;
    entry.tokens_in = entry.tokens_in + tokens_in;
    entry.tokens_out = entry.tokens_out + tokens_out;
    entry.cost_usd_e8 = entry.cost_usd_e8.plus(cost_usd_e8);
    ledger.insert(alias.to_owned(), entry);
    assert(totals(*ledger) =~= totals(before).insert(alias@, entry@));
}

/// Takes the costs out and starts anew from nothing.
pub fn drain(ledger: &mut AliasMap) -> (drained: AliasMap)
    requires
        ledger_wf(*old(ledger)),
    ensures
        ledger_wf(drained),
        drained@ == old(ledger)@,
        ledger_wf(*final(ledger)),
        final(ledger)@ == Map::<Seq<char>, AliasCostEntry>::empty(),
{
    let mut drained: AliasMap = StringMap::new();
    std::mem::swap(ledger, &mut drained);
    drained
}

/// A copy of the costs, which stay as they are.
pub fn peek(ledger: &AliasMap) -> (snapshot: AliasMap)
    requires
        ledger_wf(*ledger),
    ensures
        ledger_wf(snapshot),
        snapshot@ == ledger@,
{
    ledger.copied()
}

// ---- laws ----

/// The costs after `reports`, from nothing on.
pub open spec fn after_all(reports: Seq<ReportView>) -> Map<Seq<char>, EntryView>
    decreases reports.len(),
{
    if reports.len() == 0 {
        Map::empty()
    } else {
        posted(after_all(reports.drop_last()), reports.last())
    }
}

/// The reports that concern `alias`.
pub open spec fn reports_of(reports: Seq<ReportView>, alias: Seq<char>) -> Seq<ReportView> {
    reports.filter(|report: ReportView| report.alias == alias)
}

/// The sum of a number over `reports`.
pub open spec fn sum_of(reports: Seq<ReportView>, number: spec_fn(ReportView) -> nat) -> nat
    decreases reports.len(),
{
    if reports.len() == 0 {
        0
    } else {
        sum_of(reports.drop_last(), number) + number(reports.last())
    }
}

/// What is drained is what was reported: an entry for each alias that occurs in the reports, with
/// the number of its calls and the sums of their tokens and costs.
pub proof fn ledger_holds_what_was_reported(reports: Seq<ReportView>, alias: Seq<char>)
    ensures
        after_all(reports).dom().contains(alias) <==> reports_of(reports, alias).len() > 0,
        costs_of(after_all(reports), alias) == (EntryView {
            calls: reports_of(reports, alias).len(),
            tokens_in: sum_of(reports_of(reports, alias), |report: ReportView| report.tokens_in),
            tokens_out: sum_of(reports_of(reports, alias), |report: ReportView| report.tokens_out),
            cost: sum_of(reports_of(reports, alias), |report: ReportView| report.cost),
        }),
    decreases reports.len(),
{
    reveal(Seq::filter);
    if reports.len() > 0 {
        ledger_holds_what_was_reported(reports.drop_last(), alias);
        let earlier = reports_of(reports.drop_last(), alias);
        if reports.last().alias == alias {
            assert(reports_of(reports, alias) == earlier.push(reports.last()));
            assert(earlier.push(reports.last()).drop_last() =~= earlier);
        }
    }
}

/// The order in which two calls are reported does not count.
pub proof fn report_order_does_not_count(
    ledger: Map<Seq<char>, EntryView>,
    first: ReportView,
    second: ReportView,
)
    ensures
        posted(posted(ledger, first), second) == posted(posted(ledger, second), first),
{
    assert(posted(posted(ledger, first), second) =~= posted(posted(ledger, second), first));
}

/// A report leaves the costs of every other alias as they are.
pub proof fn report_touches_one_alias(
    ledger: Map<Seq<char>, EntryView>,
    report: ReportView,
    other: Seq<char>,
)
    requires
        other != report.alias,
    ensures
        posted(ledger, report).dom().contains(other) == ledger.dom().contains(other),
        costs_of(posted(ledger, report), other) == costs_of(ledger, other),
{
}

/// Nothing is lost or counted twice by draining in between: what two drains give for an alias adds
/// up to what one drain at the end would have given.
pub proof fn draining_in_between_loses_nothing(
    earlier: Seq<ReportView>,
    later: Seq<ReportView>,
    alias: Seq<char>,
)
    ensures
        ({
            let a = costs_of(after_all(earlier), alias);
            let b = costs_of(after_all(later), alias);
            costs_of(after_all(earlier + later), alias) == (EntryView {
                calls: a.calls + b.calls,
                tokens_in: a.tokens_in + b.tokens_in,
                tokens_out: a.tokens_out + b.tokens_out,
                cost: a.cost + b.cost,
            })
        }),
    decreases later.len(),
{
    if later.len() == 0 {
        assert(earlier + later =~= earlier);
    } else {
        assert((earlier + later).drop_last() =~= earlier + later.drop_last());
        assert((earlier + later).last() == later.last());
        draining_in_between_loses_nothing(earlier, later.drop_last(), alias);
    }
}

/// A report adds one call, its tokens and its cost to what its alias had, or begins with them, and
/// leaves every other alias as it was.
pub proof fn reports_add_to_their_alias(
    ledger: Map<Seq<char>, EntryView>,
    report: ReportView,
    other: Seq<char>,
)
    ensures
        ({
            let after = posted(ledger, report);
            &&& after.dom() == ledger.dom().insert(report.alias)
            &&& ledger.dom().contains(report.alias) ==> {
                let had = ledger[report.alias];
                &&& after[report.alias].calls == had.calls + 1
                &&& after[report.alias].tokens_in == had.tokens_in + report.tokens_in
                &&& after[report.alias].tokens_out == had.tokens_out + report.tokens_out
                &&& after[report.alias].cost == had.cost + report.cost
            }
            &&& !ledger.dom().contains(report.alias) ==> {
                &&& after[report.alias].calls == 1
                &&& after[report.alias].tokens_in == report.tokens_in
                &&& after[report.alias].tokens_out == report.tokens_out
                &&& after[report.alias].cost == report.cost
            }
            &&& other != report.alias && ledger.dom().contains(other) ==> after[other]
                == ledger[other]
        }),
{
}

/// There is room for a report exactly where neither its alias was called as often as 32 bits can
/// count, nor its tokens would go beyond 64 bits; the cost is no hindrance.
pub proof fn room_is_a_matter_of_the_counters(
    ledger: Map<Seq<char>, EntryView>,
    report: ReportView,
)
    ensures
        ledger.dom().contains(report.alias) ==> (has_room(ledger, report) <==> {
            let had = ledger[report.alias];
            &&& had.calls < 0xFFFF_FFFF
            &&& had.tokens_in + report.tokens_in <= 0xFFFF_FFFF_FFFF_FFFF
            &&& had.tokens_out + report.tokens_out <= 0xFFFF_FFFF_FFFF_FFFF
        }),
        !ledger.dom().contains(report.alias) ==> (has_room(ledger, report) <==> report.tokens_in
            <= 0xFFFF_FFFF_FFFF_FFFF && report.tokens_out <= 0xFFFF_FFFF_FFFF_FFFF),
{
}

/// The costs of each alias are seen with all their numbers, and no alias is left out.
pub proof fn costs_are_seen_whole(ledger: AliasMap, alias: Seq<char>)
    ensures
        totals(ledger).dom() == ledger@.dom(),
        ledger@.dom().contains(alias) ==> {
            let entry = ledger@[alias];
            &&& totals(ledger)[alias].calls == entry.calls
            &&& totals(ledger)[alias].tokens_in == entry.tokens_in
            &&& totals(ledger)[alias].tokens_out == entry.tokens_out
            &&& totals(ledger)[alias].cost == entry.cost_usd_e8.low
                + 0x1_0000_0000_0000_0000_0000_0000_0000_0000int * entry.cost_usd_e8.high
        },
        ledger@.dom().contains(alias) ==> costs_of(totals(ledger), alias) == totals(ledger)[alias],
        !ledger@.dom().contains(alias) ==> {
            let none = costs_of(totals(ledger), alias);
            none.calls == 0 && none.tokens_in == 0 && none.tokens_out == 0 && none.cost == 0
        },
{
    assert(totals(ledger).dom() =~= ledger@.dom());
}

/// A map without entries can be reported to, and holds no costs.
pub proof fn empty_ledgers_can_be_reported_to(ledger: AliasMap)
    requires
        ledger.wf(),
        ledger@.dom() == Set::<Seq<char>>::empty(),
    ensures
        ledger_wf(ledger),
        totals(ledger) == Map::<Seq<char>, EntryView>::empty(),
{
    assert(totals(ledger) =~= Map::<Seq<char>, EntryView>::empty());
}

} // verus!
