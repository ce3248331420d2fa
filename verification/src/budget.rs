//! Zero-based paycheck budgeting: entries of a pay period, their totals and the
//! waterfall that shows how the income is spent.

use vstd::prelude::*;
use vstd::string::StringExecFns;
use crate::currency::{spec_dollars_to_pennies, dollars_to_pennies, fits_i64};
use crate::dates::{PlainDate, date_before};

verus! {

/// Whether a budget entry brings money in or sends it out.
#[derive(Debug, Clone, Copy, PartialEq, Eq)]
pub enum EntryType {
    Income,
    Expense,
}

impl EntryType {
    /// The stored and displayed name of the entry type.
    pub open spec fn spec_name(self) -> Seq<char> {
        match self {
            EntryType::Income => "income"@,
            EntryType::Expense => "expense"@,
        }
    }

    /// The stored and displayed name of the entry type: `"income"` or `"expense"`.
    pub fn as_str(&self) -> (r: &'static str)
        ensures
            r@ == self.spec_name(),
    {
        match self {
            EntryType::Income => "income",
            EntryType::Expense => "expense",
        }
    }
}

/// One line of a pay period's budget; the amount is in pennies.
#[derive(Debug)]
pub struct BudgetEntry {
    pub id: i64,
    pub label: String,
    pub amount: i64,
    pub entry_type: EntryType,
}

/// The sum of the amounts of the entries of the given type.
pub open spec fn total_of(es: Seq<BudgetEntry>, t: EntryType) -> int
    decreases es.len(),
{
    if es.len() == 0 {
        0
    } else {
        total_of(es.drop_last(), t) + (if es.last().entry_type == t { es.last().amount as int } else { 0 })
    }
}

/// Income counted up, expenses counted down.
pub open spec fn net_total(es: Seq<BudgetEntry>) -> int
    decreases es.len(),
{
    if es.len() == 0 {
        0
    } else {
        net_total(es.drop_last()) + (match es.last().entry_type {
            EntryType::Income => es.last().amount as int,
            EntryType::Expense => -(es.last().amount as int),
        })
    }
}

/// Totals add up over any split of the entries: the total of one list followed
/// by another is the sum of their totals, for income, for expenses and for what
/// remains. In particular one more entry changes its own type's total by
/// exactly its amount and leaves the other total as it was.
pub proof fn law_totals_are_additive(a: Seq<BudgetEntry>, b: Seq<BudgetEntry>, e: BudgetEntry)
    ensures
        total_of(a + b, EntryType::Income) == total_of(a, EntryType::Income) + total_of(b, EntryType::Income),
        total_of(a + b, EntryType::Expense) == total_of(a, EntryType::Expense) + total_of(b, EntryType::Expense),
        net_total(a + b) == net_total(a) + net_total(b),
        total_of(a.push(e), e.entry_type) == total_of(a, e.entry_type) + e.amount,
        e.entry_type == EntryType::Income ==> total_of(a.push(e), EntryType::Expense) == total_of(a, EntryType::Expense),
        e.entry_type == EntryType::Expense ==> total_of(a.push(e), EntryType::Income) == total_of(a, EntryType::Income),
        total_of(Seq::<BudgetEntry>::empty(), EntryType::Income) == 0,
        total_of(Seq::<BudgetEntry>::empty(), EntryType::Expense) == 0,
    decreases b.len(),
{
    if b.len() > 0 {
        law_totals_are_additive(a, b.drop_last(), e);
        assert((a + b).drop_last() =~= a + b.drop_last());
        assert((a + b).last() == b.last());
    } else {
        assert(a + b =~= a);
    }
    assert(a.push(e).drop_last() =~= a);
}

/// Every running total of the income and of the expenses fits in an `i64`,
/// and so does what remains.
pub open spec fn totals_fit(es: Seq<BudgetEntry>) -> bool {
    &&& forall|k: int| 0 <= k <= es.len() ==> fits_i64(#[trigger] total_of(es.take(k), EntryType::Income))
    &&& forall|k: int| 0 <= k <= es.len() ==> fits_i64(#[trigger] total_of(es.take(k), EntryType::Expense))
    &&& fits_i64(total_of(es, EntryType::Income) - total_of(es, EntryType::Expense))
}

/// The footer of a budget table.
#[derive(Debug, Clone, Copy, PartialEq, Eq)]
pub struct BudgetTotals {
    pub income: i64,
    pub expenses: i64,
    pub remaining: i64,
}

/// Sums the income and the expenses of a pay period; what remains is their difference.
pub fn budget_totals(entries: &Vec<BudgetEntry>) -> (r: BudgetTotals)
    requires
        totals_fit(entries@),
    ensures
        r.income == total_of(entries@, EntryType::Income),
        r.expenses == total_of(entries@, EntryType::Expense),
        r.remaining == r.income - r.expenses,
{
    let mut income: i64 = 0;
    let mut expenses: i64 = 0;
    let mut i: usize = 0;
    while i < entries.len()
        invariant
            i <= entries@.len(),
            totals_fit(entries@),
            income == total_of(entries@.take(i as int), EntryType::Income),
            expenses == total_of(entries@.take(i as int), EntryType::Expense),
        decreases entries.len() - i,
    {
        let e = &entries[i];
        assert(entries@.take(i + 1).drop_last() =~= entries@.take(i as int));
        assert(fits_i64(total_of(entries@.take(i + 1), EntryType::Income)));
        assert(fits_i64(total_of(entries@.take(i + 1), EntryType::Expense)));
        match e.entry_type {
            EntryType::Income => { income = income + e.amount; },
            EntryType::Expense => { expenses = expenses + e.amount; },
        }
        i = i + 1;
    }
    assert(entries@.take(entries@.len() as int) =~= entries@);
    BudgetTotals { income, expenses, remaining: income - expenses }
}


/// One bar of the waterfall chart: it spans the running total from `start` to `end`.
#[derive(Debug)]
pub struct Bar {
    pub label: String,
    pub start: i64,
    pub end: i64,
    pub kind: EntryType,
}

/// Every running total of the waterfall fits in an `i64`, and no expense is
/// `i64::MIN` (which cannot be negated).
pub open spec fn waterfall_fits(es: Seq<BudgetEntry>) -> bool {
    &&& forall|k: int| 0 <= k <= es.len() ==> fits_i64(#[trigger] net_total(es.take(k)))
    &&& forall|i: int| 0 <= i < es.len() && (#[trigger] es[i]).entry_type == EntryType::Expense
            ==> es[i].amount != i64::MIN
}

/// The bars of the waterfall of `es`: one per entry, in order, each starting
/// where the previous one ended (income goes up, expenses go down), and a
/// final `Remaining` bar from zero to the net total.
pub open spec fn is_waterfall(es: Seq<BudgetEntry>, bars: Seq<Bar>) -> bool {
    &&& bars.len() == es.len() + 1
    &&& forall|i: int| 0 <= i < es.len() ==> {
        &&& (#[trigger] bars[i]).start == net_total(es.take(i))
        &&& bars[i].end == net_total(es.take(i + 1))
        &&& bars[i].label@ == es[i].label@
        &&& bars[i].kind == es[i].entry_type
    }
    &&& bars.last().label@ == "Remaining"@
    &&& bars.last().start == 0
    &&& bars.last().end == net_total(es)
    &&& bars.last().kind == (if net_total(es) >= 0 { EntryType::Income } else { EntryType::Expense })
}

/// Builds the waterfall of a pay period: income adds to the running total,
/// expenses subtract from it, and the last bar shows what remains.
pub fn waterfall_bars(entries: &Vec<BudgetEntry>) -> (bars: Vec<Bar>)
    requires
        waterfall_fits(entries@),
    ensures
        is_waterfall(entries@, bars@),
{
    let mut bars: Vec<Bar> = Vec::new();
    let mut running: i64 = 0;
    let mut i: usize = 0;
    while i < entries.len()
        invariant
            i <= entries@.len(),
            waterfall_fits(entries@),
            running == net_total(entries@.take(i as int)),
            bars@.len() == i,
            forall|j: int| 0 <= j < i ==> {
                &&& (#[trigger] bars@[j]).start == net_total(entries@.take(j))
                &&& bars@[j].end == net_total(entries@.take(j + 1))
                &&& bars@[j].label@ == entries@[j].label@
                &&& bars@[j].kind == entries@[j].entry_type
            },
        decreases entries.len() - i,
    {
        let e = &entries[i];
        assert(entries@.take(i + 1).drop_last() =~= entries@.take(i as int));
        assert(fits_i64(net_total(entries@.take(i + 1))));
        let delta: i64 = match e.entry_type {
            EntryType::Income => e.amount,
            EntryType::Expense => -e.amount,
        };
        let start = running;
        running = running + delta;
        bars.push(Bar { label: e.label.clone(), start, end: running, kind: e.entry_type });
        i = i + 1;
    }
    assert(entries@.take(entries@.len() as int) =~= entries@);
    let kind = if running >= 0 { EntryType::Income } else { EntryType::Expense };
    bars.push(Bar { label: String::from_str("Remaining"), start: 0, end: running, kind });
    bars
}

/// The highest point of the chart: zero or the top of the highest bar.
pub open spec fn chart_top(bars: Seq<Bar>) -> int
    decreases bars.len(),
{
    if bars.len() == 0 {
        0
    } else {
        let t = chart_top(bars.drop_last());
        let b = bars.last();
        let hi = if b.start >= b.end { b.start as int } else { b.end as int };
        if t >= hi { t } else { hi }
    }
}

/// The lowest point of the chart: zero or the bottom of the lowest bar.
pub open spec fn chart_bottom(bars: Seq<Bar>) -> int
    decreases bars.len(),
{
    if bars.len() == 0 {
        0
    } else {
        let t = chart_bottom(bars.drop_last());
        let b = bars.last();
        let lo = if b.start <= b.end { b.start as int } else { b.end as int };
        if t <= lo { t } else { lo }
    }
}

/// The zero line is always on the chart: its bottom is never above zero and its
/// top never below, whatever the bars.
pub proof fn law_chart_includes_zero(bars: Seq<Bar>)
    ensures
        chart_bottom(bars) <= 0 <= chart_top(bars),
    decreases bars.len(),
{
    if bars.len() > 0 {
        law_chart_includes_zero(bars.drop_last());
    }
}

/// The highest point a bar reaches.
pub open spec fn bar_high(b: Bar) -> int {
    if b.start >= b.end { b.start as int } else { b.end as int }
}

/// The lowest point a bar reaches.
pub open spec fn bar_low(b: Bar) -> int {
    if b.start <= b.end { b.start as int } else { b.end as int }
}

/// The chart's extent holds every bar: no bar reaches above its top or below
/// its bottom. And the extent is no larger than it must be: its top is zero or
/// the highest point of some bar, its bottom zero or the lowest point of some bar.
pub proof fn law_chart_extent_holds_every_bar(bars: Seq<Bar>)
    ensures
        forall|i: int| 0 <= i < bars.len() ==> chart_bottom(bars) <= bar_low(#[trigger] bars[i])
            && bar_high(bars[i]) <= chart_top(bars),
        chart_top(bars) == 0 || exists|i: int| 0 <= i < bars.len() && bar_high(#[trigger] bars[i]) == chart_top(bars),
        chart_bottom(bars) == 0 || exists|i: int| 0 <= i < bars.len() && bar_low(#[trigger] bars[i]) == chart_bottom(bars),
    decreases bars.len(),
{
    if bars.len() > 0 {
        let init = bars.drop_last();
        law_chart_extent_holds_every_bar(init);
        assert forall|i: int| 0 <= i < bars.len() implies chart_bottom(bars) <= bar_low(#[trigger] bars[i])
            && bar_high(bars[i]) <= chart_top(bars) by {
            if i < bars.len() - 1 {
                assert(bars[i] == init[i]);
            }
        }
        if chart_top(bars) != 0 {
            if chart_top(bars) == chart_top(init) {
                let j = choose|j: int| 0 <= j < init.len() && bar_high(#[trigger] init[j]) == chart_top(init);
                assert(bars[j] == init[j]);
            } else {
                assert(bar_high(bars[bars.len() - 1]) == chart_top(bars));
            }
        }
        if chart_bottom(bars) != 0 {
            if chart_bottom(bars) == chart_bottom(init) {
                let j = choose|j: int| 0 <= j < init.len() && bar_low(#[trigger] init[j]) == chart_bottom(init);
                assert(bars[j] == init[j]);
            } else {
                assert(bar_low(bars[bars.len() - 1]) == chart_bottom(bars));
            }
        }
    }
}

/// The vertical extent of the chart as `(top, bottom)`: the highest and lowest
/// point any bar reaches, zero always included.
pub fn chart_extent(bars: &Vec<Bar>) -> (r: (i64, i64))
    ensures
        r.0 == chart_top(bars@),
        r.1 == chart_bottom(bars@),
{
    let mut top: i64 = 0;
    let mut bottom: i64 = 0;
    let mut i: usize = 0;
    while i < bars.len()
        invariant
            i <= bars@.len(),
            top == chart_top(bars@.take(i as int)),
            bottom == chart_bottom(bars@.take(i as int)),
        decreases bars.len() - i,
    {
        let b = &bars[i];
        assert(bars@.take(i + 1).drop_last() =~= bars@.take(i as int));
        let hi = if b.start >= b.end { b.start } else { b.end };
        let lo = if b.start <= b.end { b.start } else { b.end };
        if hi > top {
            top = hi;
        }
        if lo < bottom {
            bottom = lo;
        }
        i = i + 1;
    }
    assert(bars@.take(bars@.len() as int) =~= bars@);
    (top, bottom)
}

/// The height of the chart in pennies: from its bottom to its top, and at
/// least one so that an empty chart still has a scale.
pub fn chart_range(top: i64, bottom: i64) -> (r: i64)
    requires
        fits_i64(top - bottom),
    ensures
        r == (if top - bottom >= 1 { top - bottom } else { 1 }),
{
    let d = top - bottom;
    if d >= 1 { d } else { 1 }
}

impl Bar {
    /// How far the bar moves the running total: what its label shows.
    pub fn change(&self) -> (r: i64)
        requires
            fits_i64(self.end - self.start),
        ensures
            r == self.end - self.start,
    {
        self.end - self.start
    }
}

/// What remains of a pay period is the same whether it is read off the budget
/// table (income minus expenses) or off the end of the waterfall.
pub proof fn law_waterfall_ends_at_remaining(es: Seq<BudgetEntry>)
    ensures
        net_total(es) == total_of(es, EntryType::Income) - total_of(es, EntryType::Expense),
    decreases es.len(),
{
    if es.len() > 0 {
        law_waterfall_ends_at_remaining(es.drop_last());
    }
}


/// A pay period makes sense only when it starts before it ends: nobody gets
/// paid backwards in time.
pub fn pay_period_is_valid(start: &PlainDate, end: &PlainDate) -> (r: bool)
    ensures
        r == date_before(*start, *end),
{
    start.is_before(end)
}

/// What to do with a submitted budget entry before anything is stored.
#[derive(Debug, Clone, Copy, PartialEq, Eq)]
pub enum EntrySubmission {
    /// Store the entry with this amount of pennies.
    Store { pennies: i64 },
    /// Show the entry form again with an "Invalid Amount" error.
    InvalidAmount,
}

/// Decides what to do with a submitted entry from its amount text: an amount
/// that converts to pennies is stored, any other amount sends the form back.
pub fn check_entry_amount(amount: &str) -> (r: EntrySubmission)
    ensures
        r == (match spec_dollars_to_pennies(amount@) {
            Ok(p) => EntrySubmission::Store { pennies: p },
            Err(_) => EntrySubmission::InvalidAmount,
        }),
{
    match dollars_to_pennies(amount) {
        Ok(p) => EntrySubmission::Store { pennies: p },
        Err(_) => EntrySubmission::InvalidAmount,
    }
}

/// How a stored-or-refused budget entry is answered.
#[derive(Debug, Clone, Copy, PartialEq, Eq)]
pub enum EntryReply {
    /// The entry went in: show the pay period's table again.
    Table,
    /// The pay period is not the user's: nothing was stored.
    Forbidden,
}

/// An entry is stored only into a pay period of the signed-in user; when the
/// store refused it, the request is forbidden.
pub fn entry_reply(inserted: bool) -> (r: EntryReply)
    ensures
        r == (if inserted { EntryReply::Table } else { EntryReply::Forbidden }),
{
    if inserted { EntryReply::Table } else { EntryReply::Forbidden }
}

} // verus!
