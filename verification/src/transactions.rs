//! Bank CSV import: rows of a bank's export become transactions of an account.

use vstd::prelude::*;
use crate::currency::{
    CurrencyError, DecimalValue, decimal_to_pennies, hundredfold_overflows, spec_decimal_to_pennies,
};
use crate::dates::PlainDate;
use crate::pattern::{Pattern, regex_compiles, regex_replace_leftmost};
use crate::text::{
    same_text, lowercase, uppercase, trim, spec_trim, str_lowercase, str_uppercase, collapse_whitespace,
    is_white_space, is_unicode_whitespace, single_spaced, law_collapsed_text_is_single_spaced,
    law_longer_whitespace_runs_collapse_alike, trim_range, lemma_single_spaced_subrange,
};
use crate::accounts::Bank;

verus! {

/// Whether a transaction has cleared.
#[derive(Debug, Clone, Copy, PartialEq, Eq)]
pub enum Status {
    Posted,
    Pending,
}

impl Status {
    /// Reads a status the way bank exports write it, ignoring case:
    /// `"posted"` or `"pending"`; anything else is unknown.
    pub fn parse(s: &str) -> (r: Option<Status>)
        ensures
            r == (if str_lowercase(s@) == "posted"@ {
                Some(Status::Posted)
            } else if str_lowercase(s@) == "pending"@ {
                Some(Status::Pending)
            } else {
                None
            }),
    {
        let lower = lowercase(s);
        if same_text(lower.as_str(), "posted") {
            Some(Status::Posted)
        } else if same_text(lower.as_str(), "pending") {
            Some(Status::Pending)
        } else {
            None
        }
    }

    /// The stored name of the status.
    pub fn as_str(&self) -> (r: &'static str)
        ensures
            r@ == (match self {
                Status::Posted => "posted"@,
                Status::Pending => "pending"@,
            }),
    {
        match self {
            Status::Posted => "posted",
            Status::Pending => "pending",
        }
    }
}

/// The pattern of a trailing card reference such as `" *1234"`.
pub open spec fn trailing_reference_pattern() -> Seq<char> {
    "\\s*\\*+\\d+\\s*$"@
}

/// The pattern of a run of whitespace.
pub open spec fn whitespace_run_pattern() -> Seq<char> {
    "\\s+"@
}

/// The two expressions that clean up a bank's description of a transaction.
pub struct DescriptionPatterns {
    pub trailing_reference: Pattern,
    pub whitespace_run: Pattern,
}

impl DescriptionPatterns {
    pub open spec fn well_formed(&self) -> bool {
        &&& self.trailing_reference@ == trailing_reference_pattern()
        &&& self.whitespace_run@ == whitespace_run_pattern()
    }

    /// Compiles the two expressions; `None` exactly when the regex crate refuses
    /// one of them.
    pub fn new() -> (r: Option<DescriptionPatterns>)
        ensures
            r is Some <==> (regex_compiles(trailing_reference_pattern()) && regex_compiles(whitespace_run_pattern())),
            r matches Some(p) ==> p.well_formed(),
    {
        let trailing_reference = Pattern::compile("\\s*\\*+\\d+\\s*$");
        let whitespace_run = Pattern::compile("\\s+");
        match (trailing_reference, whitespace_run) {
            (Some(t), Some(w)) => Some(DescriptionPatterns { trailing_reference: t, whitespace_run: w }),
            _ => None,
        }
    }
}

/// A bank description with any trailing card reference removed, whitespace
/// runs collapsed to one space, and trimmed.
pub open spec fn spec_cleaned_description(s: Seq<char>) -> Seq<char> {
    spec_trim(collapse_whitespace(regex_replace_leftmost(trailing_reference_pattern(), s, ""@)))
}

/// A bank description cleaned up and upper-cased.
pub open spec fn spec_normalize_description(s: Seq<char>) -> Seq<char> {
    str_uppercase(spec_cleaned_description(s))
}

/// A normalized description is the upper-cased form of a text that is single
/// spaced (no two whitespace characters in a row, each a plain space) and
/// neither starts nor ends with whitespace.
pub proof fn law_normalized_descriptions_are_single_spaced(s: Seq<char>)
    ensures
        spec_normalize_description(s) == str_uppercase(spec_cleaned_description(s)),
        single_spaced(spec_cleaned_description(s)),
        spec_cleaned_description(s).len() > 0 ==> !is_unicode_whitespace(spec_cleaned_description(s)[0])
            && !is_unicode_whitespace(spec_cleaned_description(s).last()),
{
    let c = collapse_whitespace(regex_replace_leftmost(trailing_reference_pattern(), s, ""@));
    law_collapsed_text_is_single_spaced(regex_replace_leftmost(trailing_reference_pattern(), s, ""@));
    let (lo, hi) = trim_range(c);
    lemma_single_spaced_subrange(c, lo, hi);
}

/// Descriptions that differ only in how long a run of whitespace is normalize
/// alike: when the text left after removing the card reference gets one more
/// whitespace character next to a whitespace character, the normalized
/// description does not change.
pub proof fn law_whitespace_run_lengths_do_not_matter(s1: Seq<char>, s2: Seq<char>, i: int, w: char)
    requires
        0 <= i < regex_replace_leftmost(trailing_reference_pattern(), s1, ""@).len(),
        is_white_space(regex_replace_leftmost(trailing_reference_pattern(), s1, ""@)[i]),
        is_white_space(w),
        regex_replace_leftmost(trailing_reference_pattern(), s2, ""@)
            == regex_replace_leftmost(trailing_reference_pattern(), s1, ""@).insert(i + 1, w),
    ensures
        spec_normalize_description(s2) == spec_normalize_description(s1),
{
    law_longer_whitespace_runs_collapse_alike(regex_replace_leftmost(trailing_reference_pattern(), s1, ""@), i, w);
}

/// Cleans up a bank's description of a transaction so that the same merchant
/// reads the same way every time.
pub fn normalize_description(s: &str, patterns: &DescriptionPatterns) -> (r: String)
    requires
        patterns.well_formed(),
    ensures
        r@ == spec_normalize_description(s@),
{
    let stripped = patterns.trailing_reference.replace_leftmost(s, "");
    let collapsed = patterns.whitespace_run.replace_every(stripped.as_str(), " ");
    let trimmed = trim(collapsed.as_str());
    uppercase(trimmed.as_str())
}

/// A row of a USAA export.
pub struct UsaaCsv {
    pub date: PlainDate,
    pub original_description: String,
    pub category: Option<String>,
    pub amount: DecimalValue,
    pub status: Status,
}

/// A row of an Ally export (Ally exports cleared transactions only).
pub struct AllyCsv {
    pub date: PlainDate,
    pub amount: DecimalValue,
    pub description: String,
}

/// A transaction ready to be stored.
pub struct ParsedTransaction {
    pub account_id: i64,
    pub date: PlainDate,
    pub description: String,
    pub raw_description: String,
    pub bank_category: Option<String>,
    pub amount_pennies: i64,
    pub status: Status,
}

/// What a row of an export becomes.
pub enum RowOutcome {
    Transaction(ParsedTransaction),
    /// A pending row is left for a later import, once it has posted.
    SkippedPending,
}

/// The text of an optional string.
pub open spec fn optional_text(o: Option<String>) -> Option<Seq<char>> {
    match o {
        Some(x) => Some(x@),
        None => None,
    }
}

/// A bank's CSV row format.
pub trait BankCsv: Sized {
    /// Whether the row is still pending.
    spec fn spec_pending(&self) -> bool;

    /// The amount of the row, in dollars.
    spec fn spec_amount(&self) -> DecimalValue;

    /// The bank's description of the transaction.
    spec fn spec_description(&self) -> Seq<char>;

    /// The date of the transaction.
    spec fn spec_date(&self) -> PlainDate;

    /// The bank's category of the transaction, if the export has one.
    spec fn spec_category(&self) -> Option<Seq<char>>;

    /// The status the stored transaction has.
    spec fn spec_status(&self) -> Status;

    /// Turns the row into a transaction of account `account_id`: a pending row
    /// is skipped, and an amount whose pennies do not fit is an error.
    fn into_outcome(self, account_id: i64, patterns: &DescriptionPatterns) -> (r: Result<RowOutcome, CurrencyError>)
        requires
            patterns.well_formed(),
            !self.spec_pending() ==> self.spec_amount().well_formed()
                && !hundredfold_overflows(self.spec_amount().mantissa as int, self.spec_amount().scale as nat),
        ensures
            self.spec_pending() ==> r matches Ok(RowOutcome::SkippedPending),
            !self.spec_pending() ==> match spec_decimal_to_pennies(
                self.spec_amount().mantissa as int,
                self.spec_amount().scale as nat,
            ) {
                Err(e) => r == Err::<RowOutcome, CurrencyError>(e),
                Ok(p) => r matches Ok(RowOutcome::Transaction(t)) && t.account_id == account_id
                    && t.amount_pennies == p && t.raw_description@ == self.spec_description()
                    && t.description@ == spec_normalize_description(self.spec_description())
                    && t.date == self.spec_date() && optional_text(t.bank_category) == self.spec_category()
                    && t.status == self.spec_status(),
            },
    ;
}

impl BankCsv for UsaaCsv {
    open spec fn spec_pending(&self) -> bool {
        self.status == Status::Pending
    }

    open spec fn spec_amount(&self) -> DecimalValue {
        self.amount
    }

    open spec fn spec_description(&self) -> Seq<char> {
        self.original_description@
    }

    open spec fn spec_date(&self) -> PlainDate {
        self.date
    }

    open spec fn spec_category(&self) -> Option<Seq<char>> {
        optional_text(self.category)
    }

    open spec fn spec_status(&self) -> Status {
        self.status
    }

    fn into_outcome(self, account_id: i64, patterns: &DescriptionPatterns) -> (r: Result<RowOutcome, CurrencyError>)
    {
        if let Status::Pending = self.status {
            return Ok(RowOutcome::SkippedPending);
        }
        let description = normalize_description(self.original_description.as_str(), patterns);
        match decimal_to_pennies(self.amount) {
            Ok(amount_pennies) => Ok(RowOutcome::Transaction(ParsedTransaction {
                account_id,
                date: self.date,
                description,
                raw_description: self.original_description,
                bank_category: self.category,
                amount_pennies,
                status: self.status,
            })),
            Err(e) => Err(e),
        }
    }
}

impl BankCsv for AllyCsv {
    open spec fn spec_pending(&self) -> bool {
        false
    }

    open spec fn spec_amount(&self) -> DecimalValue {
        self.amount
    }

    open spec fn spec_description(&self) -> Seq<char> {
        self.description@
    }

    open spec fn spec_date(&self) -> PlainDate {
        self.date
    }

    open spec fn spec_category(&self) -> Option<Seq<char>> {
        None
    }

    open spec fn spec_status(&self) -> Status {
        Status::Posted
    }

    fn into_outcome(self, account_id: i64, patterns: &DescriptionPatterns) -> (r: Result<RowOutcome, CurrencyError>)
    {
        let description = normalize_description(self.description.as_str(), patterns);
        match decimal_to_pennies(self.amount) {
            Ok(amount_pennies) => Ok(RowOutcome::Transaction(ParsedTransaction {
                account_id,
                date: self.date,
                description,
                raw_description: self.description,
                bank_category: None,
                amount_pennies,
                status: Status::Posted,
            })),
            Err(e) => Err(e),
        }
    }
}


/// What becomes of one row of an export.
pub enum RowClass {
    /// It becomes a transaction.
    Parsed,
    /// It is pending and left for a later import.
    Pending,
    /// It could not be read, or its amount does not fit.
    Unreadable,
}

/// The class of a row; `None` stands for a row that the CSV reader could not
/// read into the bank's format.
pub open spec fn row_class<T: BankCsv>(row: Option<T>) -> RowClass {
    match row {
        None => RowClass::Unreadable,
        Some(t) => if t.spec_pending() {
            RowClass::Pending
        } else if spec_decimal_to_pennies(t.spec_amount().mantissa as int, t.spec_amount().scale as nat) is Ok {
            RowClass::Parsed
        } else {
            RowClass::Unreadable
        },
    }
}

/// How many of the rows are of class `c`.
pub open spec fn count_class<T: BankCsv>(rows: Seq<Option<T>>, c: RowClass) -> nat
    decreases rows.len(),
{
    if rows.len() == 0 {
        0
    } else {
        count_class(rows.drop_last(), c) + (if row_class(rows.last()) == c { 1nat } else { 0nat })
    }
}

/// The amounts, in pennies, of the rows that become transactions, in order.
pub open spec fn parsed_amounts<T: BankCsv>(rows: Seq<Option<T>>) -> Seq<i64>
    decreases rows.len(),
{
    if rows.len() == 0 {
        Seq::empty()
    } else {
        let before = parsed_amounts(rows.drop_last());
        match rows.last() {
            Some(t) => if row_class(rows.last()) == RowClass::Parsed {
                before.push(spec_decimal_to_pennies(t.spec_amount().mantissa as int, t.spec_amount().scale as nat)->Ok_0)
            } else {
                before
            },
            None => before,
        }
    }
}

/// The rows that become transactions, in order.
pub open spec fn parsed_rows<T: BankCsv>(rows: Seq<Option<T>>) -> Seq<T>
    decreases rows.len(),
{
    if rows.len() == 0 {
        Seq::empty()
    } else {
        let before = parsed_rows(rows.drop_last());
        match rows.last() {
            Some(t) => if row_class(rows.last()) == RowClass::Parsed { before.push(t) } else { before },
            None => before,
        }
    }
}

/// `t` is the transaction of account `account_id` that `row` becomes: its
/// amount in pennies, its description cleaned up, the bank's description kept
/// as it was, and the row's date, category and status.
pub open spec fn made_from<T: BankCsv>(t: ParsedTransaction, row: T, account_id: i64) -> bool {
    &&& t.account_id == account_id
    &&& t.amount_pennies == spec_decimal_to_pennies(row.spec_amount().mantissa as int, row.spec_amount().scale as nat)->Ok_0
    &&& t.description@ == spec_normalize_description(row.spec_description())
    &&& t.raw_description@ == row.spec_description()
    &&& t.date == row.spec_date()
    &&& optional_text(t.bank_category) == row.spec_category()
    &&& t.status == row.spec_status()
}

/// Every readable row that is not pending has an amount that can be multiplied
/// by a hundred (a pending row is skipped without reading its amount).
pub open spec fn amounts_convertible<T: BankCsv>(rows: Seq<Option<T>>) -> bool {
    forall|i: int| 0 <= i < rows.len() ==> match #[trigger] rows[i] {
        Some(t) => !t.spec_pending() ==> t.spec_amount().well_formed()
            && !hundredfold_overflows(t.spec_amount().mantissa as int, t.spec_amount().scale as nat),
        None => true,
    }
}

/// The result of reading an export.
pub struct ParseSummary {
    pub parsed: Vec<ParsedTransaction>,
    pub parse_errors: u64,
    pub skipped_pending: u64,
}

/// Turns the rows of an export into transactions of account `account_id`,
/// counting the pending rows it skips and the rows it cannot use.
pub fn summarize_rows<T: BankCsv>(rows: Vec<Option<T>>, account_id: i64, patterns: &DescriptionPatterns) -> (s: ParseSummary)
    requires
        patterns.well_formed(),
        amounts_convertible(rows@),
    ensures
        s.parsed@.len() == count_class(rows@, RowClass::Parsed),
        s.skipped_pending == count_class(rows@, RowClass::Pending),
        s.parse_errors == count_class(rows@, RowClass::Unreadable),
        s.parsed@.map_values(|t: ParsedTransaction| t.amount_pennies) == parsed_amounts(rows@),
        forall|i: int| 0 <= i < s.parsed@.len() ==> (#[trigger] s.parsed@[i]).account_id == account_id,
        s.parsed@.len() == parsed_rows(rows@).len(),
        forall|i: int| 0 <= i < s.parsed@.len() ==> made_from(#[trigger] s.parsed@[i], parsed_rows(rows@)[i], account_id),
{
    let ghost all = rows@;
    let mut parsed: Vec<ParsedTransaction> = Vec::new();
    let mut parse_errors: u64 = 0;
    let mut skipped_pending: u64 = 0;
    let ghost f = |t: ParsedTransaction| t.amount_pennies;
    let n: usize = rows.len();
    for row in it: rows.into_iter()
        invariant
            it.seq() == all,
            all.len() == n,
            patterns.well_formed(),
            amounts_convertible(all),
            it.index() <= all.len(),
            parsed@.len() == count_class(all.take(it.index() as int), RowClass::Parsed),
            skipped_pending == count_class(all.take(it.index() as int), RowClass::Pending),
            parse_errors == count_class(all.take(it.index() as int), RowClass::Unreadable),
            parsed@.len() + skipped_pending + parse_errors == it.index(),
            parsed@.map_values(f) == parsed_amounts(all.take(it.index() as int)),
            forall|i: int| 0 <= i < parsed@.len() ==> (#[trigger] parsed@[i]).account_id == account_id,
            parsed@.len() == parsed_rows(all.take(it.index() as int)).len(),
            forall|i: int| 0 <= i < parsed@.len()
                ==> made_from(#[trigger] parsed@[i], parsed_rows(all.take(it.index() as int))[i], account_id),
            f == (|t: ParsedTransaction| t.amount_pennies),
    {
        let ghost k = it.index();
        let ghost before = all.take(k as int);
        assert(all.take(k + 1).drop_last() =~= before);
        assert(all[k as int] == row);
        assert(all.take(k + 1).last() == row);
        match row {
            Some(r) => {
                assert(amounts_convertible(all) ==> match all[k as int] {
                    Some(t) => !t.spec_pending() ==> t.spec_amount().well_formed()
                        && !hundredfold_overflows(t.spec_amount().mantissa as int, t.spec_amount().scale as nat),
                    None => true,
                });
                let ghost rr = r;
                match r.into_outcome(account_id, patterns) {
                    Ok(RowOutcome::Transaction(t)) => {
                        let ghost old_parsed = parsed@;
                        parsed.push(t);
                        assert(parsed@.map_values(f) =~= old_parsed.map_values(f).push(t.amount_pennies));
                        assert(made_from(t, rr, account_id));
                        assert(parsed_rows(all.take(k + 1)) == parsed_rows(before).push(rr));
                    },
                    Ok(RowOutcome::SkippedPending) => {
                        skipped_pending = skipped_pending + 1;
                    },
                    Err(_) => {
                        parse_errors = parse_errors + 1;
                    },
                }
            },
            None => {
                parse_errors = parse_errors + 1;
            },
        }
    }
    assert(all.take(all.len() as int) =~= all);
    ParseSummary { parsed, parse_errors, skipped_pending }
}


/// Every row of an export is accounted for exactly once: it becomes a
/// transaction, is skipped as pending, or is counted as unreadable.
pub proof fn law_every_row_accounted<T: BankCsv>(rows: Seq<Option<T>>)
    ensures
        count_class(rows, RowClass::Parsed) + count_class(rows, RowClass::Pending)
            + count_class(rows, RowClass::Unreadable) == rows.len(),
    decreases rows.len(),
{
    if rows.len() > 0 {
        law_every_row_accounted(rows.drop_last());
    }
}

/// The CSV layouts the importer reads.
#[derive(Debug, Clone, Copy, PartialEq, Eq)]
pub enum CsvFormat {
    Usaa,
    Ally,
}

pub open spec fn spec_csv_format(bank: Bank) -> Option<CsvFormat> {
    match bank {
        Bank::Usaa => Some(CsvFormat::Usaa),
        Bank::Ally => Some(CsvFormat::Ally),
        _ => None,
    }
}

/// The layout of the bank's CSV export, or `None` for a bank whose accounts are
/// valued by hand and take no CSV import.
pub fn csv_format(bank: Bank) -> (r: Option<CsvFormat>)
    ensures
        r == spec_csv_format(bank),
{
    match bank {
        Bank::Usaa => Some(CsvFormat::Usaa),
        Bank::Ally => Some(CsvFormat::Ally),
        Bank::Fidelity | Bank::HealthEquity | Bank::Inspira | Bank::CharlesSchwab => None,
    }
}

/// A bank takes CSV imports exactly when its import strategy says so.
pub proof fn law_csv_import_matches_strategy(bank: Bank)
    ensures
        spec_csv_format(bank) is Some <==> bank.spec_import_strategy() == crate::accounts::ImportStrategy::Csv,
{
}

/// The rows of an import that were already stored by an earlier import.
pub fn duplicate_count(total_parsed: u64, new_rows: u64) -> (r: u64)
    requires
        new_rows <= total_parsed,
    ensures
        r == total_parsed - new_rows,
{
    total_parsed - new_rows
}

} // verus!
