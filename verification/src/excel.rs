//! Workbook-side logic: the whitelist of business labels, resolution of
//! named ranges into column positions, and extraction of active rows into
//! purchase records. Opening the workbook and reading its cells is I/O and
//! stays outside the library; the extractor works on plain cell values.

use vstd::prelude::*;

verus! {

use crate::text::{str_eq, piece_before, piece_between, remove_char, spec_piece_before,
    spec_piece_between, spec_remove_char};
use crate::simple_time::{Moment, spec_moment, spec_rfc3339};
use crate::purchase::{Purchase, PurchaseV};
use crate::diff::views;
use vstd::arithmetic::div_mod::lemma_div_is_ordered;
use vstd::string::StrSliceExecFns;

// Whitelisted business labels for the workbook's defined names.
pub const PURCHASE_SUBJECT_ABBR: &'static str = "Предмет";

pub const PURCHASE_SUBJECT: &'static str = "Поставляемые_товары";

pub const DATE_COLLECTING_BIDS: &'static str = "Дата_окончания_подачи_заявок";

pub const TIME_COLLECTING_BIDS: &'static str = "Время_окончания_подачи_заявок";

pub const DATE_APPROVAL: &'static str = "Дата_окончания_срока_рассмотрения_заявок";

pub const DATE_BIDDING: &'static str = "Дата_проведения_аукциона_конкурса";

pub const TIME_BIDDING: &'static str = "Время_проведения_аукциона_конкурса";

pub const REGION: &'static str = "Регион";

pub const CUSTOMER_TYPE: &'static str = "Заказчик";

pub const MAX_PRICE: &'static str = "НМЦК";

pub const APPLICATION_GUARANTEE: &'static str = "Размер_обеспечения_заявки";

pub const CONTRACT_GUARANTEE: &'static str = "Размер_обеспечения_контракта";

pub const STATUS: &'static str = "Статус";

pub const OUR_PARTICIPANTS: &'static str = "Наши_участники";

pub const ESTIMATION: &'static str = "Расчет";

pub const NUMBER: &'static str = "Номер";

pub const PURCHASE_TYPE: &'static str = "Форма_проведения";

pub const ETP: &'static str = "Площадка";

pub const WINNER: &'static str = "Победитель";

pub const WINNER_PRICE: &'static str = "Сумма_выигранного_лота";

pub const PARTICIPANTS: &'static str = "Участники";

// Status labels that count as "active".
pub const STATUS_GO: &'static str = "идем";

pub const STATUS_ADMITTED: &'static str = "допущены";

pub const STATUS_APPLY: &'static str = "заявлены";

pub const STATUS_WIN: &'static str = "выиграли";

pub const STATUS_LOSS: &'static str = "не выиграли";

pub const STATUS_ESTIMATION: &'static str = "расчет";

/// A workbook can hold at most this many columns.
pub const TOTAL_COLUMNS: u64 = 16384;

#[verifier::external_type_specification]
#[verifier::external_body]
pub struct ExXlsxError(calamine::XlsxError);

#[verifier::external_type_specification]
#[verifier::external_body]
pub struct ExJsonError(serde_json::Error);

/// The module's error type: a malformed column token (with the offending
/// token), a workbook-format error from the spreadsheet reader, or a
/// serialization error from the snapshot codec.
#[derive(Debug)]
pub enum WorkbookError {
    InvalidColumnNameError(String),
    XlsxError(calamine::XlsxError),
    JsonSerializeError(serde_json::Error),
}

impl From<serde_json::Error> for WorkbookError {
    /// A serialization failure maps onto `JsonSerializeError`.
    fn from(error: serde_json::Error) -> (r: Self) {
        WorkbookError::JsonSerializeError(error)
    }
}

impl vstd::std_specs::convert::FromSpecImpl<serde_json::Error> for WorkbookError {
    open spec fn obeys_from_spec() -> bool {
        true
    }

    open spec fn from_spec(v: serde_json::Error) -> Self {
        WorkbookError::JsonSerializeError(v)
    }
}

/// Whether `s` is one of the whitelisted business labels.
pub open spec fn spec_is_expectable(s: Seq<char>) -> bool {
    ||| s == DATE_COLLECTING_BIDS@
    ||| s == TIME_COLLECTING_BIDS@
    ||| s == DATE_APPROVAL@
    ||| s == DATE_BIDDING@
    ||| s == TIME_BIDDING@
    ||| s == MAX_PRICE@
    ||| s == NUMBER@
    ||| s == WINNER@
    ||| s == STATUS@
    ||| s == WINNER_PRICE@
    ||| s == PARTICIPANTS@
    ||| s == PURCHASE_TYPE@
    ||| s == PURCHASE_SUBJECT@
    ||| s == PURCHASE_SUBJECT_ABBR@
    ||| s == OUR_PARTICIPANTS@
    ||| s == ETP@
    ||| s == APPLICATION_GUARANTEE@
    ||| s == CONTRACT_GUARANTEE@
    ||| s == CUSTOMER_TYPE@
    ||| s == ESTIMATION@
    ||| s == REGION@
}

/// Whether a defined name belongs to the fixed whitelist of business labels.
pub fn is_expectable(s: &str) -> (r: bool)
    ensures
        r == spec_is_expectable(s@),
{
    str_eq(s, DATE_COLLECTING_BIDS) || str_eq(s, TIME_COLLECTING_BIDS) || str_eq(s, DATE_APPROVAL)
        || str_eq(s, DATE_BIDDING) || str_eq(s, TIME_BIDDING) || str_eq(s, MAX_PRICE) || str_eq(
        s,
        NUMBER,
    ) || str_eq(s, WINNER) || str_eq(s, STATUS) || str_eq(s, WINNER_PRICE) || str_eq(
        s,
        PARTICIPANTS,
    ) || str_eq(s, PURCHASE_TYPE) || str_eq(s, PURCHASE_SUBJECT) || str_eq(
        s,
        PURCHASE_SUBJECT_ABBR,
    ) || str_eq(s, OUR_PARTICIPANTS) || str_eq(s, ETP) || str_eq(s, APPLICATION_GUARANTEE)
        || str_eq(s, CONTRACT_GUARANTEE) || str_eq(s, CUSTOMER_TYPE) || str_eq(s, ESTIMATION)
        || str_eq(s, REGION)
}

/// Whether `s` is one of the in-progress business states.
pub open spec fn spec_is_active_state(s: Seq<char>) -> bool {
    ||| s == STATUS_GO@
    ||| s == STATUS_ADMITTED@
    ||| s == STATUS_APPLY@
    ||| s == STATUS_WIN@
    ||| s == STATUS_LOSS@
    ||| s == STATUS_ESTIMATION@
}

/// Whether a status cell marks its row as currently active.
pub fn is_active_state(s: &str) -> (r: bool)
    ensures
        r == spec_is_active_state(s@),
{
    str_eq(s, STATUS_GO) || str_eq(s, STATUS_ADMITTED) || str_eq(s, STATUS_APPLY) || str_eq(
        s,
        STATUS_WIN,
    ) || str_eq(s, STATUS_LOSS) || str_eq(s, STATUS_ESTIMATION)
}

/// Which side of a `$A$:$B$` range expression a column is read from.
#[derive(Debug, Clone, Copy, PartialEq, Eq, Structural)]
pub enum ColumnPosition {
    Left,
    Right,
}

/// A workbook defined name, split into the whitelisted label it matched
/// (empty if none), the sheet part, and the range part:
/// `List1!$A$:$A$` has sheet `List1` and range `$A$:$A$`.
pub struct NamedRange {
    pub name: String,
    pub sheet: String,
    pub range: String,
}

/// The mathematical shape of a named range.
pub struct NamedRangeV {
    pub name: Seq<char>,
    pub sheet: Seq<char>,
    pub range: Seq<char>,
}

impl View for NamedRange {
    type V = NamedRangeV;

    open spec fn view(&self) -> NamedRangeV {
        NamedRangeV { name: self.name@, sheet: self.sheet@, range: self.range@ }
    }
}

/// A whitelisted label passes through unchanged; anything else becomes the
/// empty name.
pub open spec fn spec_match_name(s: Seq<char>) -> Seq<char> {
    if spec_is_expectable(s) {
        s
    } else {
        Seq::empty()
    }
}

/// The column token of the `cp` side of a range expression: the piece
/// before (or between) the `:` separators, with every `$` removed.
pub open spec fn spec_col_name(range: Seq<char>, cp: ColumnPosition) -> Seq<char> {
    let piece = match cp {
        ColumnPosition::Left => spec_piece_before(range, ':'),
        ColumnPosition::Right => spec_piece_between(range, ':'),
    };
    spec_remove_char(piece, '$')
}

/// Value of a column letter as a base-26 digit: 'A'..='Z' and 'a'..='z'
/// count 1..=26.
pub open spec fn spec_letter_digit(c: char) -> int {
    if 65 <= c as int <= 90 {
        c as int - 64
    } else if 97 <= c as int <= 122 {
        c as int - 96
    } else {
        0
    }
}

pub open spec fn spec_is_letter(c: char) -> bool {
    65 <= c as int <= 90 || 97 <= c as int <= 122
}

pub open spec fn spec_all_letters(s: Seq<char>) -> bool {
    forall|i: int| 0 <= i < s.len() ==> spec_is_letter(#[trigger] s[i])
}

/// A column token read as a base-26 numeral, most significant letter first:
/// "A" is 1, "Z" is 26, "AA" is 27.
pub open spec fn spec_col_value(s: Seq<char>) -> int
    decreases s.len(),
{
    if s.len() == 0 {
        0
    } else {
        spec_col_value(s.drop_last()) * 26 + spec_letter_digit(s.last())
    }
}

/// A valid column token: non-empty, alphabetic throughout, and within the
/// workbook's column bound.
pub open spec fn spec_valid_col(s: Seq<char>) -> bool {
    s.len() >= 1 && spec_all_letters(s) && spec_col_value(s) <= 16384
}

/// An alphabetic token's value grows at least geometrically with its
/// length; four letters already exceed the workbook's column bound.
proof fn lemma_col_value_lower(s: Seq<char>)
    requires
        spec_all_letters(s),
    ensures
        spec_col_value(s) >= 0,
        s.len() >= 1 ==> spec_col_value(s) >= 1,
        s.len() >= 2 ==> spec_col_value(s) >= 27,
        s.len() >= 3 ==> spec_col_value(s) >= 703,
        s.len() >= 4 ==> spec_col_value(s) >= 18279,
    decreases s.len(),
{
    if s.len() > 0 {
        assert(spec_all_letters(s.drop_last()));
        lemma_col_value_lower(s.drop_last());
        assert(spec_letter_digit(s.last()) >= 1);
    }
}

impl NamedRange {
    /// Builds a named range from a workbook defined name: the label filtered
    /// through the whitelist, and the sheet and range parts of the target
    /// expression.
    pub fn new(def_name: &(String, String)) -> (r: Self)
        ensures
            r.name@ == spec_match_name(def_name.0@),
            r.sheet@ == spec_piece_before(def_name.1@, '!'),
            r.range@ == spec_piece_between(def_name.1@, '!'),
    {
        NamedRange {
            name: Self::match_name(def_name.0.as_str()),
            sheet: Self::parse_sheet(def_name.1.as_str()),
            range: Self::parse_range(def_name.1.as_str()),
        }
    }

    /// The whitelisted label `s` matches, or the empty string.
    pub fn match_name(s: &str) -> (r: String)
        ensures
            r@ == spec_match_name(s@),
    {
        if is_expectable(s) {
            s.to_owned()
        } else {
            String::new()
        }
    }

    /// The sheet part of a range expression.
    pub fn parse_sheet(s: &str) -> (r: String)
        ensures
            r@ == spec_piece_before(s@, '!'),
    {
        piece_before(s, '!')
    }

    /// The range part of a range expression.
    pub fn parse_range(s: &str) -> (r: String)
        ensures
            r@ == spec_piece_between(s@, '!'),
    {
        piece_between(s, '!')
    }

    /// The column token on the `cp` side of this range.
    pub fn col_name(&self, cp: ColumnPosition) -> (r: String)
        ensures
            r@ == spec_col_name(self.range@, cp),
    {
        let piece = match cp {
            ColumnPosition::Left => piece_before(self.range.as_str(), ':'),
            ColumnPosition::Right => piece_between(self.range.as_str(), ':'),
        };
        remove_char(piece.as_str(), '$')
    }

    /// The zero-based column index of the `cp` side of this range: the
    /// token's base-26 value minus one. An empty token, a non-alphabetic
    /// token, or one beyond the workbook's column bound is rejected with
    /// `InvalidColumnNameError` carrying the token, and only such tokens
    /// are.
    pub fn col_num(&self, cp: ColumnPosition) -> (r: Result<usize, WorkbookError>)
        ensures
            match r {
                Ok(n) => spec_valid_col(spec_col_name(self.range@, cp)) && n + 1
                    == spec_col_value(spec_col_name(self.range@, cp)),
                Err(e) => !spec_valid_col(spec_col_name(self.range@, cp)) && (
                e matches WorkbookError::InvalidColumnNameError(t) && t@ == spec_col_name(
                    self.range@,
                    cp,
                )),
            },
    {
        let col_name = self.col_name(cp);
        let ghost cn = col_name@;
        let len = col_name.as_str().unicode_len();
        if len == 0 {
            return Err(WorkbookError::InvalidColumnNameError(col_name));
        }
        if len > 3 {
            proof {
                if spec_all_letters(cn) {
                    lemma_col_value_lower(cn);
                }
            }
            return Err(WorkbookError::InvalidColumnNameError(col_name));
        }
        let mut value: u64 = 0;
        let mut i: usize = 0;
        while i < len
            invariant
                0 <= i <= len,
                len == cn.len(),
                1 <= len <= 3,
                cn == col_name@,
                cn == spec_col_name(self.range@, cp),
                value == spec_col_value(cn.take(i as int)),
                spec_all_letters(cn.take(i as int)),
                i == 0 ==> value == 0,
                i == 1 ==> value <= 26,
                i == 2 ==> value <= 702,
                i == 3 ==> value <= 18278,
            decreases len - i,
        {
            let c = col_name.as_str().get_char(i);
            let v = c as u32;
            let d: u64 = if 65 <= v && v <= 90 {
                (v - 64) as u64
            } else if 97 <= v && v <= 122 {
                (v - 96) as u64
            } else {
                proof {
                    assert(!spec_is_letter(cn[i as int]));
                    assert(!spec_all_letters(cn));
                }
                return Err(WorkbookError::InvalidColumnNameError(col_name));
            };
            proof {
                assert(cn.take(i + 1).drop_last() =~= cn.take(i as int));
                assert(cn.take(i + 1).last() == cn[i as int]);
            }
            value = value * 26 + d;
            i += 1;
        }
        proof {
            assert(cn.take(len as int) =~= cn);
        }
        if value > TOTAL_COLUMNS {
            return Err(WorkbookError::InvalidColumnNameError(col_name));
        }
        proof {
            lemma_col_value_lower(cn);
        }
        Ok((value - 1) as usize)
    }
}

/// The named ranges a list of workbook defined names yields: the
/// whitelisted ones, parsed, in their stored order.
pub open spec fn spec_named_ranges(defs: Seq<(String, String)>) -> Seq<NamedRangeV>
    decreases defs.len(),
{
    if defs.len() == 0 {
        Seq::empty()
    } else {
        let prefix = spec_named_ranges(defs.drop_last());
        let d = defs.last();
        if spec_is_expectable(d.0@) {
            prefix.push(
                NamedRangeV {
                    name: spec_match_name(d.0@),
                    sheet: spec_piece_before(d.1@, '!'),
                    range: spec_piece_between(d.1@, '!'),
                },
            )
        } else {
            prefix
        }
    }
}

/// Builds the named ranges from the workbook's defined names, keeping only
/// the whitelisted business labels.
pub fn named_ranges(defined_names: &Vec<(String, String)>) -> (res: Vec<NamedRange>)
    ensures
        res@.map_values(|nr: NamedRange| nr@) == spec_named_ranges(defined_names@),
{
    let ghost defs = defined_names@;
    let mut res: Vec<NamedRange> = Vec::new();
    let mut k: usize = 0;
    while k < defined_names.len()
        invariant
            0 <= k <= defs.len(),
            defs == defined_names@,
            res@.map_values(|nr: NamedRange| nr@) == spec_named_ranges(defs.take(k as int)),
        decreases defs.len() - k,
    {
        proof {
            assert(defs.take(k + 1).drop_last() =~= defs.take(k as int));
            assert(defs.take(k + 1).last() == defs[k as int]);
        }
        if is_expectable(defined_names[k].0.as_str()) {
            let nr = NamedRange::new(&defined_names[k]);
            let ghost r0 = res@;
            let ghost nv = nr@;
            res.push(nr);
            proof {
                assert(res@.map_values(|nr: NamedRange| nr@) =~= r0.map_values(
                    |nr: NamedRange| nr@,
                ).push(nv));
                assert(res@.map_values(|nr: NamedRange| nr@) =~= spec_named_ranges(
                    defs.take(k + 1),
                ));
            }
        } else {
            proof {
                assert(res@.map_values(|nr: NamedRange| nr@) =~= spec_named_ranges(
                    defs.take(k + 1),
                ));
            }
        }
        k += 1;
    }
    proof {
        assert(defs.take(defs.len() as int) =~= defs);
    }
    res
}

/// Zero-based column positions of each logical field, resolved from the
/// named ranges. A field whose named range is absent, or whose column token
/// is malformed, keeps the default index 0 — a documented risk of the
/// workbook format, not a hard failure.
#[derive(Debug, Clone, Copy, PartialEq, Eq, Structural)]
pub struct NamedCols {
    pub registry_number: usize,
    pub purchase_subject: usize,
    pub purchase_abbr: usize,
    pub purchase_type: usize,
    pub collecting_datetime: usize,
    pub approval_datetime: usize,
    pub bidding_datetime: usize,
    pub bidding_date: usize,
    pub collecting_date: usize,
    pub region: usize,
    pub customer_type: usize,
    pub max_price: usize,
    pub application_guarantee: usize,
    pub contract_guarantee: usize,
    pub status: usize,
    pub our_participants: usize,
    pub estimation: usize,
    pub etp: usize,
    pub winner: usize,
    pub winner_price: usize,
    pub participants: usize,
}

/// Every field at the default column 0.
pub open spec fn spec_default_cols() -> NamedCols {
    NamedCols {
        registry_number: 0,
        purchase_subject: 0,
        purchase_abbr: 0,
        purchase_type: 0,
        collecting_datetime: 0,
        approval_datetime: 0,
        bidding_datetime: 0,
        bidding_date: 0,
        collecting_date: 0,
        region: 0,
        customer_type: 0,
        max_price: 0,
        application_guarantee: 0,
        contract_guarantee: 0,
        status: 0,
        our_participants: 0,
        estimation: 0,
        etp: 0,
        winner: 0,
        winner_price: 0,
        participants: 0,
    }
}

impl Default for NamedCols {
    /// The column map before any range is applied: every field at 0.
    fn default() -> (r: Self)
        ensures
            r == spec_default_cols(),
    {
        NamedCols {
            registry_number: 0,
            purchase_subject: 0,
            purchase_abbr: 0,
            purchase_type: 0,
            collecting_datetime: 0,
            approval_datetime: 0,
            bidding_datetime: 0,
            bidding_date: 0,
            collecting_date: 0,
            region: 0,
            customer_type: 0,
            max_price: 0,
            application_guarantee: 0,
            contract_guarantee: 0,
            status: 0,
            our_participants: 0,
            estimation: 0,
            etp: 0,
            winner: 0,
            winner_price: 0,
            participants: 0,
        }
    }
}

/// The zero-based column a named range resolves to: the left token's
/// base-26 value minus one, or the default 0 when the token is invalid.
pub open spec fn spec_col_of(nr: NamedRangeV) -> usize {
    let tok = spec_col_name(nr.range, ColumnPosition::Left);
    if spec_valid_col(tok) {
        (spec_col_value(tok) - 1) as usize
    } else {
        0
    }
}

/// One named range applied to the column map: the field whose label the
/// range carries moves to the range's column; other labels leave the map
/// unchanged.
pub open spec fn spec_apply_range(nc: NamedCols, nr: NamedRangeV) -> NamedCols {
    let col = spec_col_of(nr);
    if nr.name == DATE_BIDDING@ {
        NamedCols { bidding_date: col, ..nc }
    } else if nr.name == DATE_COLLECTING_BIDS@ {
        NamedCols { collecting_date: col, ..nc }
    } else if nr.name == TIME_COLLECTING_BIDS@ {
        NamedCols { collecting_datetime: col, ..nc }
    } else if nr.name == DATE_APPROVAL@ {
        NamedCols { approval_datetime: col, ..nc }
    } else if nr.name == TIME_BIDDING@ {
        NamedCols { bidding_datetime: col, ..nc }
    } else if nr.name == NUMBER@ {
        NamedCols { registry_number: col, ..nc }
    } else if nr.name == STATUS@ {
        NamedCols { status: col, ..nc }
    } else if nr.name == PURCHASE_SUBJECT@ {
        NamedCols { purchase_subject: col, ..nc }
    } else if nr.name == CUSTOMER_TYPE@ {
        NamedCols { customer_type: col, ..nc }
    } else if nr.name == ESTIMATION@ {
        NamedCols { estimation: col, ..nc }
    } else if nr.name == REGION@ {
        NamedCols { region: col, ..nc }
    } else if nr.name == MAX_PRICE@ {
        NamedCols { max_price: col, ..nc }
    } else if nr.name == WINNER@ {
        NamedCols { winner: col, ..nc }
    } else if nr.name == WINNER_PRICE@ {
        NamedCols { winner_price: col, ..nc }
    } else if nr.name == PARTICIPANTS@ {
        NamedCols { participants: col, ..nc }
    } else if nr.name == PURCHASE_TYPE@ {
        NamedCols { purchase_type: col, ..nc }
    } else if nr.name == PURCHASE_SUBJECT_ABBR@ {
        NamedCols { purchase_abbr: col, ..nc }
    } else if nr.name == OUR_PARTICIPANTS@ {
        NamedCols { our_participants: col, ..nc }
    } else if nr.name == ETP@ {
        NamedCols { etp: col, ..nc }
    } else if nr.name == APPLICATION_GUARANTEE@ {
        NamedCols { application_guarantee: col, ..nc }
    } else if nr.name == CONTRACT_GUARANTEE@ {
        NamedCols { contract_guarantee: col, ..nc }
    } else {
        nc
    }
}

/// The column map a list of named ranges yields, applied in order: a later
/// range for the same label overwrites an earlier one.
pub open spec fn spec_named_cols(rs: Seq<NamedRangeV>) -> NamedCols
    decreases rs.len(),
{
    if rs.len() == 0 {
        spec_default_cols()
    } else {
        spec_apply_range(spec_named_cols(rs.drop_last()), rs.last())
    }
}

/// Resolves the named ranges into the column map, mapping each whitelisted
/// label's column token to its zero-based index; an unresolvable token
/// falls back to the default index 0.
pub fn named_cols(named_ranges: &Vec<NamedRange>) -> (res: NamedCols)
    ensures
        res == spec_named_cols(named_ranges@.map_values(|nr: NamedRange| nr@)),
{
    let ghost rs = named_ranges@.map_values(|nr: NamedRange| nr@);
    let mut nc = NamedCols::default();
    let mut k: usize = 0;
    while k < named_ranges.len()
        invariant
            0 <= k <= rs.len(),
            rs == named_ranges@.map_values(|nr: NamedRange| nr@),
            nc == spec_named_cols(rs.take(k as int)),
        decreases rs.len() - k,
    {
        proof {
            assert(rs.take(k + 1).drop_last() =~= rs.take(k as int));
            assert(rs.take(k + 1).last() == rs[k as int]);
        }
        let nr = &named_ranges[k];
        let col = match nr.col_num(ColumnPosition::Left) {
            Ok(c) => c,
            Err(_) => 0,
        };
        proof {
            assert(col == spec_col_of(rs[k as int]));
        }
        let name = nr.name.as_str();
        if str_eq(name, DATE_BIDDING) {
            nc.bidding_date = col;
        } else if str_eq(name, DATE_COLLECTING_BIDS) {
            nc.collecting_date = col;
        } else if str_eq(name, TIME_COLLECTING_BIDS) {
            nc.collecting_datetime = col;
        } else if str_eq(name, DATE_APPROVAL) {
            nc.approval_datetime = col;
        } else if str_eq(name, TIME_BIDDING) {
            nc.bidding_datetime = col;
        } else if str_eq(name, NUMBER) {
            nc.registry_number = col;
        } else if str_eq(name, STATUS) {
            nc.status = col;
        } else if str_eq(name, PURCHASE_SUBJECT) {
            nc.purchase_subject = col;
        } else if str_eq(name, CUSTOMER_TYPE) {
            nc.customer_type = col;
        } else if str_eq(name, ESTIMATION) {
            nc.estimation = col;
        } else if str_eq(name, REGION) {
            nc.region = col;
        } else if str_eq(name, MAX_PRICE) {
            nc.max_price = col;
        } else if str_eq(name, WINNER) {
            nc.winner = col;
        } else if str_eq(name, WINNER_PRICE) {
            nc.winner_price = col;
        } else if str_eq(name, PARTICIPANTS) {
            nc.participants = col;
        } else if str_eq(name, PURCHASE_TYPE) {
            nc.purchase_type = col;
        } else if str_eq(name, PURCHASE_SUBJECT_ABBR) {
            nc.purchase_abbr = col;
        } else if str_eq(name, OUR_PARTICIPANTS) {
            nc.our_participants = col;
        } else if str_eq(name, ETP) {
            nc.etp = col;
        } else if str_eq(name, APPLICATION_GUARANTEE) {
            nc.application_guarantee = col;
        } else if str_eq(name, CONTRACT_GUARANTEE) {
            nc.contract_guarantee = col;
        }
        proof {
            assert(nc == spec_named_cols(rs.take(k + 1)));
        }
        k += 1;
    }
    proof {
        assert(rs.take(rs.len() as int) =~= rs);
    }
    nc
}

/// January 1st 1970 on the spreadsheet's serial-date scale, in days.
pub const EXCEL_UNIX_EPOCH: u64 = 25569;

/// The same epoch offset in serial seconds (86400 per serial day).
pub const EXCEL_UNIX_EPOCH_SECS: u64 = 25569 * 86400;

/// Scanning stops after this many rows, a safety bound against unbounded
/// sheets.
pub const WORKBOOK_MAX_ROWS: usize = 7000;

/// Default look-back window of the recency filter, in days.
pub const HOW_FAR_IN_PAST_DAYS: u64 = 16;

/// A worksheet cell as the extractor reads it: text, a numeric amount in
/// thousandths of a unit, a date-time as whole seconds on the serial scale
/// (86400 per serial day), or anything else. The workbook boundary rounds
/// the sheet's floating-point cells to these fixed-point scales.
#[derive(Debug)]
pub enum CellValue {
    Text(String),
    Number(u64),
    DateTime(u64),
    Other,
}

/// The text of a cell; a non-text cell reads as the empty string.
pub open spec fn spec_cell_text(c: CellValue) -> Seq<char> {
    match c {
        CellValue::Text(s) => s@,
        _ => Seq::empty(),
    }
}

/// The amount of a numeric cell in thousandths; any other cell reads as 0.
pub open spec fn spec_cell_milli(c: CellValue) -> int {
    match c {
        CellValue::Number(n) => n as int,
        _ => 0,
    }
}

/// The serial seconds of a date-typed cell; any other cell reads as 0,
/// the epoch.
pub open spec fn spec_cell_serial(c: CellValue) -> int {
    match c {
        CellValue::DateTime(s) => s as int,
        _ => 0,
    }
}

fn cell_text(c: &CellValue) -> (r: String)
    ensures
        r@ == spec_cell_text(*c),
{
    match c {
        CellValue::Text(s) => s.clone(),
        _ => String::new(),
    }
}

fn cell_milli(c: &CellValue) -> (r: u64)
    ensures
        r == spec_cell_milli(*c),
{
    match c {
        CellValue::Number(n) => *n,
        _ => 0,
    }
}

fn cell_serial(c: &CellValue) -> (r: u64)
    ensures
        r == spec_cell_serial(*c),
{
    match c {
        CellValue::DateTime(s) => *s,
        _ => 0,
    }
}

/// Whole days between the Unix epoch and `timestamp_secs`.
pub fn days_from_seconds(timestamp_secs: u64) -> (r: u64)
    ensures
        r == timestamp_secs as int / 86400,
{
    timestamp_secs / 86400
}

/// Serial seconds mapped onto the Unix scale; a pre-epoch serial value
/// saturates to the epoch itself, so callers see "unknown" rather than a
/// crash.
pub open spec fn spec_unix_secs_of_serial(serial_secs: int) -> int {
    if serial_secs >= 25569 * 86400 {
        serial_secs - 25569 * 86400
    } else {
        0
    }
}

/// Converts serial seconds to seconds since the Unix epoch, saturating
/// pre-epoch values to 0.
pub fn seconds_from_excel_date(serial_secs: u64) -> (r: u64)
    ensures
        r == spec_unix_secs_of_serial(serial_secs as int),
{
    if serial_secs >= EXCEL_UNIX_EPOCH_SECS {
        serial_secs - EXCEL_UNIX_EPOCH_SECS
    } else {
        0
    }
}

/// The RFC 3339 rendering (UTC designator) of a spreadsheet date given in
/// serial seconds.
pub open spec fn spec_from_excel_date(serial_secs: int) -> Seq<char> {
    spec_rfc3339(spec_moment(spec_unix_secs_of_serial(serial_secs)), "+00:00"@)
}

/// Formats a spreadsheet date, given in serial seconds, as an RFC 3339
/// string with the UTC designator.
pub fn from_excel_date(serial_secs: u64) -> (r: String)
    ensures
        r@ == spec_from_excel_date(serial_secs as int),
{
    let m = Moment::from_duration_since_epoch(seconds_from_excel_date(serial_secs));
    m.to_rfc3339_string()
}

/// Today on the spreadsheet's serial scale, in days; 0 when the system
/// clock reads before the Unix epoch. Whatever the clock reads, the result
/// is 0 or a day count at or past the serial epoch offset.
pub fn today_in_excel_date() -> (r: u64)
    ensures
        r == 0 || r >= 25569,
{
    let now = crate::simple_time::system_time_now();
    match crate::simple_time::secs_since_unix_epoch(&now) {
        Some(s) => {
            proof {
                lemma_div_is_ordered(s as int, u64::MAX as int, 86400);
            }
            days_from_seconds(s) + EXCEL_UNIX_EPOCH
        },
        None => 0,
    }
}

/// The serial-second threshold of the recency filter: only rows whose
/// bidding date lies strictly after `look_back_days` days before `today`
/// stay in scope.
pub open spec fn spec_recency_cutoff(today_excel_days: int, look_back_days: int) -> int {
    if today_excel_days > look_back_days {
        (today_excel_days - look_back_days) * 86400
    } else {
        0
    }
}

/// Computes the recency cutoff in serial seconds from a serial day count.
pub fn recency_cutoff(today_excel_days: u64, look_back_days: u64) -> (r: u64)
    requires
        today_excel_days <= u64::MAX as int / 86400,
    ensures
        r == spec_recency_cutoff(today_excel_days as int, look_back_days as int),
{
    if today_excel_days > look_back_days {
        (today_excel_days - look_back_days) * 86400
    } else {
        0
    }
}

/// A registry number with its leading ordinal marker dropped, when present.
pub open spec fn spec_strip_leading_marker(s: Seq<char>) -> Seq<char> {
    if s.len() > 0 && s[0] == '№' {
        s.subrange(1, s.len() as int)
    } else {
        s
    }
}

fn strip_leading_marker(s: String) -> (r: String)
    ensures
        r@ == spec_strip_leading_marker(s@),
{
    let len = s.as_str().unicode_len();
    if len > 0 && s.as_str().get_char(0) == '№' {
        s.as_str().substring_char(1, len).to_owned()
    } else {
        s
    }
}

/// A date-time column combined with its paired date column: a time-only
/// value (under one serial day) is replaced by — or, under the summing
/// convention, added to — the paired date; a full date-time stands alone.
pub open spec fn spec_combined_datetime(time_c: CellValue, date_c: CellValue, sum: bool) -> int {
    let t = spec_cell_serial(time_c);
    if t < 86400 {
        if sum {
            spec_cell_serial(date_c) + t
        } else {
            spec_cell_serial(date_c)
        }
    } else {
        t
    }
}

fn combined_datetime(time_c: &CellValue, date_c: &CellValue, sum: bool) -> (r: u64)
    requires
        sum ==> spec_cell_serial(*date_c) + 86400 <= u64::MAX,
    ensures
        r == spec_combined_datetime(*time_c, *date_c, sum),
{
    let t = cell_serial(time_c);
    if t < 86400 {
        if sum {
            cell_serial(date_c) + t
        } else {
            cell_serial(date_c)
        }
    } else {
        t
    }
}

/// Every mapped column lies inside a row of width `n`.
pub open spec fn spec_cols_fit(cols: NamedCols, n: int) -> bool {
    &&& cols.registry_number < n
    &&& cols.purchase_subject < n
    &&& cols.purchase_abbr < n
    &&& cols.purchase_type < n
    &&& cols.collecting_datetime < n
    &&& cols.approval_datetime < n
    &&& cols.bidding_datetime < n
    &&& cols.bidding_date < n
    &&& cols.collecting_date < n
    &&& cols.region < n
    &&& cols.customer_type < n
    &&& cols.max_price < n
    &&& cols.application_guarantee < n
    &&& cols.contract_guarantee < n
    &&& cols.status < n
    &&& cols.our_participants < n
    &&& cols.estimation < n
    &&& cols.etp < n
    &&& cols.winner < n
    &&& cols.winner_price < n
    &&& cols.participants < n
}

/// Every date-typed cell leaves a day's headroom below `u64::MAX`, so the
/// summing convention cannot overflow.
pub open spec fn spec_serials_bounded(rows: Seq<Vec<CellValue>>) -> bool {
    forall|i: int, j: int|
        0 <= i < rows.len() && 0 <= j < rows[i]@.len() ==> spec_cell_serial(
            #[trigger] rows[i]@[j],
        ) + 86400 <= u64::MAX
}

/// The row filter: the status column holds a recognized active state, and
/// the bidding-date column holds a date-typed cell strictly newer than the
/// cutoff.
pub open spec fn spec_row_active(row: Seq<CellValue>, cols: NamedCols, cutoff: int) -> bool {
    &&& row[cols.status as int] is Text
    &&& row[cols.bidding_date as int] is DateTime
    &&& spec_cell_serial(row[cols.bidding_date as int]) > cutoff
    &&& spec_is_active_state(spec_cell_text(row[cols.status as int]))
}

/// The record a surviving row materializes into: every field from its
/// mapped column under the permissive coercions — text defaults to empty,
/// amounts to 0, dates to the epoch — with the registry number stripped of
/// its leading marker and the two date-time pairs combined.
pub open spec fn spec_purchase_of_row(row: Seq<CellValue>, cols: NamedCols, sum: bool) -> PurchaseV {
    PurchaseV {
        registry_number: spec_strip_leading_marker(
            spec_cell_text(row[cols.registry_number as int]),
        ),
        purchase_subject: spec_cell_text(row[cols.purchase_subject as int]),
        purchase_abbr: spec_cell_text(row[cols.purchase_abbr as int]),
        purchase_type: spec_cell_text(row[cols.purchase_type as int]),
        collecting_datetime: spec_from_excel_date(
            spec_combined_datetime(
                row[cols.collecting_datetime as int],
                row[cols.collecting_date as int],
                sum,
            ),
        ),
        approval_datetime: spec_from_excel_date(
            spec_cell_serial(row[cols.approval_datetime as int]),
        ),
        bidding_datetime: spec_from_excel_date(
            spec_combined_datetime(
                row[cols.bidding_datetime as int],
                row[cols.bidding_date as int],
                sum,
            ),
        ),
        region: spec_cell_text(row[cols.region as int]),
        customer_type: spec_cell_text(row[cols.customer_type as int]),
        max_price: spec_cell_milli(row[cols.max_price as int]),
        application_guarantee: spec_cell_milli(row[cols.application_guarantee as int]),
        contract_guarantee: spec_cell_milli(row[cols.contract_guarantee as int]),
        status: spec_cell_text(row[cols.status as int]),
        our_participants: spec_cell_text(row[cols.our_participants as int]),
        estimation: spec_cell_milli(row[cols.estimation as int]),
        etp: spec_cell_text(row[cols.etp as int]),
        winner: spec_cell_text(row[cols.winner as int]),
        winner_price: spec_cell_milli(row[cols.winner_price as int]),
        participants: spec_cell_text(row[cols.participants as int]),
    }
}

/// The records the scanned rows yield: each active row's record, in row
/// order.
pub open spec fn spec_extract(
    rows: Seq<Vec<CellValue>>,
    cols: NamedCols,
    cutoff: int,
    sum: bool,
) -> Seq<PurchaseV>
    decreases rows.len(),
{
    if rows.len() == 0 {
        Seq::empty()
    } else {
        let prefix = spec_extract(rows.drop_last(), cols, cutoff, sum);
        if spec_row_active(rows.last()@, cols, cutoff) {
            prefix.push(spec_purchase_of_row(rows.last()@, cols, sum))
        } else {
            prefix
        }
    }
}

/// How many rows the scan visits: all of them, capped by the safety bound.
pub open spec fn spec_scan_len(n: int) -> int {
    if n <= 7000 {
        n
    } else {
        7000
    }
}

/// Scans the worksheet rows — at most `WORKBOOK_MAX_ROWS` of them — and
/// materializes a purchase record for every row whose status is an active
/// state and whose bidding date passes the recency cutoff.
pub fn active_state_cells(
    rows: &Vec<Vec<CellValue>>,
    cols: NamedCols,
    cutoff_serial_secs: u64,
    sum_date_and_time: bool,
) -> (res: Vec<Purchase>)
    requires
        forall|i: int| 0 <= i < rows@.len() ==> spec_cols_fit(cols, (#[trigger] rows@[i])@.len() as int),
        sum_date_and_time ==> spec_serials_bounded(rows@),
    ensures
        views(res@) == spec_extract(
            rows@.take(spec_scan_len(rows@.len() as int)),
            cols,
            cutoff_serial_secs as int,
            sum_date_and_time,
        ),
{
    let ghost rs = rows@;
    let n = if rows.len() > WORKBOOK_MAX_ROWS {
        WORKBOOK_MAX_ROWS
    } else {
        rows.len()
    };
    let mut res: Vec<Purchase> = Vec::new();
    let mut k: usize = 0;
    while k < n
        invariant
            0 <= k <= n,
            n == spec_scan_len(rs.len() as int),
            rs == rows@,
            forall|i: int| 0 <= i < rs.len() ==> spec_cols_fit(cols, (#[trigger] rs[i])@.len() as int),
            sum_date_and_time ==> spec_serials_bounded(rs),
            views(res@) == spec_extract(
                rs.take(k as int),
                cols,
                cutoff_serial_secs as int,
                sum_date_and_time,
            ),
        decreases n - k,
    {
        proof {
            assert(rs.take(k + 1).drop_last() =~= rs.take(k as int));
            assert(rs.take(k + 1).last() == rs[k as int]);
        }
        let row = &rows[k];
        let active: bool;
        match (&row[cols.status], &row[cols.bidding_date]) {
            (CellValue::Text(s), CellValue::DateTime(dt)) => {
                active = *dt > cutoff_serial_secs && is_active_state(s.as_str());
            },
            _ => {
                active = false;
            },
        }
        proof {
            assert(active == spec_row_active(row@, cols, cutoff_serial_secs as int));
        }
        if active {
            proof {
                if sum_date_and_time {
                    assert(spec_cell_serial(rs[k as int]@[cols.bidding_date as int]) + 86400
                        <= u64::MAX);
                    assert(spec_cell_serial(rs[k as int]@[cols.collecting_date as int]) + 86400
                        <= u64::MAX);
                }
            }
            let bid_dt = combined_datetime(
                &row[cols.bidding_datetime],
                &row[cols.bidding_date],
                sum_date_and_time,
            );
            let col_dt = combined_datetime(
                &row[cols.collecting_datetime],
                &row[cols.collecting_date],
                sum_date_and_time,
            );
            let p = Purchase {
                registry_number: strip_leading_marker(cell_text(&row[cols.registry_number])),
                purchase_subject: cell_text(&row[cols.purchase_subject]),
                purchase_abbr: cell_text(&row[cols.purchase_abbr]),
                purchase_type: cell_text(&row[cols.purchase_type]),
                collecting_datetime: from_excel_date(col_dt),
                approval_datetime: from_excel_date(cell_serial(&row[cols.approval_datetime])),
                bidding_datetime: from_excel_date(bid_dt),
                region: cell_text(&row[cols.region]),
                customer_type: cell_text(&row[cols.customer_type]),
                max_price: cell_milli(&row[cols.max_price]),
                application_guarantee: cell_milli(&row[cols.application_guarantee]),
                contract_guarantee: cell_milli(&row[cols.contract_guarantee]),
                status: cell_text(&row[cols.status]),
                our_participants: cell_text(&row[cols.our_participants]),
                estimation: cell_milli(&row[cols.estimation]),
                etp: cell_text(&row[cols.etp]),
                winner: cell_text(&row[cols.winner]),
                winner_price: cell_milli(&row[cols.winner_price]),
                participants: cell_text(&row[cols.participants]),
            };
            let ghost r0 = res@;
            let ghost pv = p@;
            res.push(p);
            proof {
                assert(pv == spec_purchase_of_row(rs[k as int]@, cols, sum_date_and_time));
                assert(views(res@) =~= views(r0).push(pv));
                assert(views(res@) =~= spec_extract(
                    rs.take(k + 1),
                    cols,
                    cutoff_serial_secs as int,
                    sum_date_and_time,
                ));
            }
        } else {
            proof {
                assert(views(res@) =~= spec_extract(
                    rs.take(k + 1),
                    cols,
                    cutoff_serial_secs as int,
                    sum_date_and_time,
                ));
            }
        }
        k += 1;
    }
    res
}

} // verus!
