//! The purchase record: one row of business data, the unit of extraction
//! and comparison.

use vstd::prelude::*;

verus! {

/// Sentinel status given to a record that dropped out of the active set.
pub const STATUS_NOT_GO: &'static str = "не идем";

/// One row of business data. Monetary amounts are fixed-point, in
/// thousandths of a currency unit (the workbook boundary rounds the sheet's
/// floating-point cells to this precision); date-times are pre-rendered
/// RFC 3339 strings.
#[derive(Debug)]
pub struct Purchase {
    pub registry_number: String,
    pub purchase_subject: String,
    pub purchase_abbr: String,
    pub purchase_type: String,
    pub collecting_datetime: String,
    pub approval_datetime: String,
    pub bidding_datetime: String,
    pub region: String,
    pub customer_type: String,
    pub max_price: u64,
    pub application_guarantee: u64,
    pub contract_guarantee: u64,
    pub status: String,
    pub our_participants: String,
    pub estimation: u64,
    pub etp: String,
    pub winner: String,
    pub winner_price: u64,
    pub participants: String,
}

/// The mathematical shape of a purchase record: character sequences and
/// unbounded integers.
pub struct PurchaseV {
    pub registry_number: Seq<char>,
    pub purchase_subject: Seq<char>,
    pub purchase_abbr: Seq<char>,
    pub purchase_type: Seq<char>,
    pub collecting_datetime: Seq<char>,
    pub approval_datetime: Seq<char>,
    pub bidding_datetime: Seq<char>,
    pub region: Seq<char>,
    pub customer_type: Seq<char>,
    pub max_price: int,
    pub application_guarantee: int,
    pub contract_guarantee: int,
    pub status: Seq<char>,
    pub our_participants: Seq<char>,
    pub estimation: int,
    pub etp: Seq<char>,
    pub winner: Seq<char>,
    pub winner_price: int,
    pub participants: Seq<char>,
}

impl View for Purchase {
    type V = PurchaseV;

    open spec fn view(&self) -> PurchaseV {
        PurchaseV {
            registry_number: self.registry_number@,
            purchase_subject: self.purchase_subject@,
            purchase_abbr: self.purchase_abbr@,
            purchase_type: self.purchase_type@,
            collecting_datetime: self.collecting_datetime@,
            approval_datetime: self.approval_datetime@,
            bidding_datetime: self.bidding_datetime@,
            region: self.region@,
            customer_type: self.customer_type@,
            max_price: self.max_price as int,
            application_guarantee: self.application_guarantee as int,
            contract_guarantee: self.contract_guarantee as int,
            status: self.status@,
            our_participants: self.our_participants@,
            estimation: self.estimation as int,
            etp: self.etp@,
            winner: self.winner@,
            winner_price: self.winner_price as int,
            participants: self.participants@,
        }
    }
}

/// The diffing equivalence: identity, the three date-times, region, status,
/// participants, winner, and the two amount fields truncated to whole
/// currency units — sub-unit differences are ignored by design. Descriptive
/// fields (subject, platform, guarantees, maximum price) are excluded.
pub open spec fn spec_equiv(a: PurchaseV, b: PurchaseV) -> bool {
    &&& a.registry_number == b.registry_number
    &&& a.collecting_datetime == b.collecting_datetime
    &&& a.approval_datetime == b.approval_datetime
    &&& a.bidding_datetime == b.bidding_datetime
    &&& a.region == b.region
    &&& a.status == b.status
    &&& a.estimation / 1000 == b.estimation / 1000
    &&& a.our_participants == b.our_participants
    &&& a.winner == b.winner
    &&& a.winner_price / 1000 == b.winner_price / 1000
    &&& a.participants == b.participants
}

impl PartialEq for Purchase {
    /// Record equivalence for diffing, per `spec_equiv`.
    fn eq(&self, other: &Self) -> (r: bool) {
        self.registry_number == other.registry_number
            && self.collecting_datetime == other.collecting_datetime
            && self.approval_datetime == other.approval_datetime
            && self.bidding_datetime == other.bidding_datetime
            && self.region == other.region
            && self.status == other.status
            && self.estimation / 1000 == other.estimation / 1000
            && self.our_participants == other.our_participants
            && self.winner == other.winner
            && self.winner_price / 1000 == other.winner_price / 1000
            && self.participants == other.participants
    }
}

impl vstd::std_specs::cmp::PartialEqSpecImpl for Purchase {
    open spec fn obeys_eq_spec() -> bool {
        true
    }

    open spec fn eq_spec(&self, other: &Self) -> bool {
        spec_equiv(self@, other@)
    }
}

impl Clone for Purchase {
    fn clone(&self) -> (res: Self)
        ensures
            res == *self,
    {
        Purchase {
            registry_number: self.registry_number.clone(),
            purchase_subject: self.purchase_subject.clone(),
            purchase_abbr: self.purchase_abbr.clone(),
            purchase_type: self.purchase_type.clone(),
            collecting_datetime: self.collecting_datetime.clone(),
            approval_datetime: self.approval_datetime.clone(),
            bidding_datetime: self.bidding_datetime.clone(),
            region: self.region.clone(),
            customer_type: self.customer_type.clone(),
            max_price: self.max_price,
            application_guarantee: self.application_guarantee,
            contract_guarantee: self.contract_guarantee,
            status: self.status.clone(),
            our_participants: self.our_participants.clone(),
            estimation: self.estimation,
            etp: self.etp.clone(),
            winner: self.winner.clone(),
            winner_price: self.winner_price,
            participants: self.participants.clone(),
        }
    }
}

/// Tolerance of the amount comparison: two records that agree on every
/// field except one amount are equivalent exactly when that amount agrees
/// in its whole currency units — the fractional part never distinguishes
/// them, a whole-unit difference always does.
pub proof fn lemma_price_tolerance(a: PurchaseV, b: PurchaseV)
    requires
        a.registry_number == b.registry_number,
        a.purchase_subject == b.purchase_subject,
        a.purchase_abbr == b.purchase_abbr,
        a.purchase_type == b.purchase_type,
        a.collecting_datetime == b.collecting_datetime,
        a.approval_datetime == b.approval_datetime,
        a.bidding_datetime == b.bidding_datetime,
        a.region == b.region,
        a.customer_type == b.customer_type,
        a.max_price == b.max_price,
        a.application_guarantee == b.application_guarantee,
        a.contract_guarantee == b.contract_guarantee,
        a.status == b.status,
        a.our_participants == b.our_participants,
        a.etp == b.etp,
        a.winner == b.winner,
        a.winner_price == b.winner_price,
        a.participants == b.participants,
    ensures
        spec_equiv(a, b) <==> a.estimation / 1000 == b.estimation / 1000,
{
}

} // verus!
