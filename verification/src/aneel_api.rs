//! Residential tariffs published by ANEEL (Brazil's electricity regulator): selecting the
//! conventional residential records of a query and averaging them into one state tariff.
use crate::decimal::{
    group_ops_wf, magnitude, rounded_quotient,
    dec, dec_of, decimal_from_str, opt_add, opt_div, plain_decimal_mantissa, plain_decimal_scale,
    plain_decimal_text, Dec, DecimalParseError, units, pow10, dec_div, exact_sum,
    max_scale, aligned, MAX_MANTISSA, MAX_SCALE, lemma_units_add, lemma_aligned_units,
    lemma_pow10_monotone, lemma_pow10_positive, lemma_pow10_add,
};
use vstd::seq_lib::{lemma_fold_left_permutation, group_to_multiset_ensures};
use crate::text::{commas_to_points, replace_commas_with_points, str_equals};
use vstd::prelude::*;

verus! {

/// One tariff record of a distribution utility (values in R$/kWh).
pub struct AneelTariffRecord {
    pub utility_name: String,
    pub subgroup: String,
    pub modality: String,
    pub energy_tariff: Dec,
    pub distribution_tariff: Dec,
    pub fio_b_tariff: Dec,
}

/// The records of a datastore query.
pub struct CkanResult {
    pub records: Vec<AneelTariffRecord>,
}

/// The answer of the ANEEL open-data API.
pub struct AneelApiResponse {
    pub success: bool,
    pub result: CkanResult,
}

/// Average tariffs of a state (R$/kWh).
#[derive(Clone, Copy, Debug, PartialEq, Eq, Structural)]
pub struct UnifiedStateTariff {
    pub average_energy_tariff: Dec,
    pub average_distribution_tariff: Dec,
    pub average_fio_b_tariff: Dec,
}

/// Why no state tariff could be given.
#[derive(Debug)]
pub enum TariffError {
    /// The API answered that the query failed.
    QueryFailed,
    /// No residential record was found for the state.
    NoRecords { state: String },
    /// A sum of tariffs left the range of the decimal type.
    Overflow,
}

impl AneelTariffRecord {
    /// The tariff values are valid decimals.
    pub open spec fn wf(&self) -> bool {
        &&& self.energy_tariff.wf()
        &&& self.distribution_tariff.wf()
        &&& self.fio_b_tariff.wf()
    }
}

/// The message that explains a tariff error.
pub open spec fn tariff_error_message(e: TariffError) -> Seq<char> {
    match e {
        TariffError::QueryFailed => "ANEEL API flagged the internal query operation as failed"@,
        TariffError::NoRecords { state } => "No tariff data records found returned by ANEEL for state '"@
            + state@ + "'"@,
        TariffError::Overflow => "Tariff values exceed the decimal range"@,
    }
}

impl TariffError {
    /// The message that explains the error.
    pub fn message(&self) -> (r: String)
        ensures
            r@ == tariff_error_message(*self),
    {
        match self {
            TariffError::QueryFailed => String::from_str(
                "ANEEL API flagged the internal query operation as failed",
            ),
            TariffError::NoRecords { state } => {
                let mut m = String::from_str(
                    "No tariff data records found returned by ANEEL for state '",
                );
                m.append(state.as_str());
                m.append("'");
                m
            },
            TariffError::Overflow => String::from_str("Tariff values exceed the decimal range"),
        }
    }
}

/// A conventional residential (subgroup B1) record.
pub open spec fn is_conventional_residential(r: AneelTariffRecord) -> bool {
    r.subgroup@ == "B1"@ && r.modality@ == "Convencional"@
}

/// The record with its Fio B tariff set to its distribution tariff.
pub open spec fn with_fio_b(r: AneelTariffRecord) -> AneelTariffRecord {
    AneelTariffRecord { fio_b_tariff: r.distribution_tariff, ..r }
}

/// The conventional residential records, in order, each with its Fio B tariff set to its
/// distribution tariff.
pub open spec fn residential_records(rs: Seq<AneelTariffRecord>) -> Seq<AneelTariffRecord>
    decreases rs.len(),
{
    if rs.len() == 0 {
        Seq::empty()
    } else {
        let rest = residential_records(rs.drop_last());
        if is_conventional_residential(rs.last()) {
            rest.push(with_fio_b(rs.last()))
        } else {
            rest
        }
    }
}

/// At most the first five of a sequence.
pub open spec fn first_five<A>(s: Seq<A>) -> Seq<A> {
    if s.len() <= 5 {
        s
    } else {
        s.take(5)
    }
}

/// Extending the input only extends the selection.
proof fn lemma_residential_prefix(rs: Seq<AneelTariffRecord>, k: int)
    requires
        0 <= k <= rs.len(),
    ensures
        residential_records(rs.take(k)).len() <= residential_records(rs).len(),
        residential_records(rs.take(k)) =~= residential_records(rs).take(
            residential_records(rs.take(k)).len() as int,
        ),
    decreases rs.len() - k,
{
    if k < rs.len() {
        lemma_residential_prefix(rs, k + 1);
        assert(rs.take(k + 1).drop_last() =~= rs.take(k));
    } else {
        assert(rs.take(k) =~= rs);
    }
}

/// Every selected record is conventional residential and carries its distribution tariff
/// as Fio B tariff.
pub proof fn lemma_residential_records_shape(rs: Seq<AneelTariffRecord>)
    ensures
        residential_records(rs).len() <= rs.len(),
        forall|i: int|
            0 <= i < residential_records(rs).len() ==> {
                let r = #[trigger] residential_records(rs)[i];
                &&& is_conventional_residential(r)
                &&& r.fio_b_tariff == r.distribution_tariff
            },
    decreases rs.len(),
{
    if rs.len() > 0 {
        lemma_residential_records_shape(rs.drop_last());
    }
}

/// The conventional residential records of a whole answer, in order, each with its Fio B
/// tariff set to its distribution tariff.
pub open spec fn conventional_of(rs: Seq<AneelTariffRecord>) -> Seq<AneelTariffRecord> {
    rs.filter(|r: AneelTariffRecord| is_conventional_residential(r)).map_values(
        |r: AneelTariffRecord| with_fio_b(r),
    )
}

/// The selection keeps every conventional residential record of the whole answer, in
/// order, and nothing else: it is the answer filtered to B1/Convencional, each record with
/// its distribution tariff as Fio B tariff.
pub proof fn lemma_residential_records_complete(rs: Seq<AneelTariffRecord>)
    ensures
        residential_records(rs) == conventional_of(rs),
    decreases rs.len(),
{
    reveal(Seq::filter);
    let pred = |r: AneelTariffRecord| is_conventional_residential(r);
    let f = |r: AneelTariffRecord| with_fio_b(r);
    if rs.len() > 0 {
        let prev = rs.drop_last();
        lemma_residential_records_complete(prev);
        let fp = prev.filter(pred);
        assert(rs.filter(pred) == if pred(rs.last()) {
            fp.push(rs.last())
        } else {
            fp
        });
        if pred(rs.last()) {
            assert(fp.push(rs.last()).map_values(f) =~= fp.map_values(f).push(f(rs.last())));
        }
    } else {
        assert(rs.filter(pred).map_values(f) =~= Seq::<AneelTariffRecord>::empty());
    }
}

/// Copy of a record, with its Fio B tariff set to its distribution tariff.
fn residential_copy(r: &AneelTariffRecord) -> (c: AneelTariffRecord)
    ensures
        c == with_fio_b(*r),
{
    AneelTariffRecord {
        utility_name: r.utility_name.clone(),
        subgroup: r.subgroup.clone(),
        modality: r.modality.clone(),
        energy_tariff: r.energy_tariff,
        distribution_tariff: r.distribution_tariff,
        fio_b_tariff: r.distribution_tariff,
    }
}

/// The records that a successful query yields: the first five conventional residential
/// records, each with its Fio B tariff set to its distribution tariff.
pub fn residential_tariffs_from_response(response: &AneelApiResponse) -> (r: Result<
    Vec<AneelTariffRecord>,
    TariffError,
>)
    ensures
        !response.success ==> r matches Err(TariffError::QueryFailed),
        response.success ==> (r matches Ok(v) && v@ == first_five(
            residential_records(response.result.records@),
        )),
        response.success ==> (r matches Ok(v) && v@ == first_five(conventional_of(response.result.records@))),
{
    if !response.success {
        return Err(TariffError::QueryFailed);
    }
    let records = &response.result.records;
    let ghost rs = records@;
    let n = records.len();
    let mut out: Vec<AneelTariffRecord> = Vec::new();
    let mut i: usize = 0;
    while i < n && out.len() < 5
        invariant
            rs == records@,
            n == rs.len(),
            i <= n,
            out@ == residential_records(rs.take(i as int)),
            out@.len() <= 5,
        decreases n - i,
    {
        let rec = &records[i];
        proof {
            assert(rs.take(i + 1).drop_last() =~= rs.take(i as int));
            assert(rs.take(i + 1).last() == rs[i as int]);
        }
        if str_equals(rec.subgroup.as_str(), "B1") && str_equals(rec.modality.as_str(), "Convencional") {
            out.push(residential_copy(rec));
        }
        i = i + 1;
    }
    proof {
        lemma_residential_records_complete(rs);
        lemma_residential_prefix(rs, i as int);
        if out@.len() < 5 {
            assert(rs.take(i as int) =~= rs);
            lemma_residential_records_shape(rs);
        }
        lemma_residential_records_shape(rs.take(i as int));
    }
    Ok(out)
}

/// One of the three tariffs of a record.
pub enum TariffField {
    Energy,
    Distribution,
    FioB,
}

/// The value of a tariff field of a record.
pub open spec fn field_value(r: AneelTariffRecord, field: TariffField) -> Dec {
    match field {
        TariffField::Energy => r.energy_tariff,
        TariffField::Distribution => r.distribution_tariff,
        TariffField::FioB => r.fio_b_tariff,
    }
}

/// Sum of a tariff field over records, from zero, left to right; `None` on overflow.
pub open spec fn tariff_sum(rs: Seq<AneelTariffRecord>, field: TariffField) -> Option<Dec>
    decreases rs.len(),
{
    if rs.len() == 0 {
        Some(Dec { mantissa: 0, scale: 0, negative: false })
    } else {
        opt_add(tariff_sum(rs.drop_last(), field), Some(field_value(rs.last(), field)))
    }
}

/// The averages of the three tariffs over the records: each sum divided by the number of
/// records; `None` where an operation overflows.
pub open spec fn unified_tariff(rs: Seq<AneelTariffRecord>) -> Option<UnifiedStateTariff> {
    let n = Some(Dec { mantissa: rs.len() as i128, scale: 0, negative: false });
    let e = opt_div(tariff_sum(rs, TariffField::Energy), n);
    let d = opt_div(tariff_sum(rs, TariffField::Distribution), n);
    let f = opt_div(tariff_sum(rs, TariffField::FioB), n);
    match (e, d, f) {
        (Some(e), Some(d), Some(f)) => Some(
            UnifiedStateTariff {
                average_energy_tariff: e,
                average_distribution_tariff: d,
                average_fio_b_tariff: f,
            },
        ),
        _ => None,
    }
}

/// The sum over one more record adds that record's value.
proof fn lemma_tariff_sum_step(rs: Seq<AneelTariffRecord>, field: TariffField, k: int)
    requires
        0 <= k < rs.len(),
    ensures
        tariff_sum(rs.take(k + 1), field) == opt_add(
            tariff_sum(rs.take(k), field),
            Some(field_value(rs[k], field)),
        ),
{
    assert(rs.take(k + 1).drop_last() =~= rs.take(k));
    assert(rs.take(k + 1).last() == rs[k]);
}

/// A sum that overflows on a prefix stays undefined on the whole sequence.
proof fn lemma_tariff_sum_none(
    rs: Seq<AneelTariffRecord>,
    field: TariffField,
    k: int,
)
    requires
        0 <= k <= rs.len(),
        tariff_sum(rs.take(k), field) is None,
    ensures
        tariff_sum(rs, field) is None,
    decreases rs.len() - k,
{
    if k < rs.len() {
        assert(rs.take(k + 1).drop_last() =~= rs.take(k));
        lemma_tariff_sum_none(rs, field, k + 1);
    } else {
        assert(rs.take(k) =~= rs);
    }
}

/// Averages the energy, distribution and Fio B tariffs of a state's records.
/// No record gives `NoRecords` with the state's name.
pub fn get_unified_state_tariff(state_filter: &str, records: &Vec<AneelTariffRecord>) -> (r: Result<
    UnifiedStateTariff,
    TariffError,
>)
    requires
        forall|i: int| 0 <= i < records@.len() ==> (#[trigger] records@[i]).wf(),
    ensures
        records@.len() == 0 ==> (r matches Err(TariffError::NoRecords { state }) && state@
            == state_filter@),
        records@.len() > 0 ==> match unified_tariff(records@) {
            Some(u) => r == Ok::<UnifiedStateTariff, TariffError>(u),
            None => r matches Err(TariffError::Overflow),
        },
        r matches Ok(u) ==> u.average_energy_tariff.wf() && u.average_distribution_tariff.wf()
            && u.average_fio_b_tariff.wf(),
{
    let n = records.len();
    if n == 0 {
        return Err(TariffError::NoRecords { state: String::from_str(state_filter) });
    }
    let ghost rs = records@;
    let mut sum_energy = Dec::zero();
    let mut sum_distribution = Dec::zero();
    let mut sum_fio_b = Dec::zero();
    let mut i: usize = 0;
    while i < n
        invariant
            rs == records@,
            n == rs.len(),
            i <= n,
            forall|j: int| 0 <= j < rs.len() ==> (#[trigger] rs[j]).wf(),
            tariff_sum(rs.take(i as int), TariffField::Energy) == Some(sum_energy),
            tariff_sum(rs.take(i as int), TariffField::Distribution) == Some(sum_distribution),
            tariff_sum(rs.take(i as int), TariffField::FioB) == Some(sum_fio_b),
            sum_energy.wf(),
            sum_distribution.wf(),
            sum_fio_b.wf(),
        decreases n - i,
    {
        let rec = &records[i];
        proof {
            lemma_tariff_sum_step(rs, TariffField::Energy, i as int);
            lemma_tariff_sum_step(rs, TariffField::Distribution, i as int);
            lemma_tariff_sum_step(rs, TariffField::FioB, i as int);
            assert(rs[i as int].wf());
        }
        match sum_energy.checked_add(&rec.energy_tariff) {
            Some(s) => sum_energy = s,
            None => {
                proof {
                    lemma_tariff_sum_none(rs, TariffField::Energy, i + 1);
                }
                return Err(TariffError::Overflow);
            },
        }
        match sum_distribution.checked_add(&rec.distribution_tariff) {
            Some(s) => sum_distribution = s,
            None => {
                proof {
                    lemma_tariff_sum_none(rs, TariffField::Distribution, i + 1);
                }
                return Err(TariffError::Overflow);
            },
        }
        match sum_fio_b.checked_add(&rec.fio_b_tariff) {
            Some(s) => sum_fio_b = s,
            None => {
                proof {
                    lemma_tariff_sum_none(rs, TariffField::FioB, i + 1);
                }
                return Err(TariffError::Overflow);
            },
        }
        i = i + 1;
    }
    proof {
        assert(rs.take(n as int) =~= rs);
    }
    let count = Dec::from_usize(n);
    let avg_energy = sum_energy.checked_div(&count);
    let avg_distribution = sum_distribution.checked_div(&count);
    let avg_fio_b = sum_fio_b.checked_div(&count);
    match (avg_energy, avg_distribution, avg_fio_b) {
        (Some(e), Some(d), Some(f)) => Ok(
            UnifiedStateTariff {
                average_energy_tariff: e,
                average_distribution_tariff: d,
                average_fio_b_tariff: f,
            },
        ),
        _ => Err(TariffError::Overflow),
    }
}

/// Parses a tariff value that may use a decimal comma: commas become points, then the
/// text is parsed as a decimal.
pub fn parse_decimal_flexible(text: &str) -> (r: Result<Dec, DecimalParseError>)
    ensures
        r is Ok <==> decimal_from_str(commas_to_points(text@)) is Some,
        r matches Ok(d) ==> Some(d) == dec_of(decimal_from_str(commas_to_points(text@))) && d.wf(),
        plain_decimal_text(commas_to_points(text@)) ==> r is Ok,
        r matches Ok(d) ==> (plain_decimal_text(commas_to_points(text@)) ==> d == dec(plain_decimal_mantissa(commas_to_points(text@)), plain_decimal_scale(commas_to_points(text@)))),
{
    let normalized = replace_commas_with_points(text);
    Dec::parse(normalized.as_str())
}

/// Folds a record into the running totals of a tariff field: the sum of the values in
/// units and the largest scale.
pub open spec fn add_to_totals(field: TariffField) -> spec_fn((int, int), AneelTariffRecord) -> (int, int) {
    |acc: (int, int), r: AneelTariffRecord|
        (
            acc.0 + units(field_value(r, field)),
            if field_value(r, field).scale as int > acc.1 {
                field_value(r, field).scale as int
            } else {
                acc.1
            },
        )
}

/// The sum in units of a tariff field over the records, and the largest scale among them.
pub open spec fn field_totals(rs: Seq<AneelTariffRecord>, field: TariffField) -> (int, int) {
    rs.fold_left((0int, 0int), add_to_totals(field))
}

/// Every record's value of the field is positive.
pub open spec fn positive_field(rs: Seq<AneelTariffRecord>, field: TariffField) -> bool {
    forall|i: int| 0 <= i < rs.len() ==> (#[trigger] field_value(rs[i], field)).mantissa > 0
}

/// The exact sum of the field, written at the largest scale, fits in 96 bits.
pub open spec fn sum_fits(rs: Seq<AneelTariffRecord>, field: TariffField) -> bool {
    let t = field_totals(rs, field);
    t.0 <= MAX_MANTISSA * pow10((MAX_SCALE - t.1) as nat)
}

/// The records' values of every field are positive and their sums are exact.
pub open spec fn sums_exact(rs: Seq<AneelTariffRecord>) -> bool {
    &&& positive_field(rs, TariffField::Energy)
    &&& positive_field(rs, TariffField::Distribution)
    &&& positive_field(rs, TariffField::FioB)
    &&& sum_fits(rs, TariffField::Energy)
    &&& sum_fits(rs, TariffField::Distribution)
    &&& sum_fits(rs, TariffField::FioB)
}

/// A sum of positive values that fits is exact: it is the positive decimal whose value is
/// the sum of the values, at the largest scale; it is worth at least one unit per record.
pub proof fn lemma_tariff_sum_exact(rs: Seq<AneelTariffRecord>, field: TariffField)
    requires
        forall|i: int| 0 <= i < rs.len() ==> (#[trigger] rs[i]).wf(),
        positive_field(rs, field),
        sum_fits(rs, field),
    ensures
        tariff_sum(rs, field) matches Some(d) && {
            &&& d.wf()
            &&& !d.negative
            &&& units(d) == field_totals(rs, field).0
            &&& d.scale == field_totals(rs, field).1
            &&& (rs.len() > 0 ==> d.mantissa > 0)
        },
        field_totals(rs, field).0 >= rs.len(),
        0 <= field_totals(rs, field).1 <= MAX_SCALE,
    decreases rs.len(),
{
    if rs.len() > 0 {
        let prev = rs.drop_last();
        let x = field_value(rs.last(), field);
        assert(x == field_value(rs[rs.len() - 1], field));
        assert(rs[rs.len() - 1].wf());
        let tp = field_totals(prev, field);
        let t = field_totals(rs, field);
        assert(t == (add_to_totals(field))(tp, rs.last()));
        let px = pow10((MAX_SCALE - x.scale) as nat);
        lemma_pow10_positive((MAX_SCALE - x.scale) as nat);
        assert(units(x) >= 1) by (nonlinear_arith)
            requires
                units(x) == x.mantissa * px,
                x.mantissa >= 1,
                px >= 1,
        ;
        assert forall|i: int| 0 <= i < prev.len() implies (#[trigger] prev[i]).wf()
            && field_value(prev[i], field).mantissa > 0 by {
            assert(prev[i] == rs[i]);
            assert(field_value(rs[i], field).mantissa > 0);
        }
        // The first years' sum fits too: it is smaller and has a scale no larger.
        lemma_tariff_sum_exact_bounds(prev, field);
        lemma_pow10_monotone((MAX_SCALE - t.1) as nat, (MAX_SCALE - tp.1) as nat);
        assert(MAX_MANTISSA * pow10((MAX_SCALE - t.1) as nat) <= MAX_MANTISSA * pow10(
            (MAX_SCALE - tp.1) as nat,
        )) by (nonlinear_arith)
            requires
                pow10((MAX_SCALE - t.1) as nat) <= pow10((MAX_SCALE - tp.1) as nat),
        ;
        lemma_tariff_sum_exact(prev, field);
        let d0 = tariff_sum(prev, field).unwrap();
        assert(tariff_sum(rs, field) == opt_add(Some(d0), Some(x)));
        if prev.len() > 0 {
            let s = max_scale(d0.scale, x.scale);
            assert(s as int == t.1);
            lemma_aligned_units(d0.mantissa, d0.scale, s);
            lemma_aligned_units(x.mantissa, x.scale, s);
            let e = exact_sum(d0.mantissa, d0.scale, x.mantissa, x.scale);
            let ps = pow10((MAX_SCALE - s) as nat);
            lemma_pow10_positive((MAX_SCALE - s) as nat);
            let ea = aligned(d0.mantissa, d0.scale, s);
            let ex = aligned(x.mantissa, x.scale, s);
            assert(e == ea + ex);
            assert(e * ps == ea * ps + ex * ps) by (nonlinear_arith)
                requires
                    e == ea + ex,
            ;
            assert(e * ps == t.0);
            assert(e > 0 && e <= MAX_MANTISSA) by (nonlinear_arith)
                requires
                    e * ps == t.0,
                    t.0 <= MAX_MANTISSA * ps,
                    t.0 > 0,
                    ps > 0,
            ;
            lemma_units_add(d0, x);
        }
    }
}

/// The running totals of a field grow with the records: the sum in units by at least one
/// per record, the largest scale never above 28.
proof fn lemma_tariff_sum_exact_bounds(rs: Seq<AneelTariffRecord>, field: TariffField)
    requires
        forall|i: int| 0 <= i < rs.len() ==> (#[trigger] rs[i]).wf() && field_value(rs[i], field).mantissa > 0,
    ensures
        field_totals(rs, field).0 >= rs.len(),
        0 <= field_totals(rs, field).1 <= MAX_SCALE,
    decreases rs.len(),
{
    if rs.len() > 0 {
        let prev = rs.drop_last();
        assert forall|i: int| 0 <= i < prev.len() implies (#[trigger] prev[i]).wf()
            && field_value(prev[i], field).mantissa > 0 by {
            assert(prev[i] == rs[i]);
        }
        lemma_tariff_sum_exact_bounds(prev, field);
        let x = field_value(rs.last(), field);
        assert(x == field_value(rs[rs.len() - 1], field));
        let px = pow10((MAX_SCALE - x.scale) as nat);
        lemma_pow10_positive((MAX_SCALE - x.scale) as nat);
        assert(units(x) >= 1) by (nonlinear_arith)
            requires
                units(x) == x.mantissa * px,
                x.mantissa >= 1,
                px >= 1,
        ;
    }
}

/// A decimal is fixed by its value, its scale and its sign flag.
proof fn lemma_dec_from_units(a: Dec, b: Dec)
    requires
        a.scale == b.scale,
        a.negative == b.negative,
        units(a) == units(b),
    ensures
        a == b,
{
    let p = pow10((MAX_SCALE - a.scale) as nat);
    lemma_pow10_positive((MAX_SCALE - a.scale) as nat);
    assert(a.mantissa == b.mantissa) by (nonlinear_arith)
        requires
            a.mantissa * p == b.mantissa * p,
            p > 0,
    ;
}

/// The running totals of a field do not depend on the order of the records.
proof fn lemma_field_totals_permutation(rs1: Seq<AneelTariffRecord>, rs2: Seq<AneelTariffRecord>, field: TariffField)
    requires
        rs1.to_multiset() == rs2.to_multiset(),
    ensures
        field_totals(rs1, field) == field_totals(rs2, field),
{
    let f = add_to_totals(field);
    assert forall|x: AneelTariffRecord, y: AneelTariffRecord, v: (int, int)| #[trigger] f(f(v, x), y) == f(f(v, y), x) by {
    }
    lemma_fold_left_permutation(rs1, rs2, f, (0int, 0int));
}

/// The averages do not depend on the order of the records: two lists that hold the same
/// records, in any order, give the same averages, where every tariff is positive and every
/// sum is exact.
pub proof fn lemma_unified_tariff_order_independent(
    rs1: Seq<AneelTariffRecord>,
    rs2: Seq<AneelTariffRecord>,
)
    requires
        rs1.to_multiset() == rs2.to_multiset(),
        forall|i: int| 0 <= i < rs1.len() ==> (#[trigger] rs1[i]).wf(),
        sums_exact(rs1),
    ensures
        unified_tariff(rs1) == unified_tariff(rs2),
{
    broadcast use group_to_multiset_ensures;

    assert(rs1.to_multiset().len() == rs1.len());
    assert(rs2.to_multiset().len() == rs2.len());
    assert forall|i: int| 0 <= i < rs2.len() implies (#[trigger] rs2[i]).wf() && field_value(
        rs2[i],
        TariffField::Energy,
    ).mantissa > 0 && field_value(rs2[i], TariffField::Distribution).mantissa > 0
        && field_value(rs2[i], TariffField::FioB).mantissa > 0 by {
        assert(rs2.contains(rs2[i]));
        assert(rs2.to_multiset().count(rs2[i]) > 0);
        assert(rs1.to_multiset().count(rs2[i]) > 0);
        assert(rs1.contains(rs2[i]));
        let j = choose|j: int| 0 <= j < rs1.len() && rs1[j] == rs2[i];
        assert(field_value(rs1[j], TariffField::Energy).mantissa > 0);
        assert(field_value(rs1[j], TariffField::Distribution).mantissa > 0);
        assert(field_value(rs1[j], TariffField::FioB).mantissa > 0);
    }
    lemma_field_totals_permutation(rs1, rs2, TariffField::Energy);
    lemma_field_totals_permutation(rs1, rs2, TariffField::Distribution);
    lemma_field_totals_permutation(rs1, rs2, TariffField::FioB);
    lemma_tariff_sum_exact(rs1, TariffField::Energy);
    lemma_tariff_sum_exact(rs2, TariffField::Energy);
    lemma_tariff_sum_exact(rs1, TariffField::Distribution);
    lemma_tariff_sum_exact(rs2, TariffField::Distribution);
    lemma_tariff_sum_exact(rs1, TariffField::FioB);
    lemma_tariff_sum_exact(rs2, TariffField::FioB);
    lemma_dec_from_units(
        tariff_sum(rs1, TariffField::Energy).unwrap(),
        tariff_sum(rs2, TariffField::Energy).unwrap(),
    );
    lemma_dec_from_units(
        tariff_sum(rs1, TariffField::Distribution).unwrap(),
        tariff_sum(rs2, TariffField::Distribution).unwrap(),
    );
    lemma_dec_from_units(
        tariff_sum(rs1, TariffField::FioB).unwrap(),
        tariff_sum(rs2, TariffField::FioB).unwrap(),
    );
}

/// The average of a positive field with an exact sum is positive.
proof fn lemma_average_positive(rs: Seq<AneelTariffRecord>, field: TariffField)
    requires
        0 < rs.len() <= MAX_MANTISSA,
        forall|i: int| 0 <= i < rs.len() ==> (#[trigger] rs[i]).wf(),
        positive_field(rs, field),
        sum_fits(rs, field),
        opt_div(
            tariff_sum(rs, field),
            Some(Dec { mantissa: rs.len() as i128, scale: 0, negative: false }),
        ) is Some,
    ensures
        opt_div(
            tariff_sum(rs, field),
            Some(Dec { mantissa: rs.len() as i128, scale: 0, negative: false }),
        ).unwrap().mantissa > 0,
{
    lemma_tariff_sum_exact(rs, field);
    let d = tariff_sum(rs, field).unwrap();
    let n = Dec { mantissa: rs.len() as i128, scale: 0, negative: false };
    let len = rs.len() as int;
    assert(n.mantissa == len);
    let q = pow10((MAX_SCALE - d.scale) as nat);
    let ps = pow10(d.scale as nat);
    let big = pow10(MAX_SCALE as nat);
    lemma_pow10_add(d.scale as nat, (MAX_SCALE - d.scale) as nat);
    assert(d.scale as nat + (MAX_SCALE - d.scale) as nat == MAX_SCALE as nat);
    lemma_pow10_positive(d.scale as nat);
    assert(d.mantissa * big >= len * ps) by (nonlinear_arith)
        requires
            d.mantissa * q >= len,
            big == ps * q,
            ps > 0,
    ;
    assert(pow10((n.scale + MAX_SCALE) as nat) == big);
    assert(pow10(n.scale as nat) == 1);
    assert(dec_div(d, n) is Some);
}

/// The averages of records whose tariffs are all positive, with exact sums, are positive.
pub proof fn lemma_unified_tariff_positive(rs: Seq<AneelTariffRecord>)
    requires
        0 < rs.len() <= MAX_MANTISSA,
        forall|i: int| 0 <= i < rs.len() ==> (#[trigger] rs[i]).wf(),
        sums_exact(rs),
        unified_tariff(rs) is Some,
    ensures
        unified_tariff(rs).unwrap().average_energy_tariff.mantissa > 0,
        unified_tariff(rs).unwrap().average_distribution_tariff.mantissa > 0,
        unified_tariff(rs).unwrap().average_fio_b_tariff.mantissa > 0,
{
    lemma_average_positive(rs, TariffField::Energy);
    lemma_average_positive(rs, TariffField::Distribution);
    lemma_average_positive(rs, TariffField::FioB);
}

/// The sum of a field over valid records is a valid decimal.
proof fn lemma_tariff_sum_wf(rs: Seq<AneelTariffRecord>, field: TariffField)
    requires
        forall|i: int| 0 <= i < rs.len() ==> (#[trigger] rs[i]).wf(),
    ensures
        tariff_sum(rs, field) matches Some(d) ==> d.wf(),
    decreases rs.len(),
{
    broadcast use group_ops_wf;

    if rs.len() > 0 {
        let prev = rs.drop_last();
        assert forall|i: int| 0 <= i < prev.len() implies (#[trigger] prev[i]).wf() by {
            assert(prev[i] == rs[i]);
        }
        lemma_tariff_sum_wf(prev, field);
        assert(rs[rs.len() - 1].wf());
        assert(field_value(rs.last(), field).wf());
    }
}

/// An average is the sum divided by the number of records: the average times the number of
/// records lies within that many units of the average's last digit of the sum.
pub proof fn lemma_average_times_count(rs: Seq<AneelTariffRecord>, field: TariffField)
    requires
        0 < rs.len() <= MAX_MANTISSA,
        forall|i: int| 0 <= i < rs.len() ==> (#[trigger] rs[i]).wf(),
        opt_div(
            tariff_sum(rs, field),
            Some(Dec { mantissa: rs.len() as i128, scale: 0, negative: false }),
        ) is Some,
    ensures
        ({
            let sum = tariff_sum(rs, field).unwrap();
            let avg = opt_div(
                tariff_sum(rs, field),
                Some(Dec { mantissa: rs.len() as i128, scale: 0, negative: false }),
            ).unwrap();
            magnitude(units(avg) * rs.len() - units(sum)) <= rs.len() * pow10(
                (MAX_SCALE - avg.scale) as nat,
            )
        }),
{
    lemma_tariff_sum_wf(rs, field);
    let d = tariff_sum(rs, field).unwrap();
    let n = Dec { mantissa: rs.len() as i128, scale: 0, negative: false };
    let len = rs.len() as int;
    let avg = dec_div(d, n).unwrap();
    let q = pow10((MAX_SCALE - avg.scale) as nat);
    lemma_pow10_positive((MAX_SCALE - avg.scale) as nat);
    if d.mantissa == 0 {
        let pd = pow10((MAX_SCALE - d.scale) as nat);
        assert(units(d) == 0) by (nonlinear_arith)
            requires
                units(d) == d.mantissa * pd,
                d.mantissa == 0,
        ;
        assert(avg == dec(0, 0));
        assert(units(avg) == 0) by (nonlinear_arith)
            requires
                units(avg) == avg.mantissa * q,
                avg.mantissa == 0,
        ;
        assert(len * q >= 0) by (nonlinear_arith)
            requires
                len > 0,
                q > 0,
        ;
    } else {
        assert(rounded_quotient(d.parts(), n.parts(), avg.parts()));
        let a = avg.mantissa as int;
        let b = d.mantissa as int;
        let x = pow10(d.scale as nat);
        let y = pow10(avg.scale as nat);
        let pp = pow10((MAX_SCALE - d.scale) as nat);
        let t = pow10(MAX_SCALE as nat);
        assert(pow10((n.scale + avg.scale) as nat) == y);
        lemma_pow10_add(d.scale as nat, (MAX_SCALE - d.scale) as nat);
        lemma_pow10_add(avg.scale as nat, (MAX_SCALE - avg.scale) as nat);
        assert(d.scale as nat + (MAX_SCALE - d.scale) as nat == MAX_SCALE as nat);
        assert(avg.scale as nat + (MAX_SCALE - avg.scale) as nat == MAX_SCALE as nat);
        lemma_pow10_positive(d.scale as nat);
        lemma_pow10_positive((MAX_SCALE - d.scale) as nat);
        lemma_pow10_positive(MAX_SCALE as nat);
        let d1 = a * len * x - b * y;
        let d2 = a * q * len - b * pp;
        assert(magnitude(d1) <= len * x);
        let u = a * len * x;
        let v = b * y;
        let w = pp * q;
        assert((u - v) * w == u * w - v * w) by (nonlinear_arith);
        assert(u * w == (a * q * len) * (x * pp)) by (nonlinear_arith)
            requires
                u == a * len * x,
                w == pp * q,
        ;
        assert(v * w == (b * pp) * (y * q)) by (nonlinear_arith)
            requires
                v == b * y,
                w == pp * q,
        ;
        assert((a * q * len) * t - (b * pp) * t == d2 * t) by (nonlinear_arith)
            requires
                d2 == a * q * len - b * pp,
        ;
        assert(d1 * (pp * q) == d2 * t);
        assert(magnitude(d2) <= len * q) by (nonlinear_arith)
            requires
                d1 * (pp * q) == d2 * t,
                magnitude(d1) <= len * x,
                magnitude(d1) == if d1 < 0 { -d1 } else { d1 },
                magnitude(d2) == if d2 < 0 { -d2 } else { d2 },
                x * pp == t,
                pp > 0,
                q > 0,
                t > 0,
        ;
        assert(units(avg) == a * q);
        assert(units(d) == b * pp);
        assert(units(avg) * len - units(d) == d2) by (nonlinear_arith)
            requires
                units(avg) == a * q,
                units(d) == b * pp,
                d2 == a * q * len - b * pp,
        ;
    }
}

} // verus!
