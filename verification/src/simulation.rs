//! The 25-year return-on-investment projection of a solar installation.
//!
//! Consumption is deduced from the average bill and the state tariff; each year the
//! installation generates `capacity × peak sun hours × 30 × 12 × efficiency` kWh, with
//! efficiency dropping 0.5 % a year.  Generation offsets consumption; the compensated
//! energy pays the distribution charge ("Fio B") that the legal transition rules phase
//! in, and the bill never drops below the availability fee of the connection.
use crate::aneel_api::UnifiedStateTariff;
use crate::decimal::{
    dec, dec_add, dec_lt, dec_max, dec_min, dec_mul, dec_round_dp, dec_sub, opt_add, opt_div,
    opt_mul, opt_sub, pow10, Dec, dec_neg, exact_difference, aligned, units, add_fits, sub_fits,
    mul_fits, lemma_units_lt, lemma_units_add, lemma_units_sub, lemma_units_mul, lemma_units_zero,
    lemma_units_neg, lemma_units_min_max, lemma_pow10_positive, group_ops_wf, MAX_SCALE,
    lemma_round_dp_scale, lemma_round_dp_monotone, dec_div,
};
use vstd::prelude::*;

verus! {

/// The type of electrical phase connection of an installation.
#[derive(Clone, Copy, Debug, PartialEq, Eq, Structural)]
pub enum PhaseConnection {
    /// Minimum fee: 30 kWh a month.
    Monophasic,
    /// Minimum fee: 50 kWh a month.
    Biphasic,
    /// Minimum fee: 100 kWh a month.
    Triphasic,
}

/// Input data for a solar ROI simulation.
pub struct SimulationInput {
    pub location_state: String,
    pub average_bill_reais: Dec,
    pub system_capacity_kwp: Dec,
    pub total_investment_reais: Dec,
    pub phase_type: PhaseConnection,
}

/// Year-by-year projection of the simulation (values rounded to two decimals).
#[derive(Clone, Copy, Debug, PartialEq, Eq, Structural)]
pub struct YearlyProjection {
    pub year: u32,
    pub energy_generate_kwh: Dec,
    pub gross_savings_reais: Dec,
    pub distribution_cost_reais: Dec,
    pub net_saving_reais: Dec,
    pub cumulative_cash_flow_reais: Dec,
}

/// Result of a complete simulation.
pub struct SimulationResult {
    pub payback_years: Dec,
    pub total_25yr_savings_reais: Dec,
    pub annual_table: Vec<YearlyProjection>,
}

/// Why a simulation could not be completed.
#[derive(Clone, Copy, Debug, PartialEq, Eq, Structural)]
pub enum SimulationError {
    /// A computation left the range of the decimal type, or the tariff was zero.
    Arithmetic,
}

/// A rule for the share of the distribution charge (Fio B) that compensated energy pays.
pub trait TaxStrategy {
    /// The share for a year, as a fraction (0.15 = 15 %).
    fn get_distribution_charge_percentage(&self, year: u32) -> Dec;
}

/// Legal framework for distribution charges (Fio B): Law 14.300 phases the charge in
/// from 15 % in 2023 to 90 % in 2028; every other year pays the full charge.
pub struct GeneralLegalFramework;

/// The Fio B share of a year under the general legal framework.
pub open spec fn distribution_charge_percentage(year: u32) -> Dec {
    if year == 2023 {
        dec(15, 2)
    } else if year == 2024 {
        dec(30, 2)
    } else if year == 2025 {
        dec(45, 2)
    } else if year == 2026 {
        dec(60, 2)
    } else if year == 2027 {
        dec(75, 2)
    } else if year == 2028 {
        dec(90, 2)
    } else {
        dec(1, 0)
    }
}

impl TaxStrategy for GeneralLegalFramework {
    /// Returns the Fio B charge percentage for a given year, as a decimal fraction.
    fn get_distribution_charge_percentage(&self, year: u32) -> (r: Dec)
        ensures
            r == distribution_charge_percentage(year),
            r.wf(),
            2023 <= year <= 2028 ==> r == dec(15 * (year - 2022), 2),
            !(2023 <= year <= 2028) ==> r == dec(1, 0),
            0 < r.mantissa <= pow10(r.scale as nat),
    {
        proof {
            reveal_with_fuel(pow10, 3);
        }
        if year == 2023 {
            Dec { mantissa: 15, scale: 2, negative: false }
        } else if year == 2024 {
            Dec { mantissa: 30, scale: 2, negative: false }
        } else if year == 2025 {
            Dec { mantissa: 45, scale: 2, negative: false }
        } else if year == 2026 {
            Dec { mantissa: 60, scale: 2, negative: false }
        } else if year == 2027 {
            Dec { mantissa: 75, scale: 2, negative: false }
        } else if year == 2028 {
            Dec { mantissa: 90, scale: 2, negative: false }
        } else {
            Dec { mantissa: 1, scale: 0, negative: false }
        }
    }
}

/// From 2023 on, the distribution-charge share never decreases from one year to a later one.
pub proof fn lemma_percentage_nondecreasing(y1: u32, y2: u32)
    requires
        2023 <= y1 <= y2,
    ensures
        !dec_lt(distribution_charge_percentage(y2), distribution_charge_percentage(y1)),
{
    reveal_with_fuel(pow10, 3);
    assert(pow10(2) == 100);
    assert(pow10(0) == 1);
    let a = distribution_charge_percentage(y1);
    let b = distribution_charge_percentage(y2);
    assert(a.scale == 0 ==> a.mantissa == 1);
    assert(a.scale == 2 ==> a.mantissa == 15 * (y1 - 2022));
    assert(b.scale == 0 ==> b.mantissa == 1);
    assert(b.scale == 2 ==> b.mantissa == 15 * (y2 - 2022));
    assert(a.scale == 0 ==> b.scale == 0);
    assert(a.scale == 0 || a.scale == 2);
    assert(b.scale == 0 || b.scale == 2);
    let pa = pow10(a.scale as nat);
    let pb = pow10(b.scale as nat);
    assert(pa == 1 || pa == 100);
    assert(pb == 1 || pb == 100);
    assert(b.mantissa * pa >= a.mantissa * pb) by (nonlinear_arith)
        requires
            a.scale == 0 ==> a.mantissa == 1 && pa == 1 && b.mantissa == 1 && pb == 1,
            a.scale == 2 ==> pa == 100 && 15 <= a.mantissa <= 90,
            b.scale == 2 ==> pb == 100 && a.mantissa <= b.mantissa,
            b.scale == 0 ==> pb == 1 && b.mantissa == 1,
            a.scale == 0 || a.scale == 2,
            b.scale == 0 || b.scale == 2,
    ;
}

impl SimulationInput {
    /// The decimal inputs are valid decimals.
    pub open spec fn wf(&self) -> bool {
        &&& self.average_bill_reais.wf()
        &&& self.system_capacity_kwp.wf()
        &&& self.total_investment_reais.wf()
    }
}

/// The tariff values are valid decimals.
pub open spec fn tariff_wf(t: UnifiedStateTariff) -> bool {
    &&& t.average_energy_tariff.wf()
    &&& t.average_distribution_tariff.wf()
    &&& t.average_fio_b_tariff.wf()
}

/// Monthly availability fee of a connection, in kWh.
pub open spec fn availability_fee_kwh(phase: PhaseConnection) -> Dec {
    match phase {
        PhaseConnection::Monophasic => dec(30, 0),
        PhaseConnection::Biphasic => dec(50, 0),
        PhaseConnection::Triphasic => dec(100, 0),
    }
}

/// Monthly availability fee of a connection, in kWh.
pub fn get_availability_fee_kwh(phase: PhaseConnection) -> (r: Dec)
    ensures
        r == availability_fee_kwh(phase),
        r.wf(),
{
    match phase {
        PhaseConnection::Monophasic => Dec { mantissa: 30, scale: 0, negative: false },
        PhaseConnection::Biphasic => Dec { mantissa: 50, scale: 0, negative: false },
        PhaseConnection::Triphasic => Dec { mantissa: 100, scale: 0, negative: false },
    }
}

/// The constants of a simulation, derived once from the input and the state tariff.
#[derive(Clone, Copy, Debug, PartialEq, Eq, Structural)]
pub struct SimulationParams {
    pub current_year: u32,
    pub system_capacity_kwp: Dec,
    pub total_tariff: Dec,
    pub distribution_tariff: Dec,
    pub availability_fee_yearly_kwh: Dec,
    pub consumption_yearly_kwh: Dec,
}

impl SimulationParams {
    /// Valid decimals, and 25 consecutive years from the current year fit in a `u32`.
    pub open spec fn wf(&self) -> bool {
        &&& self.current_year <= u32::MAX - 24
        &&& self.system_capacity_kwp.wf()
        &&& self.total_tariff.wf()
        &&& self.distribution_tariff.wf()
        &&& self.availability_fee_yearly_kwh.wf()
        &&& self.consumption_yearly_kwh.wf()
    }
}

/// The simulation constants: total tariff = energy + distribution tariff; yearly
/// availability fee = monthly fee × 12; yearly consumption = (bill / total tariff) × 12.
pub open spec fn simulation_params(
    input: SimulationInput,
    tariff: UnifiedStateTariff,
    current_year: u32,
) -> Option<SimulationParams> {
    let total = dec_add(tariff.average_energy_tariff, tariff.average_distribution_tariff);
    let fee_yearly = dec_mul(availability_fee_kwh(input.phase_type), dec(12, 0));
    let monthly = opt_div(Some(input.average_bill_reais), total);
    let yearly = opt_mul(monthly, Some(dec(12, 0)));
    match (total, fee_yearly, yearly) {
        (Some(t), Some(f), Some(y)) => Some(
            SimulationParams {
                current_year,
                system_capacity_kwp: input.system_capacity_kwp,
                total_tariff: t,
                distribution_tariff: tariff.average_distribution_tariff,
                availability_fee_yearly_kwh: f,
                consumption_yearly_kwh: y,
            },
        ),
        _ => None,
    }
}

/// Derives the simulation constants; `None` where `rust_decimal` fails (a zero total
/// tariff or an overflow).
pub fn derive_params(input: &SimulationInput, tariff: &UnifiedStateTariff, current_year: u32) -> (r:
    Option<SimulationParams>)
    requires
        input.wf(),
        tariff_wf(*tariff),
        current_year <= u32::MAX - 24,
    ensures
        r == simulation_params(*input, *tariff, current_year),
        r matches Some(p) ==> p.wf(),
        r matches Some(p) ==> p.availability_fee_yearly_kwh == dec(
            availability_fee_kwh(input.phase_type).mantissa * 12,
            0,
        ),
{
    let total = tariff.average_energy_tariff.checked_add(&tariff.average_distribution_tariff);
    let twelve = Dec { mantissa: 12, scale: 0, negative: false };
    let fee = get_availability_fee_kwh(input.phase_type);
    let fee_yearly = fee.checked_mul(&twelve);
    proof {
        assert(pow10(0) == 1);
    }
    let total = match total {
        Some(t) => t,
        None => return None,
    };
    let fee_yearly = match fee_yearly {
        Some(f) => f,
        None => return None,
    };
    let monthly = match input.average_bill_reais.checked_div(&total) {
        Some(m) => m,
        None => return None,
    };
    let yearly = match monthly.checked_mul(&twelve) {
        Some(y) => y,
        None => return None,
    };
    Some(
        SimulationParams {
            current_year,
            system_capacity_kwp: input.system_capacity_kwp,
            total_tariff: total,
            distribution_tariff: tariff.average_distribution_tariff,
            availability_fee_yearly_kwh: fee_yearly,
            consumption_yearly_kwh: yearly,
        },
    )
}

/// Panel efficiency in year `i` (1-based): `1 − 0.005 × (i − 1)`.
pub open spec fn efficiency_spec(i: u32) -> Option<Dec> {
    opt_sub(Some(dec(1, 0)), dec_mul(dec(5, 3), dec(i - 1, 0)))
}

/// Panel efficiency in year `i` (1-based).  The first year is exactly 1; every later year
/// loses exactly 0.005: the efficiency is `(1000 − 5 × (i − 1)) / 1000`.
pub fn panel_efficiency(i: u32) -> (r: Option<Dec>)
    requires
        1 <= i <= 25,
    ensures
        r == efficiency_spec(i),
        i == 1 ==> r == Some(dec(1, 0)),
        i > 1 ==> r == Some(dec(1000 - 5 * (i - 1), 3)),
{
    let one = Dec::one();
    let degradation = Dec { mantissa: 5, scale: 3, negative: false };
    let elapsed = Dec::from_u32(i - 1);
    proof {
        reveal_with_fuel(pow10, 4);
        assert(pow10(3) == 1000);
        assert(pow10(0) == 1);
    }
    let loss = match degradation.checked_mul(&elapsed) {
        Some(l) => l,
        None => return None,
    };
    proof {
        if i > 1 {
            assert(loss == dec(5 * (i - 1), 3));
            assert(pow10(3) == 1000 && pow10(0) == 1);
            assert(aligned(1, 0, 3) == 1000);
            assert(aligned(loss.mantissa, 3, 3) == loss.mantissa * 1);
            assert(exact_difference(1, 0, loss.mantissa, 3) == 1000 - 5 * (i - 1));
            assert(1000 - 5 * (i - 1) > 0);
        }
    }
    one.checked_sub(&loss)
}

/// The figures of one projected year.
#[derive(Clone, Copy, Debug, PartialEq, Eq, Structural)]
pub struct YearFigures {
    pub year: u32,
    pub efficiency: Dec,
    pub potential_generation_kwh: Dec,
    pub compensated_kwh: Dec,
    pub uncovered_kwh: Dec,
    pub tax_percentage: Dec,
    pub distribution_cost: Dec,
    pub old_bill: Dec,
    pub baseline_grid_cost: Dec,
    pub minimum_payable_fee: Dec,
    pub new_bill: Dec,
    pub net_savings: Dec,
    pub gross_savings: Dec,
}

impl YearFigures {
    /// The figures are valid decimals.
    pub open spec fn wf(&self) -> bool {
        &&& self.potential_generation_kwh.wf()
        &&& self.compensated_kwh.wf()
        &&& self.distribution_cost.wf()
        &&& self.net_savings.wf()
        &&& self.gross_savings.wf()
    }
}

/// The calendar year of projection year `i` (1-based).
pub open spec fn projection_year(p: SimulationParams, i: u32) -> u32 {
    (p.current_year + i - 1) as u32
}

/// Theoretical generation of a year: capacity × hsp × 30 × 12 × efficiency, multiplied
/// left to right.
pub open spec fn potential_generation(p: SimulationParams, hsp: Dec, efficiency: Option<Dec>) -> Option<Dec> {
    opt_mul(
        opt_mul(
            opt_mul(dec_mul(p.system_capacity_kwp, hsp), Some(dec(30, 0))),
            Some(dec(12, 0)),
        ),
        efficiency,
    )
}

/// Energy that solar does not cover: consumption − generation where generation falls
/// short, zero otherwise.
pub open spec fn uncovered_energy(p: SimulationParams, generation: Dec) -> Option<Dec> {
    if dec_lt(generation, p.consumption_yearly_kwh) {
        dec_sub(p.consumption_yearly_kwh, generation)
    } else {
        Some(dec(0, 0))
    }
}

/// The figures of projection year `i` (1-based) with `hsp` peak sun hours:
/// compensated = min(generation, consumption); distribution cost = compensated ×
/// distribution tariff × Fio B share; old bill = consumption × total tariff; new bill =
/// max(uncovered × total tariff + distribution cost, yearly fee × total tariff);
/// net savings = old bill − new bill; gross savings = compensated × total tariff.
#[verifier::opaque]
pub open spec fn year_figures(p: SimulationParams, i: u32, hsp: Dec) -> Option<YearFigures> {
    let year = projection_year(p, i);
    let eff = efficiency_spec(i);
    let potential = potential_generation(p, hsp, eff);
    match (eff, potential) {
        (Some(e), Some(g)) => {
            let compensated = dec_min(g, p.consumption_yearly_kwh);
            let uncovered = uncovered_energy(p, g);
            let tax = distribution_charge_percentage(year);
            let dist = opt_mul(dec_mul(compensated, p.distribution_tariff), Some(tax));
            let old_bill = dec_mul(p.consumption_yearly_kwh, p.total_tariff);
            let baseline = opt_add(opt_mul(uncovered, Some(p.total_tariff)), dist);
            let min_fee = dec_mul(p.availability_fee_yearly_kwh, p.total_tariff);
            match (uncovered, dist, old_bill, baseline, min_fee) {
                (Some(u), Some(d), Some(o), Some(b), Some(m)) => {
                    let new_bill = dec_max(b, m);
                    let net = dec_sub(o, new_bill);
                    let gross = dec_mul(compensated, p.total_tariff);
                    match (net, gross) {
                        (Some(n), Some(gr)) => Some(
                            YearFigures {
                                year,
                                efficiency: e,
                                potential_generation_kwh: g,
                                compensated_kwh: compensated,
                                uncovered_kwh: u,
                                tax_percentage: tax,
                                distribution_cost: d,
                                old_bill: o,
                                baseline_grid_cost: b,
                                minimum_payable_fee: m,
                                new_bill,
                                net_savings: n,
                                gross_savings: gr,
                            },
                        ),
                        _ => None,
                    }
                },
                _ => None,
            }
        },
        _ => None,
    }
}

/// Computes the figures of projection year `i` (1-based) with `hsp` peak sun hours;
/// `None` where `rust_decimal` overflows.
pub fn project_year(p: &SimulationParams, i: u32, hsp: &Dec) -> (r: Option<YearFigures>)
    requires
        p.wf(),
        1 <= i <= 25,
        hsp.wf(),
    ensures
        r == year_figures(*p, i, *hsp),
        r matches Some(f) ==> f.wf(),
        r matches Some(f) ==> Some(f.old_bill) == dec_mul(p.consumption_yearly_kwh, p.total_tariff)
            && Some(f.net_savings) == dec_sub(f.old_bill, f.new_bill),
{
    proof {
        reveal(year_figures);
    }
    let year = p.current_year + (i - 1);
    let eff = match panel_efficiency(i) {
        Some(e) => e,
        None => return None,
    };
    let thirty = Dec { mantissa: 30, scale: 0, negative: false };
    let twelve = Dec { mantissa: 12, scale: 0, negative: false };
    let g1 = match p.system_capacity_kwp.checked_mul(hsp) {
        Some(v) => v,
        None => return None,
    };
    let g2 = match g1.checked_mul(&thirty) {
        Some(v) => v,
        None => return None,
    };
    let g3 = match g2.checked_mul(&twelve) {
        Some(v) => v,
        None => return None,
    };
    let potential = match g3.checked_mul(&eff) {
        Some(v) => v,
        None => return None,
    };
    let compensated = potential.min(&p.consumption_yearly_kwh);
    let uncovered = if potential.lt(&p.consumption_yearly_kwh) {
        match p.consumption_yearly_kwh.checked_sub(&potential) {
            Some(v) => v,
            None => return None,
        }
    } else {
        Dec::zero()
    };
    let legal_framework = GeneralLegalFramework;
    let tax = legal_framework.get_distribution_charge_percentage(year);
    let d1 = match compensated.checked_mul(&p.distribution_tariff) {
        Some(v) => v,
        None => return None,
    };
    let distribution_cost = match d1.checked_mul(&tax) {
        Some(v) => v,
        None => return None,
    };
    let old_bill = match p.consumption_yearly_kwh.checked_mul(&p.total_tariff) {
        Some(v) => v,
        None => return None,
    };
    let b1 = match uncovered.checked_mul(&p.total_tariff) {
        Some(v) => v,
        None => return None,
    };
    let baseline = match b1.checked_add(&distribution_cost) {
        Some(v) => v,
        None => return None,
    };
    let minimum_fee = match p.availability_fee_yearly_kwh.checked_mul(&p.total_tariff) {
        Some(v) => v,
        None => return None,
    };
    let new_bill = baseline.max(&minimum_fee);
    let net = match old_bill.checked_sub(&new_bill) {
        Some(v) => v,
        None => return None,
    };
    let gross = match compensated.checked_mul(&p.total_tariff) {
        Some(v) => v,
        None => return None,
    };
    Some(
        YearFigures {
            year,
            efficiency: eff,
            potential_generation_kwh: potential,
            compensated_kwh: compensated,
            uncovered_kwh: uncovered,
            tax_percentage: tax,
            distribution_cost,
            old_bill,
            baseline_grid_cost: baseline,
            minimum_payable_fee: minimum_fee,
            new_bill,
            net_savings: net,
            gross_savings: gross,
        },
    )
}

/// Within a year: the compensated energy is at most the consumption and at most the
/// generation; energy is left uncovered only where generation falls short (and is zero
/// otherwise); the new bill is at least the minimum payable fee and at least the
/// baseline grid cost.
pub proof fn lemma_year_figures_bounds(p: SimulationParams, i: u32, hsp: Dec)
    requires
        year_figures(p, i, hsp) is Some,
    ensures
        ({
            let f = year_figures(p, i, hsp).unwrap();
            &&& !dec_lt(p.consumption_yearly_kwh, f.compensated_kwh)
            &&& !dec_lt(f.potential_generation_kwh, f.compensated_kwh)
            &&& (!dec_lt(f.potential_generation_kwh, p.consumption_yearly_kwh) ==> f.uncovered_kwh
                == dec(0, 0))
            &&& (dec_lt(f.potential_generation_kwh, p.consumption_yearly_kwh) ==> Some(
                f.uncovered_kwh,
            ) == dec_sub(p.consumption_yearly_kwh, f.potential_generation_kwh))
            &&& !dec_lt(f.new_bill, f.minimum_payable_fee)
            &&& !dec_lt(f.new_bill, f.baseline_grid_cost)
            &&& f.tax_percentage == distribution_charge_percentage(f.year)
        }),
{
    reveal(year_figures);
}

/// The state of a running projection.
pub struct SimulationRun {
    pub params: SimulationParams,
    pub years_done: u32,
    pub cumulative_cash_flow: Dec,
    pub total_savings: Dec,
    pub payback_year: Option<u32>,
    pub annual_table: Vec<YearlyProjection>,
}

/// What one more projected year adds: the new cumulative cash flow, the new total
/// savings, the payback year (the first year whose cumulative cash flow is not negative)
/// and the year's row of rounded figures.
pub open spec fn projection_step(
    p: SimulationParams,
    years_done: u32,
    cumulative: Dec,
    total: Dec,
    payback: Option<u32>,
    hsp: Dec,
) -> Option<(Dec, Dec, Option<u32>, YearlyProjection)> {
    let i = (years_done + 1) as u32;
    match year_figures(p, i, hsp) {
        None => None,
        Some(f) => match (dec_add(total, f.net_savings), dec_add(cumulative, f.net_savings)) {
            (Some(t), Some(c)) => {
                let pb = if payback is None && !dec_lt(c, dec(0, 0)) {
                    Some(i)
                } else {
                    payback
                };
                let row = YearlyProjection {
                    year: f.year,
                    energy_generate_kwh: dec_round_dp(f.potential_generation_kwh, 2),
                    gross_savings_reais: dec_round_dp(f.gross_savings, 2),
                    distribution_cost_reais: dec_round_dp(f.distribution_cost, 2),
                    net_saving_reais: dec_round_dp(f.net_savings, 2),
                    cumulative_cash_flow_reais: dec_round_dp(c, 2),
                };
                Some((c, t, pb, row))
            },
            _ => None,
        },
    }
}

/// The state of a projection after some years.
pub struct ProjectionTrace {
    pub cumulative: Dec,
    pub total: Dec,
    pub payback: Option<u32>,
    pub table: Seq<YearlyProjection>,
}

/// The projection over the given peak-sun-hour values, one per year, starting from the
/// cash flow `start`; `None` where a computation overflows.
pub open spec fn projection(p: SimulationParams, start: Dec, hsps: Seq<Dec>) -> Option<
    ProjectionTrace,
>
    decreases hsps.len(),
{
    if hsps.len() == 0 {
        Some(ProjectionTrace { cumulative: start, total: dec(0, 0), payback: None, table: Seq::empty() })
    } else {
        match projection(p, start, hsps.drop_last()) {
            None => None,
            Some(t) => match projection_step(
                p,
                (hsps.len() - 1) as u32,
                t.cumulative,
                t.total,
                t.payback,
                hsps.last(),
            ) {
                None => None,
                Some(step) => Some(
                    ProjectionTrace {
                        cumulative: step.0,
                        total: step.1,
                        payback: step.2,
                        table: t.table.push(step.3),
                    },
                ),
            },
        }
    }
}

/// The initial cash flow: the investment, negated.
pub open spec fn initial_cash_flow(input: SimulationInput) -> Dec {
    dec_neg(input.total_investment_reais)
}

/// The payback period: the payback year, or 25 when the investment is never recovered.
pub open spec fn payback_years_of(payback: Option<u32>) -> Dec {
    match payback {
        Some(y) => dec(y as int, 0),
        None => dec(25, 0),
    }
}

/// Every value of a row has at most two digits after the point.
pub open spec fn row_in_cents(row: YearlyProjection) -> bool {
    &&& row.energy_generate_kwh.scale <= 2
    &&& row.gross_savings_reais.scale <= 2
    &&& row.distribution_cost_reais.scale <= 2
    &&& row.net_saving_reais.scale <= 2
    &&& row.cumulative_cash_flow_reais.scale <= 2
}

/// The projection's rows have consecutive years from the current year and values with at
/// most two decimals; a payback year lies between 1 and the number of years projected.
pub proof fn lemma_projection_shape(p: SimulationParams, start: Dec, hsps: Seq<Dec>)
    requires
        p.wf(),
        hsps.len() <= 25,
        projection(p, start, hsps) is Some,
    ensures
        ({
            let t = projection(p, start, hsps).unwrap();
            &&& t.table.len() == hsps.len()
            &&& forall|k: int| 0 <= k < t.table.len() ==> #[trigger] t.table[k].year == p.current_year + k
            &&& forall|k: int| 0 <= k < t.table.len() ==> row_in_cents(#[trigger] t.table[k])
            &&& t.payback matches Some(y) ==> 1 <= y <= hsps.len()
        }),
    decreases hsps.len(),
{
    reveal(year_figures);
    if hsps.len() > 0 {
        lemma_projection_shape(p, start, hsps.drop_last());
        let t = projection(p, start, hsps.drop_last()).unwrap();
        let i = (hsps.len() - 1 + 1) as u32;
        if let Some(f) = year_figures(p, i, hsps.last()) {
            lemma_round_dp_scale(f.potential_generation_kwh, 2);
            lemma_round_dp_scale(f.gross_savings, 2);
            lemma_round_dp_scale(f.distribution_cost, 2);
            lemma_round_dp_scale(f.net_savings, 2);
            if let Some(c) = dec_add(t.cumulative, f.net_savings) {
                lemma_round_dp_scale(c, 2);
            }
        }
    }
}

/// The cumulative cash flow after the first `k` years of the projection.
pub open spec fn cumulative_after(p: SimulationParams, start: Dec, hsps: Seq<Dec>, k: int) -> Dec {
    projection(p, start, hsps.take(k)).unwrap().cumulative
}

/// A projection that exists has existed after every year.
proof fn lemma_projection_prefix(p: SimulationParams, start: Dec, hsps: Seq<Dec>, k: int)
    requires
        0 <= k <= hsps.len(),
        projection(p, start, hsps) is Some,
    ensures
        projection(p, start, hsps.take(k)) is Some,
    decreases hsps.len() - k,
{
    if k < hsps.len() {
        lemma_projection_prefix(p, start, hsps, k + 1);
        assert(hsps.take(k + 1).drop_last() =~= hsps.take(k));
    } else {
        assert(hsps.take(k) =~= hsps);
    }
}

/// The payback year is the first year after which the cumulative cash flow is not
/// negative; without a payback year, the cash flow stays negative through every year.
pub proof fn lemma_payback_is_first_nonnegative_year(p: SimulationParams, start: Dec, hsps: Seq<Dec>)
    requires
        p.wf(),
        hsps.len() <= 25,
        projection(p, start, hsps) is Some,
    ensures
        ({
            let t = projection(p, start, hsps).unwrap();
            &&& (t.payback matches Some(y) ==> !dec_lt(cumulative_after(p, start, hsps, y as int), dec(0, 0))
                && forall|k: int| 1 <= k < y ==> dec_lt(#[trigger] cumulative_after(p, start, hsps, k), dec(0, 0)))
            &&& (t.payback is None ==> forall|k: int| 1 <= k <= hsps.len() ==> dec_lt(
                #[trigger] cumulative_after(p, start, hsps, k),
                dec(0, 0),
            ))
        }),
    decreases hsps.len(),
{
    if hsps.len() > 0 {
        let prev = hsps.drop_last();
        lemma_payback_is_first_nonnegative_year(p, start, prev);
        lemma_projection_shape(p, start, prev);
        let n = hsps.len() as int;
        assert(hsps.take(n) =~= hsps);
        assert(prev.take(n - 1) =~= prev);
        let tp = projection(p, start, prev).unwrap();
        let t = projection(p, start, hsps).unwrap();
        let c = t.cumulative;
        assert(cumulative_after(p, start, hsps, n) == c);
        assert forall|k: int|
            #![trigger cumulative_after(p, start, hsps, k)]
            #![trigger cumulative_after(p, start, prev, k)]
            1 <= k < n implies cumulative_after(p, start, hsps, k) == cumulative_after(
                p,
                start,
                prev,
                k,
            ) by {
            assert(hsps.take(k) =~= prev.take(k));
        }
        if tp.payback is None {
            if !dec_lt(c, dec(0, 0)) {
                assert(t.payback == Some((n - 1 + 1) as u32));
            } else {
                assert(t.payback is None);
                assert forall|k: int| 1 <= k <= n implies dec_lt(
                    #[trigger] cumulative_after(p, start, hsps, k),
                    dec(0, 0),
                ) by {
                    if k < n {
                        assert(cumulative_after(p, start, hsps, k) == cumulative_after(p, start, prev, k));
                    }
                }
            }
        } else {
            assert(t.payback == tp.payback);
        }
    }
}

impl SimulationRun {
    /// The run's values are valid and consistent with the number of projected years.
    pub open spec fn wf(&self) -> bool {
        &&& self.params.wf()
        &&& self.years_done <= 25
        &&& self.cumulative_cash_flow.wf()
        &&& self.total_savings.wf()
        &&& self.annual_table@.len() == self.years_done
        &&& self.payback_year matches Some(y) ==> 1 <= y <= self.years_done
    }

    /// Starts a projection: derives the simulation constants; the cash flow starts at the
    /// negated investment.
    pub fn start(input: &SimulationInput, tariff: &UnifiedStateTariff, current_year: u32) -> (r:
        Result<SimulationRun, SimulationError>)
        requires
            input.wf(),
            tariff_wf(*tariff),
            current_year <= u32::MAX - 24,
        ensures
            match simulation_params(*input, *tariff, current_year) {
                None => r is Err,
                Some(p) => r matches Ok(run) && {
                    &&& run.params == p
                    &&& run.years_done == 0
                    &&& run.cumulative_cash_flow == initial_cash_flow(*input)
                    &&& run.total_savings == dec(0, 0)
                    &&& run.payback_year is None
                    &&& run.annual_table@.len() == 0
                    &&& run.wf()
                },
            },
    {
        let params = match derive_params(input, tariff, current_year) {
            Some(p) => p,
            None => return Err(SimulationError::Arithmetic),
        };
        Ok(
            SimulationRun {
                params,
                years_done: 0,
                cumulative_cash_flow: input.total_investment_reais.neg(),
                total_savings: Dec::zero(),
                payback_year: None,
                annual_table: Vec::new(),
            },
        )
    }

    /// Whether all 25 years have been projected.
    pub fn is_complete(&self) -> (r: bool)
        ensures
            r == (self.years_done == 25),
    {
        self.years_done == 25
    }

    /// Projects the next year with the given peak sun hours.  On an error the run is left
    /// as it was.
    pub fn advance(&mut self, hsp: Dec) -> (r: Result<(), SimulationError>)
        requires
            old(self).wf(),
            old(self).years_done < 25,
            hsp.wf(),
        ensures
            match projection_step(
                old(self).params,
                old(self).years_done,
                old(self).cumulative_cash_flow,
                old(self).total_savings,
                old(self).payback_year,
                hsp,
            ) {
                None => {
                    &&& r is Err
                    &&& final(self).params == old(self).params
                    &&& final(self).years_done == old(self).years_done
                    &&& final(self).cumulative_cash_flow == old(self).cumulative_cash_flow
                    &&& final(self).total_savings == old(self).total_savings
                    &&& final(self).payback_year == old(self).payback_year
                    &&& final(self).annual_table@ == old(self).annual_table@
                },
                Some(step) => {
                    &&& r is Ok
                    &&& final(self).params == old(self).params
                    &&& final(self).years_done == old(self).years_done + 1
                    &&& final(self).cumulative_cash_flow == step.0
                    &&& final(self).total_savings == step.1
                    &&& final(self).payback_year == step.2
                    &&& final(self).annual_table@ == old(self).annual_table@.push(step.3)
                },
            },
            final(self).wf(),
            r is Ok ==> (year_figures(old(self).params, (old(self).years_done + 1) as u32, hsp) matches Some(f) && Some(final(self).total_savings) == dec_add(old(self).total_savings, f.net_savings) && Some(final(self).cumulative_cash_flow) == dec_add(old(self).cumulative_cash_flow, f.net_savings)),
    {
        let i = self.years_done + 1;
        let f = match project_year(&self.params, i, &hsp) {
            Some(f) => f,
            None => return Err(SimulationError::Arithmetic),
        };
        let total = match self.total_savings.checked_add(&f.net_savings) {
            Some(t) => t,
            None => return Err(SimulationError::Arithmetic),
        };
        let cumulative = match self.cumulative_cash_flow.checked_add(&f.net_savings) {
            Some(c) => c,
            None => return Err(SimulationError::Arithmetic),
        };
        let zero = Dec::zero();
        let reached = !cumulative.lt(&zero);
        match self.payback_year {
            None => {
                if reached {
                    self.payback_year = Some(i);
                }
            },
            Some(_) => {},
        }
        let row = YearlyProjection {
            year: f.year,
            energy_generate_kwh: f.potential_generation_kwh.round_dp(2),
            gross_savings_reais: f.gross_savings.round_dp(2),
            distribution_cost_reais: f.distribution_cost.round_dp(2),
            net_saving_reais: f.net_savings.round_dp(2),
            cumulative_cash_flow_reais: cumulative.round_dp(2),
        };
        self.annual_table.push(row);
        self.total_savings = total;
        self.cumulative_cash_flow = cumulative;
        self.years_done = i;
        Ok(())
    }

    /// The result of a complete run: the payback period (25 when the investment is never
    /// recovered), the total savings rounded to two decimals and the yearly table.
    pub fn finish(self) -> (r: SimulationResult)
        requires
            self.wf(),
            self.years_done == 25,
        ensures
            r.payback_years == payback_years_of(self.payback_year),
            r.total_25yr_savings_reais == dec_round_dp(self.total_savings, 2),
            r.annual_table@ == self.annual_table@,
    {
        let payback_years = match self.payback_year {
            Some(y) => Dec::from_u32(y),
            None => Dec::from_u32(25),
        };
        SimulationResult {
            payback_years,
            total_25yr_savings_reais: self.total_savings.round_dp(2),
            annual_table: self.annual_table,
        }
    }
}

/// A projection that fails after some years fails over all of them.
proof fn lemma_projection_none(p: SimulationParams, start: Dec, hsps: Seq<Dec>, k: int)
    requires
        0 <= k <= hsps.len(),
        projection(p, start, hsps.take(k)) is None,
    ensures
        projection(p, start, hsps) is None,
    decreases hsps.len() - k,
{
    if k < hsps.len() {
        assert(hsps.take(k + 1).drop_last() =~= hsps.take(k));
        lemma_projection_none(p, start, hsps, k + 1);
    } else {
        assert(hsps.take(k) =~= hsps);
    }
}

/// The constants and the full projection of a simulation, where no computation overflows.
pub open spec fn simulation_outcome(
    input: SimulationInput,
    tariff: UnifiedStateTariff,
    current_year: u32,
    hsps: Seq<Dec>,
) -> Option<(SimulationParams, ProjectionTrace)> {
    match simulation_params(input, tariff, current_year) {
        None => None,
        Some(p) => match projection(p, initial_cash_flow(input), hsps) {
            None => None,
            Some(t) => Some((p, t)),
        },
    }
}

/// Calculates the solar ROI of an installation: a 25-year cash-flow projection with the
/// given state tariff, starting in `current_year`, with the peak sun hours of each year.
pub fn calculate_solar_roi(
    input: &SimulationInput,
    tariff: &UnifiedStateTariff,
    current_year: u32,
    hsp_by_year: &Vec<Dec>,
) -> (r: Result<SimulationResult, SimulationError>)
    requires
        input.wf(),
        tariff_wf(*tariff),
        current_year <= u32::MAX - 24,
        hsp_by_year@.len() == 25,
        forall|k: int| 0 <= k < 25 ==> (#[trigger] hsp_by_year@[k]).wf(),
    ensures
        match simulation_outcome(*input, *tariff, current_year, hsp_by_year@) {
            None => r is Err,
            Some(o) => r matches Ok(res) && {
                &&& res.payback_years == payback_years_of(o.1.payback)
                &&& res.total_25yr_savings_reais == dec_round_dp(o.1.total, 2)
                &&& res.annual_table@ == o.1.table
            },
        },
        r matches Ok(res) ==> {
            &&& res.annual_table@.len() == 25
            &&& forall|k: int|
                0 <= k < 25 ==> #[trigger] res.annual_table@[k].year == current_year + k
            &&& forall|k: int| 0 <= k < 25 ==> row_in_cents(#[trigger] res.annual_table@[k])
            &&& res.total_25yr_savings_reais.scale <= 2
            &&& res.payback_years.scale == 0
            &&& 1 <= res.payback_years.mantissa <= 25
        },
        r matches Ok(res) ==> (net_savings_sum(simulation_params(*input, *tariff, current_year).unwrap(), dec(0, 0), hsp_by_year@) matches Some(t) && res.total_25yr_savings_reais == dec_round_dp(t, 2)),
{
    let mut run = match SimulationRun::start(input, tariff, current_year) {
        Ok(run) => run,
        Err(e) => return Err(e),
    };
    let ghost p = run.params;
    let ghost start = initial_cash_flow(*input);
    let ghost hsps = hsp_by_year@;
    let mut k: usize = 0;
    proof {
        assert(hsps.take(0) =~= Seq::<Dec>::empty());
        assert(run.annual_table@ =~= Seq::<YearlyProjection>::empty());
    }
    while k < 25
        invariant
            hsps == hsp_by_year@,
            hsps.len() == 25,
            forall|j: int| 0 <= j < 25 ==> (#[trigger] hsps[j]).wf(),
            k <= 25,
            run.wf(),
            run.params == p,
            p.current_year == current_year,
            run.years_done == k,
            simulation_params(*input, *tariff, current_year) == Some(p),
            start == initial_cash_flow(*input),
            projection(p, start, hsps.take(k as int)) == Some(
                ProjectionTrace {
                    cumulative: run.cumulative_cash_flow,
                    total: run.total_savings,
                    payback: run.payback_year,
                    table: run.annual_table@,
                },
            ),
        decreases 25 - k,
    {
        proof {
            assert(hsps.take(k + 1).drop_last() =~= hsps.take(k as int));
            assert(hsps.take(k + 1).last() == hsps[k as int]);
        }
        match run.advance(hsp_by_year[k]) {
            Ok(()) => {},
            Err(e) => {
                proof {
                    lemma_projection_none(p, start, hsps, k + 1);
                }
                return Err(e);
            },
        }
        k = k + 1;
    }
    proof {
        assert(hsps.take(25) =~= hsps);
        lemma_projection_shape(p, start, hsps);
    }
    proof {
        lemma_round_dp_scale(run.total_savings, 2);
        lemma_projection_totals(p, start, hsps);
    }
    Ok(run.finish())
}

/// Two inputs that differ at most in the phase connection.
pub open spec fn same_but_phase(a: SimulationInput, b: SimulationInput) -> bool {
    &&& a.location_state == b.location_state
    &&& a.average_bill_reais == b.average_bill_reais
    &&& a.system_capacity_kwp == b.system_capacity_kwp
    &&& a.total_investment_reais == b.total_investment_reais
}

/// Two inputs that differ at most in the investment.
pub open spec fn same_but_investment(a: SimulationInput, b: SimulationInput) -> bool {
    &&& a.location_state == b.location_state
    &&& a.average_bill_reais == b.average_bill_reais
    &&& a.system_capacity_kwp == b.system_capacity_kwp
    &&& a.phase_type == b.phase_type
}

/// Two sets of constants that differ at most in the availability fee.
pub open spec fn same_but_fee(a: SimulationParams, b: SimulationParams) -> bool {
    &&& a.current_year == b.current_year
    &&& a.system_capacity_kwp == b.system_capacity_kwp
    &&& a.total_tariff == b.total_tariff
    &&& a.distribution_tariff == b.distribution_tariff
    &&& a.consumption_yearly_kwh == b.consumption_yearly_kwh
}

/// Two rows with the same year, generation, gross savings and distribution cost.
pub open spec fn rows_agree_on_energy(a: YearlyProjection, b: YearlyProjection) -> bool {
    &&& a.year == b.year
    &&& a.energy_generate_kwh == b.energy_generate_kwh
    &&& a.gross_savings_reais == b.gross_savings_reais
    &&& a.distribution_cost_reais == b.distribution_cost_reais
}

/// Two tables of the same length whose rows agree on year, generation, gross savings and
/// distribution cost.
pub open spec fn tables_agree_on_energy(a: Seq<YearlyProjection>, b: Seq<YearlyProjection>) -> bool {
    &&& a.len() == b.len()
    &&& forall|k: int| 0 <= k < a.len() ==> rows_agree_on_energy(#[trigger] a[k], b[k])
}

/// Two tables of the same length whose rows agree in everything but the cumulative cash flow.
pub open spec fn tables_agree_but_cash_flow(a: Seq<YearlyProjection>, b: Seq<YearlyProjection>) -> bool {
    &&& tables_agree_on_energy(a, b)
    &&& forall|k: int| 0 <= k < a.len() ==> (#[trigger] a[k]).net_saving_reais == b[k].net_saving_reais
}

/// The phase connection enters the constants only through the availability fee.
pub proof fn lemma_params_phase_only_changes_fee(
    a: SimulationInput,
    b: SimulationInput,
    tariff: UnifiedStateTariff,
    current_year: u32,
)
    requires
        same_but_phase(a, b),
        simulation_params(a, tariff, current_year) is Some,
        simulation_params(b, tariff, current_year) is Some,
    ensures
        same_but_fee(
            simulation_params(a, tariff, current_year).unwrap(),
            simulation_params(b, tariff, current_year).unwrap(),
        ),
{
}

/// The investment does not enter the constants.
pub proof fn lemma_params_ignore_investment(
    a: SimulationInput,
    b: SimulationInput,
    tariff: UnifiedStateTariff,
    current_year: u32,
)
    requires
        same_but_investment(a, b),
    ensures
        simulation_params(a, tariff, current_year) == simulation_params(b, tariff, current_year),
{
}

/// The availability fee changes only the minimum fee, the new bill and the net savings of a
/// year: generation, compensated and uncovered energy, Fio B share, distribution cost, old
/// bill, baseline cost and gross savings stay the same.
pub proof fn lemma_year_figures_fee_independent(a: SimulationParams, b: SimulationParams, i: u32, hsp: Dec)
    requires
        same_but_fee(a, b),
        year_figures(a, i, hsp) is Some,
        year_figures(b, i, hsp) is Some,
    ensures
        ({
            let fa = year_figures(a, i, hsp).unwrap();
            let fb = year_figures(b, i, hsp).unwrap();
            &&& fa.year == fb.year
            &&& fa.efficiency == fb.efficiency
            &&& fa.potential_generation_kwh == fb.potential_generation_kwh
            &&& fa.compensated_kwh == fb.compensated_kwh
            &&& fa.uncovered_kwh == fb.uncovered_kwh
            &&& fa.tax_percentage == fb.tax_percentage
            &&& fa.distribution_cost == fb.distribution_cost
            &&& fa.old_bill == fb.old_bill
            &&& fa.baseline_grid_cost == fb.baseline_grid_cost
            &&& fa.gross_savings == fb.gross_savings
        }),
{
    reveal(year_figures);
}

/// Under two availability fees, the rows of two projections agree in year, generation,
/// gross savings and distribution cost.
pub proof fn lemma_projection_fee_independent(
    a: SimulationParams,
    b: SimulationParams,
    sa: Dec,
    sb: Dec,
    hsps: Seq<Dec>,
)
    requires
        same_but_fee(a, b),
        projection(a, sa, hsps) is Some,
        projection(b, sb, hsps) is Some,
    ensures
        tables_agree_on_energy(projection(a, sa, hsps).unwrap().table, projection(b, sb, hsps).unwrap().table),
    decreases hsps.len(),
{
    if hsps.len() > 0 {
        let prev = hsps.drop_last();
        lemma_projection_fee_independent(a, b, sa, sb, prev);
        let ta = projection(a, sa, prev).unwrap();
        let tb = projection(b, sb, prev).unwrap();
        let i = ((hsps.len() - 1) as u32 + 1) as u32;
        lemma_year_figures_fee_independent(a, b, i, hsps.last());
        let na = projection(a, sa, hsps).unwrap().table;
        let nb = projection(b, sb, hsps).unwrap().table;
        assert(na == ta.table.push(na.last()));
        assert(nb == tb.table.push(nb.last()));
        assert forall|k: int| 0 <= k < na.len() implies rows_agree_on_energy(#[trigger] na[k], nb[k]) by {
            if k < ta.table.len() {
                assert(na[k] == ta.table[k]);
                assert(nb[k] == tb.table[k]);
            }
        }
    }
}

/// The starting cash flow changes only the cumulative cash flow and the payback year: the
/// total savings and every other column of the rows stay the same.
pub proof fn lemma_projection_start_independent(p: SimulationParams, sa: Dec, sb: Dec, hsps: Seq<Dec>)
    requires
        projection(p, sa, hsps) is Some,
        projection(p, sb, hsps) is Some,
    ensures
        projection(p, sa, hsps).unwrap().total == projection(p, sb, hsps).unwrap().total,
        tables_agree_but_cash_flow(projection(p, sa, hsps).unwrap().table, projection(p, sb, hsps).unwrap().table),
    decreases hsps.len(),
{
    if hsps.len() > 0 {
        let prev = hsps.drop_last();
        lemma_projection_start_independent(p, sa, sb, prev);
        let ta = projection(p, sa, prev).unwrap();
        let tb = projection(p, sb, prev).unwrap();
        let na = projection(p, sa, hsps).unwrap().table;
        let nb = projection(p, sb, hsps).unwrap().table;
        assert(na == ta.table.push(na.last()));
        assert(nb == tb.table.push(nb.last()));
        assert forall|k: int| 0 <= k < na.len() implies rows_agree_on_energy(#[trigger] na[k], nb[k])
            && na[k].net_saving_reais == nb[k].net_saving_reais by {
            if k < ta.table.len() {
                assert(na[k] == ta.table[k]);
                assert(nb[k] == tb.table[k]);
            }
        }
    }
}

/// Two simulations whose inputs differ only in the phase connection give rows that agree in
/// year, generation, gross savings and distribution cost, wherever both succeed.
pub proof fn lemma_phase_changes_only_bills(
    a: SimulationInput,
    b: SimulationInput,
    tariff: UnifiedStateTariff,
    current_year: u32,
    hsps: Seq<Dec>,
)
    requires
        same_but_phase(a, b),
        simulation_outcome(a, tariff, current_year, hsps) is Some,
        simulation_outcome(b, tariff, current_year, hsps) is Some,
    ensures
        tables_agree_on_energy(
            simulation_outcome(a, tariff, current_year, hsps).unwrap().1.table,
            simulation_outcome(b, tariff, current_year, hsps).unwrap().1.table,
        ),
{
    lemma_params_phase_only_changes_fee(a, b, tariff, current_year);
    let pa = simulation_params(a, tariff, current_year).unwrap();
    let pb = simulation_params(b, tariff, current_year).unwrap();
    lemma_projection_fee_independent(pa, pb, initial_cash_flow(a), initial_cash_flow(b), hsps);
}

/// Two simulations whose inputs differ only in the investment give the same total savings
/// and rows that differ only in the cumulative cash flow, wherever both succeed.
pub proof fn lemma_investment_changes_only_cash_flow(
    a: SimulationInput,
    b: SimulationInput,
    tariff: UnifiedStateTariff,
    current_year: u32,
    hsps: Seq<Dec>,
)
    requires
        same_but_investment(a, b),
        simulation_outcome(a, tariff, current_year, hsps) is Some,
        simulation_outcome(b, tariff, current_year, hsps) is Some,
    ensures
        simulation_outcome(a, tariff, current_year, hsps).unwrap().1.total == simulation_outcome(
            b,
            tariff,
            current_year,
            hsps,
        ).unwrap().1.total,
        tables_agree_but_cash_flow(
            simulation_outcome(a, tariff, current_year, hsps).unwrap().1.table,
            simulation_outcome(b, tariff, current_year, hsps).unwrap().1.table,
        ),
{
    lemma_params_ignore_investment(a, b, tariff, current_year);
    let p = simulation_params(a, tariff, current_year).unwrap();
    lemma_projection_start_independent(p, initial_cash_flow(a), initial_cash_flow(b), hsps);
}

/// Every figure of a year is a valid decimal.
proof fn lemma_year_figures_valid(p: SimulationParams, i: u32, hsp: Dec)
    requires
        p.wf(),
        hsp.wf(),
        1 <= i <= 25,
    ensures
        year_figures(p, i, hsp) matches Some(f) ==> {
            &&& f.wf()
            &&& f.old_bill.wf()
            &&& f.baseline_grid_cost.wf()
            &&& f.minimum_payable_fee.wf()
            &&& f.new_bill.wf()
        },
{
    reveal(year_figures);
    broadcast use group_ops_wf;

    let year = projection_year(p, i);
    assert(distribution_charge_percentage(year).wf());
    assert(dec(5, 3).wf() && dec(i - 1, 0).wf() && dec(1, 0).wf());
    assert(dec(30, 0).wf() && dec(12, 0).wf() && dec(0, 0).wf());
    if let Some(f) = year_figures(p, i, hsp) {
        lemma_units_min_max(f.potential_generation_kwh, p.consumption_yearly_kwh);
        lemma_units_min_max(f.baseline_grid_cost, f.minimum_payable_fee);
    }
}

/// The availability fee and the net savings of a year are computed exactly: the minimum
/// payable fee is an exact product and the net savings an exact difference.
pub open spec fn fee_year_exact(p: SimulationParams, i: u32, hsp: Dec) -> bool {
    year_figures(p, i, hsp) matches Some(f) ==> mul_fits(p.availability_fee_yearly_kwh, p.total_tariff)
        && sub_fits(f.old_bill, f.new_bill)
}

/// Of two sets of constants that differ only in the availability fee, the one with the
/// smaller fee gives a year net savings at least as large, where the total tariff is not
/// negative and the fee and net savings are computed exactly.
pub proof fn lemma_year_net_savings_fee_order(a: SimulationParams, b: SimulationParams, i: u32, hsp: Dec)
    requires
        a.wf(),
        b.wf(),
        hsp.wf(),
        1 <= i <= 25,
        same_but_fee(a, b),
        !dec_lt(b.availability_fee_yearly_kwh, a.availability_fee_yearly_kwh),
        !dec_lt(a.total_tariff, dec(0, 0)),
        year_figures(a, i, hsp) is Some,
        year_figures(b, i, hsp) is Some,
        fee_year_exact(a, i, hsp),
        fee_year_exact(b, i, hsp),
    ensures
        !dec_lt(year_figures(a, i, hsp).unwrap().net_savings, year_figures(b, i, hsp).unwrap().net_savings),
{
    reveal(year_figures);
    lemma_year_figures_fee_independent(a, b, i, hsp);
    lemma_year_figures_valid(a, i, hsp);
    lemma_year_figures_valid(b, i, hsp);
    let fa = year_figures(a, i, hsp).unwrap();
    let fb = year_figures(b, i, hsp).unwrap();
    let t = a.total_tariff;
    lemma_units_mul(a.availability_fee_yearly_kwh, t);
    lemma_units_mul(b.availability_fee_yearly_kwh, t);
    lemma_units_lt(b.availability_fee_yearly_kwh, a.availability_fee_yearly_kwh);
    lemma_units_lt(t, dec(0, 0));
    lemma_units_zero();
    lemma_pow10_positive(MAX_SCALE as nat);
    let ua = units(a.availability_fee_yearly_kwh);
    let ub = units(b.availability_fee_yearly_kwh);
    let ut = units(t);
    let big = pow10(MAX_SCALE as nat);
    assert(units(fa.minimum_payable_fee) <= units(fb.minimum_payable_fee)) by (nonlinear_arith)
        requires
            units(fa.minimum_payable_fee) * big == ua * ut,
            units(fb.minimum_payable_fee) * big == ub * ut,
            ua <= ub,
            ut >= 0,
            big > 0,
    ;
    lemma_units_min_max(fa.baseline_grid_cost, fa.minimum_payable_fee);
    lemma_units_min_max(fb.baseline_grid_cost, fb.minimum_payable_fee);
    lemma_units_sub(fa.old_bill, fa.new_bill);
    lemma_units_sub(fb.old_bill, fb.new_bill);
    lemma_units_lt(fa.net_savings, fb.net_savings);
}

/// Every addition to the cumulative cash flow of a projection is exact.
pub open spec fn cash_flow_exact(p: SimulationParams, start: Dec, hsps: Seq<Dec>) -> bool
    decreases hsps.len(),
{
    hsps.len() == 0 || (cash_flow_exact(p, start, hsps.drop_last()) && match (
        projection(p, start, hsps.drop_last()),
        year_figures(p, hsps.len() as u32, hsps.last()),
    ) {
        (Some(t), Some(f)) => add_fits(t.cumulative, f.net_savings),
        _ => true,
    })
}

/// Where year `i` is computed under both sets of constants, its net savings under `a` are at
/// least those under `b`.
pub open spec fn net_savings_at_least(a: SimulationParams, b: SimulationParams, i: u32, hsp: Dec) -> bool {
    match (year_figures(a, i, hsp), year_figures(b, i, hsp)) {
        (Some(fa), Some(fb)) => !dec_lt(fa.net_savings, fb.net_savings),
        _ => true,
    }
}

/// Exact cash-flow additions stay exact over the first years.
proof fn lemma_cash_flow_exact_prefix(p: SimulationParams, start: Dec, hsps: Seq<Dec>, k: int)
    requires
        0 <= k <= hsps.len(),
        cash_flow_exact(p, start, hsps),
    ensures
        cash_flow_exact(p, start, hsps.take(k)),
    decreases hsps.len() - k,
{
    if k < hsps.len() {
        lemma_cash_flow_exact_prefix(p, start, hsps, k + 1);
        assert(hsps.take(k + 1).drop_last() =~= hsps.take(k));
    } else {
        assert(hsps.take(k) =~= hsps);
    }
}

/// A projection that starts from at least as much cash and saves at least as much every
/// year ends with at least as much cumulative cash flow, and pays back no later.
#[verifier::rlimit(60)]
#[verifier::spinoff_prover]
proof fn lemma_cash_flow_order(a: SimulationParams, b: SimulationParams, sa: Dec, sb: Dec, hsps: Seq<Dec>)
    requires
        a.wf(),
        b.wf(),
        sa.wf(),
        sb.wf(),
        hsps.len() <= 25,
        forall|k: int| 0 <= k < hsps.len() ==> (#[trigger] hsps[k]).wf(),
        !dec_lt(sa, sb),
        forall|k: int| 0 <= k < hsps.len() ==> net_savings_at_least(a, b, (k + 1) as u32, #[trigger] hsps[k]),
        projection(a, sa, hsps) is Some,
        projection(b, sb, hsps) is Some,
        cash_flow_exact(a, sa, hsps),
        cash_flow_exact(b, sb, hsps),
    ensures
        ({
            let ta = projection(a, sa, hsps).unwrap();
            let tb = projection(b, sb, hsps).unwrap();
            &&& ta.cumulative.wf()
            &&& tb.cumulative.wf()
            &&& !dec_lt(ta.cumulative, tb.cumulative)
            &&& tb.payback matches Some(y) ==> ta.payback matches Some(x) && x <= y
        }),
    decreases hsps.len(),
{
    if hsps.len() > 0 {
        let prev = hsps.drop_last();
        assert forall|k: int| 0 <= k < prev.len() implies net_savings_at_least(a, b, (k + 1) as u32, #[trigger] prev[k]) && prev[k].wf() by {
            assert(prev[k] == hsps[k]);
        }
        lemma_cash_flow_order(a, b, sa, sb, prev);
        let n = hsps.len() as int;
        let i = n as u32;
        let hsp = hsps.last();
        assert(hsp == hsps[n - 1]);
        assert(net_savings_at_least(a, b, (n - 1 + 1) as u32, hsps[n - 1]));
        lemma_year_figures_valid(a, i, hsp);
        lemma_year_figures_valid(b, i, hsp);
        let ta0 = projection(a, sa, prev).unwrap();
        let tb0 = projection(b, sb, prev).unwrap();
        let fa = year_figures(a, i, hsp).unwrap();
        let fb = year_figures(b, i, hsp).unwrap();
        lemma_units_add(ta0.cumulative, fa.net_savings);
        lemma_units_add(tb0.cumulative, fb.net_savings);
        lemma_units_lt(ta0.cumulative, tb0.cumulative);
        lemma_units_lt(fa.net_savings, fb.net_savings);
        let ca = dec_add(ta0.cumulative, fa.net_savings).unwrap();
        let cb = dec_add(tb0.cumulative, fb.net_savings).unwrap();
        lemma_units_lt(ca, cb);
        lemma_units_zero();
        assert(dec(0, 0).wf());
        lemma_units_lt(ca, dec(0, 0));
        lemma_units_lt(cb, dec(0, 0));
        let ta = projection(a, sa, hsps).unwrap();
        let tb = projection(b, sb, hsps).unwrap();
        assert(ta.cumulative == ca);
        assert(tb.cumulative == cb);
        assert(ta.cumulative.wf());
        assert(!dec_lt(ta.cumulative, tb.cumulative));
        lemma_projection_shape(a, sa, prev);
        lemma_projection_shape(b, sb, prev);
        assert(ta.payback == if ta0.payback is None && !dec_lt(ca, dec(0, 0)) {
            Some(i)
        } else {
            ta0.payback
        });
        assert(tb.payback == if tb0.payback is None && !dec_lt(cb, dec(0, 0)) {
            Some(i)
        } else {
            tb0.payback
        });
    }
}

/// The fee, net-savings and cash-flow arithmetic of a simulation is exact.
pub open spec fn simulation_exact(
    input: SimulationInput,
    tariff: UnifiedStateTariff,
    current_year: u32,
    hsps: Seq<Dec>,
) -> bool {
    match simulation_params(input, tariff, current_year) {
        Some(p) => (forall|k: int| 0 <= k < hsps.len() ==> fee_year_exact(p, (k + 1) as u32, #[trigger] hsps[k]))
            && cash_flow_exact(p, initial_cash_flow(input), hsps),
        None => true,
    }
}

/// The cumulative cash flows of two projections are ordered after every year.
proof fn lemma_cumulative_order(a: SimulationParams, b: SimulationParams, sa: Dec, sb: Dec, hsps: Seq<Dec>)
    requires
        a.wf(),
        b.wf(),
        sa.wf(),
        sb.wf(),
        hsps.len() <= 25,
        forall|k: int| 0 <= k < hsps.len() ==> (#[trigger] hsps[k]).wf(),
        !dec_lt(sa, sb),
        forall|k: int| 0 <= k < hsps.len() ==> net_savings_at_least(a, b, (k + 1) as u32, #[trigger] hsps[k]),
        projection(a, sa, hsps) is Some,
        projection(b, sb, hsps) is Some,
        cash_flow_exact(a, sa, hsps),
        cash_flow_exact(b, sb, hsps),
    ensures
        forall|k: int| 1 <= k <= hsps.len() ==> !dec_lt(
            #[trigger] cumulative_after(a, sa, hsps, k),
            cumulative_after(b, sb, hsps, k),
        ) && cumulative_after(a, sa, hsps, k).wf() && cumulative_after(b, sb, hsps, k).wf(),
        !dec_lt(
            payback_years_of(projection(b, sb, hsps).unwrap().payback),
            payback_years_of(projection(a, sa, hsps).unwrap().payback),
        ),
{
    assert forall|k: int| 1 <= k <= hsps.len() implies !dec_lt(
        #[trigger] cumulative_after(a, sa, hsps, k),
        cumulative_after(b, sb, hsps, k),
    ) && cumulative_after(a, sa, hsps, k).wf() && cumulative_after(b, sb, hsps, k).wf() by {
        let pre = hsps.take(k);
        lemma_projection_prefix(a, sa, hsps, k);
        lemma_projection_prefix(b, sb, hsps, k);
        lemma_cash_flow_exact_prefix(a, sa, hsps, k);
        lemma_cash_flow_exact_prefix(b, sb, hsps, k);
        assert forall|j: int| 0 <= j < pre.len() implies net_savings_at_least(a, b, (j + 1) as u32, #[trigger] pre[j]) && pre[j].wf() by {
            assert(pre[j] == hsps[j]);
        }
        lemma_cash_flow_order(a, b, sa, sb, pre);
    }
    lemma_cash_flow_order(a, b, sa, sb, hsps);
    lemma_projection_shape(a, sa, hsps);
    lemma_projection_shape(b, sb, hsps);
    assert(pow10(0) == 1);
}

/// Each row of a projection holds the year's net savings and the cumulative cash flow
/// after that year, both rounded to cents.
proof fn lemma_projection_rows(p: SimulationParams, start: Dec, hsps: Seq<Dec>)
    requires
        hsps.len() <= 25,
        projection(p, start, hsps) is Some,
    ensures
        projection(p, start, hsps).unwrap().table.len() == hsps.len(),
        forall|k: int| 0 <= k < hsps.len() ==> (#[trigger] year_figures(p, (k + 1) as u32, hsps[k])) is Some,
        forall|k: int| 0 <= k < hsps.len() ==> (#[trigger] projection(p, start, hsps).unwrap().table[k]).net_saving_reais
            == dec_round_dp(year_figures(p, (k + 1) as u32, hsps[k]).unwrap().net_savings, 2)
            && projection(p, start, hsps).unwrap().table[k].cumulative_cash_flow_reais == dec_round_dp(
            cumulative_after(p, start, hsps, k + 1),
            2,
        ),
    decreases hsps.len(),
{
    if hsps.len() > 0 {
        let prev = hsps.drop_last();
        lemma_projection_rows(p, start, prev);
        let n = hsps.len() as int;
        let tp = projection(p, start, prev).unwrap();
        let t = projection(p, start, hsps).unwrap();
        assert(hsps.take(n) =~= hsps);
        assert forall|k: int| 0 <= k < hsps.len() implies (#[trigger] year_figures(p, (k + 1) as u32, hsps[k])) is Some by {
            if k < n - 1 {
                assert(prev[k] == hsps[k]);
                assert(year_figures(p, (k + 1) as u32, prev[k]) is Some);
            } else {
                assert(hsps.last() == hsps[k]);
            }
        }
        assert forall|k: int| 0 <= k < hsps.len() implies (#[trigger] t.table[k]).net_saving_reais
            == dec_round_dp(year_figures(p, (k + 1) as u32, hsps[k]).unwrap().net_savings, 2)
            && t.table[k].cumulative_cash_flow_reais == dec_round_dp(
            cumulative_after(p, start, hsps, k + 1),
            2,
        ) by {
            if k < n - 1 {
                assert(t.table[k] == tp.table[k]);
                assert(prev[k] == hsps[k]);
                assert(hsps.take(k + 1) =~= prev.take(k + 1));
            } else {
                assert(hsps.last() == hsps[k]);
                assert(k == tp.table.len());
                assert(t.table[k] == t.table.last());
            }
        }
    }
}

/// Row by row, the net savings and the cumulative cash flow of table `a` are at least those
/// of table `b`.
pub open spec fn rows_at_least(a: Seq<YearlyProjection>, b: Seq<YearlyProjection>) -> bool {
    &&& a.len() == b.len()
    &&& forall|k: int| 0 <= k < a.len() ==> !dec_lt(
        (#[trigger] a[k]).net_saving_reais,
        b[k].net_saving_reais,
    ) && !dec_lt(a[k].cumulative_cash_flow_reais, b[k].cumulative_cash_flow_reais)
}

/// Where every year's net savings and every cumulative cash flow under `a` are at least
/// those under `b`, so are the rounded rows.
proof fn lemma_rows_at_least(a: SimulationParams, b: SimulationParams, sa: Dec, sb: Dec, hsps: Seq<Dec>)
    requires
        a.wf(),
        b.wf(),
        hsps.len() <= 25,
        forall|k: int| 0 <= k < hsps.len() ==> (#[trigger] hsps[k]).wf(),
        projection(a, sa, hsps) is Some,
        projection(b, sb, hsps) is Some,
        forall|k: int| 0 <= k < hsps.len() ==> net_savings_at_least(a, b, (k + 1) as u32, #[trigger] hsps[k]),
        forall|k: int| 1 <= k <= hsps.len() ==> !dec_lt(
            #[trigger] cumulative_after(a, sa, hsps, k),
            cumulative_after(b, sb, hsps, k),
        ) && cumulative_after(a, sa, hsps, k).wf() && cumulative_after(b, sb, hsps, k).wf(),
    ensures
        rows_at_least(projection(a, sa, hsps).unwrap().table, projection(b, sb, hsps).unwrap().table),
{
    lemma_projection_rows(a, sa, hsps);
    lemma_projection_rows(b, sb, hsps);
    let ta = projection(a, sa, hsps).unwrap();
    let tb = projection(b, sb, hsps).unwrap();
    assert forall|k: int| 0 <= k < ta.table.len() implies !dec_lt(
        (#[trigger] ta.table[k]).net_saving_reais,
        tb.table[k].net_saving_reais,
    ) && !dec_lt(ta.table[k].cumulative_cash_flow_reais, tb.table[k].cumulative_cash_flow_reais) by {
        let i = (k + 1) as u32;
        let ra = ta.table[k];
        let rb = tb.table[k];
        assert(year_figures(a, (k + 1) as u32, hsps[k]) is Some);
        assert(year_figures(b, (k + 1) as u32, hsps[k]) is Some);
        lemma_year_figures_valid(a, i, hsps[k]);
        lemma_year_figures_valid(b, i, hsps[k]);
        assert(net_savings_at_least(a, b, i, hsps[k]));
        let fa = year_figures(a, i, hsps[k]).unwrap();
        let fb = year_figures(b, i, hsps[k]).unwrap();
        lemma_round_dp_monotone(fb.net_savings, fa.net_savings, 2);
        let ca = cumulative_after(a, sa, hsps, k + 1);
        let cb = cumulative_after(b, sb, hsps, k + 1);
        assert(!dec_lt(ca, cb) && ca.wf() && cb.wf());
        lemma_round_dp_monotone(cb, ca, 2);
    }
}

/// Twelve times a monthly availability fee is computed exactly.
proof fn lemma_yearly_fee_exact(phase: PhaseConnection)
    ensures
        availability_fee_kwh(phase).wf(),
        mul_fits(availability_fee_kwh(phase), dec(12, 0)),
{
    let f = availability_fee_kwh(phase);
    let t = dec(12, 0);
    assert(t.mantissa == 12 && t.scale == 0);
    assert(f.scale == 0 && 30 <= f.mantissa <= 100);
    assert(0 < f.mantissa * t.mantissa <= 1200) by (nonlinear_arith)
        requires
            30 <= f.mantissa <= 100,
            t.mantissa == 12,
    ;
}

/// Of two simulations whose inputs differ only in the phase connection, the one whose
/// connection has the smaller availability fee saves at least as much in every year, has
/// at least as large a cumulative cash flow after every year, and pays back no later; the
/// rows agree in year, generation, gross savings and distribution cost.  This holds where
/// the total tariff is not negative and the fee, net-savings and cash-flow arithmetic is
/// exact.
pub proof fn lemma_smaller_fee_saves_more(
    a: SimulationInput,
    b: SimulationInput,
    tariff: UnifiedStateTariff,
    current_year: u32,
    hsps: Seq<Dec>,
)
    requires
        same_but_phase(a, b),
        a.wf(),
        b.wf(),
        tariff_wf(tariff),
        current_year <= u32::MAX - 24,
        hsps.len() <= 25,
        forall|k: int| 0 <= k < hsps.len() ==> (#[trigger] hsps[k]).wf(),
        !dec_lt(availability_fee_kwh(b.phase_type), availability_fee_kwh(a.phase_type)),
        simulation_outcome(a, tariff, current_year, hsps) is Some,
        simulation_outcome(b, tariff, current_year, hsps) is Some,
        !dec_lt(simulation_outcome(a, tariff, current_year, hsps).unwrap().0.total_tariff, dec(0, 0)),
        simulation_exact(a, tariff, current_year, hsps),
        simulation_exact(b, tariff, current_year, hsps),
    ensures
        ({
            let (pa, ta) = simulation_outcome(a, tariff, current_year, hsps).unwrap();
            let (pb, tb) = simulation_outcome(b, tariff, current_year, hsps).unwrap();
            &&& forall|k: int| 0 <= k < hsps.len() ==> net_savings_at_least(pa, pb, (k + 1) as u32, #[trigger] hsps[k])
            &&& forall|k: int| 1 <= k <= hsps.len() ==> !dec_lt(
                #[trigger] cumulative_after(pa, initial_cash_flow(a), hsps, k),
                cumulative_after(pb, initial_cash_flow(b), hsps, k),
            )
            &&& !dec_lt(payback_years_of(tb.payback), payback_years_of(ta.payback))
            &&& tables_agree_on_energy(ta.table, tb.table)
            &&& rows_at_least(ta.table, tb.table)
        }),
{
    broadcast use group_ops_wf;

    lemma_phase_changes_only_bills(a, b, tariff, current_year, hsps);
    lemma_params_phase_only_changes_fee(a, b, tariff, current_year);
    let pa = simulation_params(a, tariff, current_year).unwrap();
    let pb = simulation_params(b, tariff, current_year).unwrap();
    let twelve = dec(12, 0);
    let fa = availability_fee_kwh(a.phase_type);
    let fb = availability_fee_kwh(b.phase_type);
    assert(fa.wf() && fb.wf() && twelve.wf());
    assert(pa.wf() && pb.wf());
    lemma_yearly_fee_exact(a.phase_type);
    lemma_yearly_fee_exact(b.phase_type);
    lemma_units_mul(fa, twelve);
    lemma_units_mul(fb, twelve);
    lemma_units_lt(fb, fa);
    lemma_units_lt(pb.availability_fee_yearly_kwh, pa.availability_fee_yearly_kwh);
    lemma_pow10_positive(MAX_SCALE as nat);
    let big = pow10(MAX_SCALE as nat);
    let u12 = units(twelve);
    assert(u12 == 12 * big);
    assert(units(pa.availability_fee_yearly_kwh) <= units(pb.availability_fee_yearly_kwh)) by (nonlinear_arith)
        requires
            units(pa.availability_fee_yearly_kwh) * big == units(fa) * u12,
            units(pb.availability_fee_yearly_kwh) * big == units(fb) * u12,
            units(fa) <= units(fb),
            u12 > 0,
            big > 0,
    ;
    assert forall|k: int| 0 <= k < hsps.len() implies net_savings_at_least(pa, pb, (k + 1) as u32, #[trigger] hsps[k]) by {
        let i = (k + 1) as u32;
        if year_figures(pa, i, hsps[k]) is Some && year_figures(pb, i, hsps[k]) is Some {
            assert(fee_year_exact(pa, i, hsps[k]));
            assert(fee_year_exact(pb, i, hsps[k]));
            lemma_year_net_savings_fee_order(pa, pb, i, hsps[k]);
        }
    }
    let sa = initial_cash_flow(a);
    let sb = initial_cash_flow(b);
    lemma_units_neg(a.total_investment_reais);
    assert(sa == sb);
    lemma_cumulative_order(pa, pb, sa, sb, hsps);
    lemma_rows_at_least(pa, pb, sa, sb, hsps);
}

/// Of two simulations whose inputs differ only in the investment, the one with the smaller
/// investment has at least as large a cumulative cash flow after every year and pays back
/// no later; the total savings are the same and the rows differ only in the cumulative cash
/// flow.  This holds where the cash-flow arithmetic is exact.
pub proof fn lemma_smaller_investment_recovers_sooner(
    a: SimulationInput,
    b: SimulationInput,
    tariff: UnifiedStateTariff,
    current_year: u32,
    hsps: Seq<Dec>,
)
    requires
        same_but_investment(a, b),
        a.wf(),
        b.wf(),
        tariff_wf(tariff),
        current_year <= u32::MAX - 24,
        hsps.len() <= 25,
        forall|k: int| 0 <= k < hsps.len() ==> (#[trigger] hsps[k]).wf(),
        !dec_lt(b.total_investment_reais, a.total_investment_reais),
        simulation_outcome(a, tariff, current_year, hsps) is Some,
        simulation_outcome(b, tariff, current_year, hsps) is Some,
        cash_flow_exact(simulation_outcome(a, tariff, current_year, hsps).unwrap().0, initial_cash_flow(a), hsps),
        cash_flow_exact(simulation_outcome(b, tariff, current_year, hsps).unwrap().0, initial_cash_flow(b), hsps),
    ensures
        ({
            let (pa, ta) = simulation_outcome(a, tariff, current_year, hsps).unwrap();
            let (pb, tb) = simulation_outcome(b, tariff, current_year, hsps).unwrap();
            &&& forall|k: int| 1 <= k <= hsps.len() ==> !dec_lt(
                #[trigger] cumulative_after(pa, initial_cash_flow(a), hsps, k),
                cumulative_after(pb, initial_cash_flow(b), hsps, k),
            )
            &&& !dec_lt(payback_years_of(tb.payback), payback_years_of(ta.payback))
            &&& ta.total == tb.total
            &&& tables_agree_but_cash_flow(ta.table, tb.table)
            &&& rows_at_least(ta.table, tb.table)
        }),
{
    broadcast use group_ops_wf;

    lemma_investment_changes_only_cash_flow(a, b, tariff, current_year, hsps);
    lemma_params_ignore_investment(a, b, tariff, current_year);
    let p = simulation_params(a, tariff, current_year).unwrap();
    assert(p.wf());
    let sa = initial_cash_flow(a);
    let sb = initial_cash_flow(b);
    lemma_units_neg(a.total_investment_reais);
    lemma_units_neg(b.total_investment_reais);
    lemma_units_lt(b.total_investment_reais, a.total_investment_reais);
    lemma_units_lt(sa, sb);
    assert forall|k: int| 0 <= k < hsps.len() implies net_savings_at_least(p, p, (k + 1) as u32, #[trigger] hsps[k]) by {
    }
    lemma_cumulative_order(p, p, sa, sb, hsps);
    lemma_rows_at_least(p, p, sa, sb, hsps);
}

/// Law 14.300's transition: from 2023 to 2028 the Fio B share is 15 % times the number of
/// years since 2022, rising by exactly 15 points a year; every other year pays the full
/// charge.
pub proof fn lemma_percentage_schedule(year: u32)
    ensures
        2023 <= year <= 2028 ==> distribution_charge_percentage(year) == dec(15 * (year - 2022), 2),
        !(2023 <= year <= 2028) ==> distribution_charge_percentage(year) == dec(1, 0),
        2023 <= year < 2028 ==> distribution_charge_percentage((year + 1) as u32).mantissa
            == distribution_charge_percentage(year).mantissa + 15,
{
}

/// What each figure of a projected year is, in terms of the constants, the year and the
/// peak sun hours: generation = capacity × hsp × 30 × 12 × efficiency; compensated =
/// min(generation, consumption); distribution cost = compensated × distribution tariff × Fio B
/// share of the calendar year; old bill = consumption × total tariff (the bill without
/// solar); minimum fee = yearly fee × total tariff; baseline = uncovered × total tariff +
/// distribution cost; new bill = max(baseline, minimum fee); net savings = old bill − new
/// bill; gross savings = compensated × total tariff.  Where the product is exact, the old
/// bill's value is the consumption's value times the total tariff's.
pub proof fn lemma_year_figures_formulas(p: SimulationParams, i: u32, hsp: Dec)
    requires
        p.wf(),
        1 <= i <= 25,
        year_figures(p, i, hsp) is Some,
    ensures
        ({
            let f = year_figures(p, i, hsp).unwrap();
            &&& f.year == p.current_year + i - 1
            &&& f.efficiency == if i == 1 {
                dec(1, 0)
            } else {
                dec(1000 - 5 * (i - 1), 3)
            }
            &&& Some(f.potential_generation_kwh) == opt_mul(
                opt_mul(opt_mul(dec_mul(p.system_capacity_kwp, hsp), Some(dec(30, 0))), Some(dec(12, 0))),
                Some(f.efficiency),
            )
            &&& f.compensated_kwh == dec_min(f.potential_generation_kwh, p.consumption_yearly_kwh)
            &&& f.tax_percentage == distribution_charge_percentage(f.year)
            &&& Some(f.distribution_cost) == opt_mul(
                dec_mul(f.compensated_kwh, p.distribution_tariff),
                Some(f.tax_percentage),
            )
            &&& Some(f.old_bill) == dec_mul(p.consumption_yearly_kwh, p.total_tariff)
            &&& Some(f.minimum_payable_fee) == dec_mul(p.availability_fee_yearly_kwh, p.total_tariff)
            &&& Some(f.baseline_grid_cost) == opt_add(
                dec_mul(f.uncovered_kwh, p.total_tariff),
                Some(f.distribution_cost),
            )
            &&& f.new_bill == dec_max(f.baseline_grid_cost, f.minimum_payable_fee)
            &&& Some(f.net_savings) == dec_sub(f.old_bill, f.new_bill)
            &&& Some(f.gross_savings) == dec_mul(f.compensated_kwh, p.total_tariff)
            &&& (mul_fits(p.consumption_yearly_kwh, p.total_tariff) ==> units(f.old_bill) * pow10(
                MAX_SCALE as nat,
            ) == units(p.consumption_yearly_kwh) * units(p.total_tariff))
        }),
{
    reveal(year_figures);
    lemma_efficiency_formula(i);
    if mul_fits(p.consumption_yearly_kwh, p.total_tariff) {
        lemma_units_mul(p.consumption_yearly_kwh, p.total_tariff);
    }
}

/// The efficiency of year `i` is 1 in the first year and `(1000 − 5 × (i − 1)) / 1000`
/// after it.
proof fn lemma_efficiency_formula(i: u32)
    requires
        1 <= i <= 25,
    ensures
        efficiency_spec(i) == Some(
            if i == 1 {
                dec(1, 0)
            } else {
                dec(1000 - 5 * (i - 1), 3)
            },
        ),
{
    reveal_with_fuel(pow10, 4);
    assert(pow10(3) == 1000);
    assert(pow10(0) == 1);
    if i > 1 {
        let loss = dec(5 * (i - 1), 3);
        assert(dec_mul(dec(5, 3), dec(i - 1, 0)) == Some(loss));
        assert(aligned(1, 0, 3) == 1000);
        assert(aligned(loss.mantissa, 3, 3) == loss.mantissa * 1);
        assert(exact_difference(1, 0, loss.mantissa, 3) == 1000 - 5 * (i - 1));
    } else {
        assert(dec_mul(dec(5, 3), dec(0, 0)) == Some(dec(0, 0)));
    }
}

/// The net savings of the projected years added, one year at a time from the first, to
/// `from`; `None` where a year or a sum cannot be computed.
pub open spec fn net_savings_sum(p: SimulationParams, from: Dec, hsps: Seq<Dec>) -> Option<Dec>
    decreases hsps.len(),
{
    if hsps.len() == 0 {
        Some(from)
    } else {
        match (
            net_savings_sum(p, from, hsps.drop_last()),
            year_figures(p, hsps.len() as u32, hsps.last()),
        ) {
            (Some(s), Some(f)) => dec_add(s, f.net_savings),
            _ => None,
        }
    }
}

/// The total savings of a projection are the net savings of all its years added up, and its
/// cumulative cash flow is the starting cash flow plus the net savings of all its years: both
/// add the same years, the last one included.
pub proof fn lemma_projection_totals(p: SimulationParams, start: Dec, hsps: Seq<Dec>)
    requires
        hsps.len() <= 25,
        projection(p, start, hsps) is Some,
    ensures
        Some(projection(p, start, hsps).unwrap().total) == net_savings_sum(p, dec(0, 0), hsps),
        Some(projection(p, start, hsps).unwrap().cumulative) == net_savings_sum(p, start, hsps),
    decreases hsps.len(),
{
    if hsps.len() > 0 {
        lemma_projection_totals(p, start, hsps.drop_last());
    }
}

/// The availability fees of the three connections: 30 kWh a month for a monophasic, 50 for
/// a biphasic and 100 for a triphasic connection; a connection with more phases never pays
/// less.
pub proof fn lemma_availability_fees()
    ensures
        availability_fee_kwh(PhaseConnection::Monophasic) == dec(30, 0),
        availability_fee_kwh(PhaseConnection::Biphasic) == dec(50, 0),
        availability_fee_kwh(PhaseConnection::Triphasic) == dec(100, 0),
        !dec_lt(availability_fee_kwh(PhaseConnection::Biphasic), availability_fee_kwh(PhaseConnection::Monophasic)),
        !dec_lt(availability_fee_kwh(PhaseConnection::Triphasic), availability_fee_kwh(PhaseConnection::Biphasic)),
{
    assert(pow10(0) == 1);
}

/// The constants of a simulation in terms of its input and tariff: the total tariff is the
/// energy tariff plus the distribution tariff (their exact sum where it fits); the yearly
/// availability fee is twelve times the monthly one; the yearly consumption is the monthly
/// bill divided by the total tariff, times twelve; the distribution tariff, the capacity and
/// the current year are passed on; the cash flow starts at minus the investment.
pub proof fn lemma_params_formulas(input: SimulationInput, tariff: UnifiedStateTariff, current_year: u32)
    requires
        input.wf(),
        tariff_wf(tariff),
        simulation_params(input, tariff, current_year) is Some,
    ensures
        ({
            let p = simulation_params(input, tariff, current_year).unwrap();
            &&& Some(p.total_tariff) == dec_add(tariff.average_energy_tariff, tariff.average_distribution_tariff)
            &&& (add_fits(tariff.average_energy_tariff, tariff.average_distribution_tariff) ==> units(p.total_tariff)
                == units(tariff.average_energy_tariff) + units(tariff.average_distribution_tariff))
            &&& p.availability_fee_yearly_kwh == dec(12 * availability_fee_kwh(input.phase_type).mantissa, 0)
            &&& units(p.availability_fee_yearly_kwh) == 12 * units(availability_fee_kwh(input.phase_type))
            &&& Some(p.consumption_yearly_kwh) == opt_mul(
                dec_div(input.average_bill_reais, p.total_tariff),
                Some(dec(12, 0)),
            )
            &&& p.distribution_tariff == tariff.average_distribution_tariff
            &&& p.system_capacity_kwp == input.system_capacity_kwp
            &&& p.current_year == current_year
            &&& units(initial_cash_flow(input)) == -units(input.total_investment_reais)
        }),
{
    lemma_yearly_fee_exact(input.phase_type);
    let f = availability_fee_kwh(input.phase_type);
    assert(dec(12, 0).wf());
    lemma_units_mul(f, dec(12, 0));
    lemma_pow10_positive(MAX_SCALE as nat);
    let big = pow10(MAX_SCALE as nat);
    let p = simulation_params(input, tariff, current_year).unwrap();
    assert(units(dec(12, 0)) == 12 * big);
    assert(units(p.availability_fee_yearly_kwh) == 12 * units(f)) by (nonlinear_arith)
        requires
            units(p.availability_fee_yearly_kwh) * big == units(f) * (12 * big),
            big > 0,
    ;
    if add_fits(tariff.average_energy_tariff, tariff.average_distribution_tariff) {
        lemma_units_add(tariff.average_energy_tariff, tariff.average_distribution_tariff);
    }
    lemma_units_neg(input.total_investment_reais);
}

} // verus!
