use kero_engine::aneel_api::UnifiedStateTariff;
use kero_engine::decimal::Dec;
use kero_engine::hsp_request::get_hsp_fallback;
use kero_engine::simulation::{
    derive_params, get_availability_fee_kwh, panel_efficiency, project_year,
};
use kero_engine::{
    calculate_solar_roi, GeneralLegalFramework, PhaseConnection, SimulationError, SimulationInput,
    SimulationRun, TaxStrategy,
};
use rust_decimal::Decimal;
use std::str::FromStr;

fn d(text: &str) -> Dec {
    Dec::parse(text).ok().unwrap()
}

fn value(x: Dec) -> Decimal {
    Decimal::from_i128_with_scale(x.mantissa, x.scale)
}

fn dv(text: &str) -> Decimal {
    Decimal::from_str(text).unwrap()
}

fn es_tariff() -> UnifiedStateTariff {
    UnifiedStateTariff {
        average_energy_tariff: d("0.28"),
        average_distribution_tariff: d("0.44"),
        average_fio_b_tariff: d("0.44"),
    }
}

fn es_input(bill: &str, investment: &str) -> SimulationInput {
    SimulationInput {
        location_state: "ES".to_string(),
        average_bill_reais: d(bill),
        system_capacity_kwp: d("4.5"),
        total_investment_reais: d(investment),
        phase_type: PhaseConnection::Biphasic,
    }
}

#[test]
fn should_create_simulate_input() {
    let user_input = SimulationInput {
        location_state: "ES".to_string(),
        average_bill_reais: d("250.00"),
        system_capacity_kwp: d("4.5"),
        total_investment_reais: d("30000.00"),
        phase_type: PhaseConnection::Biphasic,
    };
    assert_eq!(user_input.location_state, "ES");
    assert_eq!(value(user_input.total_investment_reais), Decimal::new(3000000, 2));
}

#[test]
fn should_return_correct_tax_percentage_for_2026() {
    let strategy = GeneralLegalFramework;
    let percentage_2026 = strategy.get_distribution_charge_percentage(2026);
    assert_eq!(value(percentage_2026), Decimal::from_str("0.60").unwrap());
}

#[test]
fn should_calculate_complete_simulation_with_payback_successfully() {
    // Espírito Santo (ES), with the state's fallback irradiation every year.
    let client_input = es_input("500.00", "15000.00");
    let hsp = get_hsp_fallback("ES");
    let hsps = vec![hsp; 25];

    let simulation_run = calculate_solar_roi(&client_input, &es_tariff(), 2026, &hsps);

    // Assert engine processing integrity
    assert!(simulation_run.is_ok());

    let result = simulation_run.ok().unwrap();

    // Verify payback was found and triggered within realistic parameters (under or equal to 25 years)
    assert!(value(result.payback_years) > Decimal::ZERO);
    assert!(value(result.payback_years) <= Decimal::from(25));

    // Verify output projections table contains exactly 25 distinct computed rows
    assert_eq!(result.annual_table.len(), 25);

    // Assert year progression consistency inside the dataset array
    assert_eq!(result.annual_table[0].year, 2026);
    assert_eq!(result.annual_table[24].year, 2050);
}

#[test]
fn tax_percentage_schedule() {
    let s = GeneralLegalFramework;
    assert_eq!(value(s.get_distribution_charge_percentage(2022)), Decimal::ONE);
    assert_eq!(value(s.get_distribution_charge_percentage(2023)), dv("0.15"));
    assert_eq!(value(s.get_distribution_charge_percentage(2025)), dv("0.45"));
    assert_eq!(value(s.get_distribution_charge_percentage(2028)), dv("0.90"));
    assert_eq!(value(s.get_distribution_charge_percentage(2029)), Decimal::ONE);
    for y in 2023..2040u32 {
        let a = value(s.get_distribution_charge_percentage(y));
        let b = value(s.get_distribution_charge_percentage(y + 1));
        assert!(a <= b);
        assert!(a > Decimal::ZERO && a <= Decimal::ONE);
    }
}

#[test]
fn efficiency_drops_half_a_percent_a_year() {
    assert_eq!(panel_efficiency(1).unwrap(), Dec { mantissa: 1, scale: 0, negative: false });
    assert_eq!(panel_efficiency(2).unwrap(), Dec { mantissa: 995, scale: 3, negative: false });
    assert_eq!(panel_efficiency(25).unwrap(), Dec { mantissa: 880, scale: 3, negative: false });
}

#[test]
fn availability_fee_per_phase() {
    assert_eq!(get_availability_fee_kwh(PhaseConnection::Monophasic), Dec { mantissa: 30, scale: 0, negative: false });
    assert_eq!(get_availability_fee_kwh(PhaseConnection::Biphasic), Dec { mantissa: 50, scale: 0, negative: false });
    assert_eq!(get_availability_fee_kwh(PhaseConnection::Triphasic), Dec { mantissa: 100, scale: 0, negative: false });
}

#[test]
fn one_year_figures_follow_the_formulas() {
    // total tariff 1.00 R$/kWh, bill 500 R$ a month: 6000 kWh a year
    let tariff = UnifiedStateTariff {
        average_energy_tariff: d("0.70"),
        average_distribution_tariff: d("0.30"),
        average_fio_b_tariff: d("0.30"),
    };
    let input = SimulationInput {
        location_state: "ES".to_string(),
        average_bill_reais: d("500"),
        system_capacity_kwp: d("4"),
        total_investment_reais: d("10000"),
        phase_type: PhaseConnection::Biphasic,
    };
    let p = derive_params(&input, &tariff, 2026).unwrap();
    assert_eq!(value(p.total_tariff), Decimal::ONE);
    assert_eq!(value(p.consumption_yearly_kwh), dv("6000"));
    assert_eq!(value(p.availability_fee_yearly_kwh), dv("600"));

    // 4 kWp × 5 h × 30 × 12 × 1 = 7200 kWh, more than consumed
    let f = project_year(&p, 1, &d("5")).unwrap();
    assert_eq!(f.year, 2026);
    assert_eq!(value(f.potential_generation_kwh), dv("7200"));
    assert_eq!(value(f.compensated_kwh), dv("6000"));
    assert_eq!(value(f.uncovered_kwh), Decimal::ZERO);
    // 6000 × 0.30 × 0.60
    assert_eq!(value(f.distribution_cost), dv("1080"));
    assert_eq!(value(f.old_bill), dv("6000"));
    assert_eq!(value(f.minimum_payable_fee), dv("600"));
    assert_eq!(value(f.new_bill), dv("1080"));
    assert_eq!(value(f.net_savings), dv("4920"));
    assert_eq!(value(f.gross_savings), dv("6000"));

    // year 2 (2027, 75 %), 2 h of sun: 4 × 2 × 30 × 12 × 0.995 = 2865.6 kWh
    let g = project_year(&p, 2, &d("2")).unwrap();
    assert_eq!(g.year, 2027);
    assert_eq!(value(g.potential_generation_kwh), dv("2865.6"));
    assert_eq!(value(g.compensated_kwh), dv("2865.6"));
    assert_eq!(value(g.uncovered_kwh), dv("3134.4"));
    // 2865.6 × 0.30 × 0.75 = 644.76
    assert_eq!(value(g.distribution_cost), dv("644.76"));
    assert_eq!(value(g.new_bill), dv("3779.16"));
    assert_eq!(value(g.net_savings), dv("2220.84"));
}

#[test]
fn minimum_fee_bounds_the_new_bill() {
    let tariff = UnifiedStateTariff {
        average_energy_tariff: d("0.70"),
        average_distribution_tariff: d("0.30"),
        average_fio_b_tariff: d("0.30"),
    };
    let input = SimulationInput {
        location_state: "SP".to_string(),
        average_bill_reais: d("500"),
        system_capacity_kwp: d("4"),
        total_investment_reais: d("10000"),
        phase_type: PhaseConnection::Triphasic,
    };
    // from 2029 on the full Fio B charge applies (100 %)
    let p = derive_params(&input, &tariff, 2035).unwrap();
    let f = project_year(&p, 1, &d("5")).unwrap();
    // baseline = 6000 × 0.30 × 1 = 1800, fee = 1200 × 1 = 1200
    assert_eq!(value(f.baseline_grid_cost), dv("1800"));
    assert_eq!(value(f.minimum_payable_fee), dv("1200"));
    assert_eq!(value(f.new_bill), dv("1800"));
    let tiny = project_year(&p, 1, &d("0.01")).unwrap();
    assert_eq!(value(tiny.new_bill), value(tiny.baseline_grid_cost).max(dv("1200")));
    assert!(value(tiny.new_bill) >= dv("1200"));
}

#[test]
fn payback_is_the_first_year_with_nonnegative_cash_flow() {
    let tariff = UnifiedStateTariff {
        average_energy_tariff: d("0.70"),
        average_distribution_tariff: d("0.30"),
        average_fio_b_tariff: d("0.30"),
    };
    let input = SimulationInput {
        location_state: "ES".to_string(),
        average_bill_reais: d("500"),
        system_capacity_kwp: d("4"),
        total_investment_reais: d("10000"),
        phase_type: PhaseConnection::Biphasic,
    };
    let hsps = vec![d("5"); 25];
    let result = calculate_solar_roi(&input, &tariff, 2026, &hsps).ok().unwrap();
    // 2026: 4920, 2027 (75 %): 6000 − 1350 = 4650 → cumulative −430 after 2 years, then positive
    assert_eq!(value(result.annual_table[0].cumulative_cash_flow_reais), dv("-5080"));
    assert_eq!(value(result.annual_table[1].cumulative_cash_flow_reais), dv("-430"));
    assert!(value(result.annual_table[2].cumulative_cash_flow_reais) >= Decimal::ZERO);
    assert_eq!(result.payback_years, Dec { mantissa: 3, scale: 0, negative: false });
}

#[test]
fn never_recovered_investment_reports_25_years() {
    let input = es_input("100.00", "1000000.00");
    let hsps = vec![d("4.5"); 25];
    let result = calculate_solar_roi(&input, &es_tariff(), 2030, &hsps).ok().unwrap();
    assert_eq!(result.payback_years, Dec { mantissa: 25, scale: 0, negative: false });
    assert_eq!(result.annual_table[24].year, 2054);
    assert!(value(result.annual_table[24].cumulative_cash_flow_reais) < Decimal::ZERO);
}

#[test]
fn rows_are_rounded_to_cents() {
    let input = es_input("500.00", "15000.00");
    let hsps = vec![d("4.80"); 25];
    let result = calculate_solar_roi(&input, &es_tariff(), 2026, &hsps).ok().unwrap();
    for row in result.annual_table.iter() {
        assert!(row.net_saving_reais.scale <= 2);
        assert!(row.cumulative_cash_flow_reais.scale <= 2);
        assert!(row.energy_generate_kwh.scale <= 2);
    }
    assert!(result.total_25yr_savings_reais.scale <= 2);
    // 4.5 × 4.80 × 30 × 12 = 7776 kWh in the first year
    assert_eq!(value(result.annual_table[0].energy_generate_kwh), dv("7776"));
}

#[test]
fn zero_tariff_is_an_error() {
    let tariff = UnifiedStateTariff {
        average_energy_tariff: Dec::zero(),
        average_distribution_tariff: Dec::zero(),
        average_fio_b_tariff: Dec::zero(),
    };
    let input = es_input("500.00", "15000.00");
    let hsps = vec![d("4.80"); 25];
    let result = calculate_solar_roi(&input, &tariff, 2026, &hsps);
    assert!(matches!(result, Err(SimulationError::Arithmetic)));
    assert!(SimulationRun::start(&input, &tariff, 2026).is_err());
}

#[test]
fn step_by_step_run_matches_whole_calculation() {
    let input = es_input("350.00", "20000.00");
    let hsps = vec![d("5.1"); 25];
    let whole = calculate_solar_roi(&input, &es_tariff(), 2026, &hsps).ok().unwrap();
    let mut run = SimulationRun::start(&input, &es_tariff(), 2026).ok().unwrap();
    while !run.is_complete() {
        assert!(run.advance(d("5.1")).is_ok());
    }
    let stepped = run.finish();
    assert_eq!(stepped.payback_years, whole.payback_years);
    assert_eq!(stepped.total_25yr_savings_reais, whole.total_25yr_savings_reais);
    assert_eq!(stepped.annual_table, whole.annual_table);
}

#[test]
fn zero_investment_starts_from_negative_zero() {
    let input = es_input("500.00", "0");
    let run = SimulationRun::start(&input, &es_tariff(), 2026).ok().unwrap();
    assert_eq!(run.cumulative_cash_flow.mantissa, 0);
    assert!(run.cumulative_cash_flow.negative);
}

#[test]
fn phase_changes_only_bills() {
    let mut a = es_input("120.00", "15000.00");
    a.phase_type = PhaseConnection::Monophasic;
    let mut b = es_input("120.00", "15000.00");
    b.phase_type = PhaseConnection::Triphasic;
    let hsps = vec![d("4.80"); 25];
    let ra = calculate_solar_roi(&a, &es_tariff(), 2026, &hsps).ok().unwrap();
    let rb = calculate_solar_roi(&b, &es_tariff(), 2026, &hsps).ok().unwrap();
    for k in 0..25 {
        let (x, y) = (ra.annual_table[k], rb.annual_table[k]);
        assert_eq!(x.year, y.year);
        assert_eq!(x.energy_generate_kwh, y.energy_generate_kwh);
        assert_eq!(x.gross_savings_reais, y.gross_savings_reais);
        assert_eq!(x.distribution_cost_reais, y.distribution_cost_reais);
        assert!(value(x.net_saving_reais) >= value(y.net_saving_reais));
    }
}

#[test]
fn investment_changes_only_cash_flow() {
    let a = es_input("500.00", "10000.00");
    let b = es_input("500.00", "30000.00");
    let hsps = vec![d("4.80"); 25];
    let ra = calculate_solar_roi(&a, &es_tariff(), 2026, &hsps).ok().unwrap();
    let rb = calculate_solar_roi(&b, &es_tariff(), 2026, &hsps).ok().unwrap();
    assert_eq!(ra.total_25yr_savings_reais, rb.total_25yr_savings_reais);
    for k in 0..25 {
        let (x, y) = (ra.annual_table[k], rb.annual_table[k]);
        assert_eq!(x.net_saving_reais, y.net_saving_reais);
        assert_eq!(x.energy_generate_kwh, y.energy_generate_kwh);
        assert!(value(x.cumulative_cash_flow_reais) > value(y.cumulative_cash_flow_reais));
    }
    assert!(value(ra.payback_years) <= value(rb.payback_years));
}

#[test]
fn smaller_fee_recovers_no_later() {
    let mut a = es_input("120.00", "3000.00");
    a.phase_type = PhaseConnection::Monophasic;
    let mut b = es_input("120.00", "3000.00");
    b.phase_type = PhaseConnection::Triphasic;
    let hsps = vec![d("4.80"); 25];
    let ra = calculate_solar_roi(&a, &es_tariff(), 2026, &hsps).ok().unwrap();
    let rb = calculate_solar_roi(&b, &es_tariff(), 2026, &hsps).ok().unwrap();
    for k in 0..25 {
        let (x, y) = (ra.annual_table[k], rb.annual_table[k]);
        assert!(value(x.cumulative_cash_flow_reais) >= value(y.cumulative_cash_flow_reais));
    }
    assert!(value(ra.payback_years) <= value(rb.payback_years));
    assert!(value(ra.total_25yr_savings_reais) > value(rb.total_25yr_savings_reais));
}
