use kero_engine::aneel_api::{
    get_unified_state_tariff, parse_decimal_flexible, residential_tariffs_from_response,
    AneelApiResponse, AneelTariffRecord, CkanResult, TariffError,
};
use kero_engine::decimal::Dec;
use rust_decimal::Decimal;
use std::str::FromStr;

fn d(text: &str) -> Dec {
    Dec::parse(text).ok().unwrap()
}

fn value(x: Dec) -> Decimal {
    Decimal::from_i128_with_scale(x.mantissa, x.scale)
}

fn record(utility: &str, subgroup: &str, modality: &str, te: &str, tusd: &str) -> AneelTariffRecord {
    AneelTariffRecord {
        utility_name: utility.to_string(),
        subgroup: subgroup.to_string(),
        modality: modality.to_string(),
        energy_tariff: d(te),
        distribution_tariff: d(tusd),
        fio_b_tariff: Dec::zero(),
    }
}

fn sample_response() -> AneelApiResponse {
    AneelApiResponse {
        success: true,
        result: CkanResult {
            records: vec![
                record("EDP ES", "A4", "Azul", "0.30", "0.10"),
                record("EDP ES", "B1", "Convencional", "0.28", "0.42"),
                record("ELFSM", "B1", "Branca", "0.27", "0.50"),
                record("ELFSM", "B1", "Convencional", "0.26", "0.46"),
            ],
        },
    }
}

#[test]
fn should_parse_real_residential_tariffs_from_es() {
    let result = residential_tariffs_from_response(&sample_response());

    assert!(result.is_ok(), "The API request failed");

    let records = result.ok().unwrap();

    assert!(!records.is_empty(), "No Residential records found for ES");

    assert_eq!(records[0].subgroup, "B1");

    assert!(value(records[0].distribution_tariff) > Decimal::ZERO);
    assert_eq!(records.len(), 2);
    assert_eq!(records[1].utility_name, "ELFSM");
    assert_eq!(records[0].fio_b_tariff, records[0].distribution_tariff);
}

#[test]
fn should_aggregate_and_calculate_state_averages_correctly() {
    let records = residential_tariffs_from_response(&sample_response()).ok().unwrap();
    let result = get_unified_state_tariff("ES", &records);

    assert!(result.is_ok(), "Failed to aggregate tariff averages");
    let aggregate_data = result.ok().unwrap();

    assert!(value(aggregate_data.average_energy_tariff) > Decimal::ZERO);
    assert!(value(aggregate_data.average_distribution_tariff) > Decimal::ZERO);
    assert_eq!(value(aggregate_data.average_energy_tariff), Decimal::from_str("0.27").unwrap());
    assert_eq!(value(aggregate_data.average_distribution_tariff), Decimal::from_str("0.44").unwrap());
    assert_eq!(value(aggregate_data.average_fio_b_tariff), Decimal::from_str("0.44").unwrap());
}

#[test]
fn failed_query_is_reported() {
    let mut response = sample_response();
    response.success = false;
    let result = residential_tariffs_from_response(&response);
    assert!(matches!(result, Err(TariffError::QueryFailed)));
    assert_eq!(
        TariffError::QueryFailed.message(),
        "ANEEL API flagged the internal query operation as failed"
    );
}

#[test]
fn at_most_five_records_are_taken() {
    let mut records = Vec::new();
    for k in 0..8 {
        records.push(record(&format!("U{}", k), "B1", "Convencional", "0.25", "0.40"));
    }
    let response = AneelApiResponse { success: true, result: CkanResult { records } };
    let selected = residential_tariffs_from_response(&response).ok().unwrap();
    assert_eq!(selected.len(), 5);
    assert_eq!(selected[0].utility_name, "U0");
    assert_eq!(selected[4].utility_name, "U4");
}

#[test]
fn no_records_names_the_state() {
    let result = get_unified_state_tariff("AC", &Vec::new());
    match result {
        Err(e) => {
            assert!(matches!(e, TariffError::NoRecords { .. }));
            assert_eq!(e.message(), "No tariff data records found returned by ANEEL for state 'AC'");
        }
        Ok(_) => panic!("expected an error"),
    }
}

#[test]
fn average_of_three_records_is_rounded_by_division() {
    let records = vec![
        record("A", "B1", "Convencional", "1", "1"),
        record("B", "B1", "Convencional", "1", "1"),
        record("C", "B1", "Convencional", "0", "1"),
    ];
    let t = get_unified_state_tariff("SP", &records).ok().unwrap();
    assert_eq!(value(t.average_energy_tariff), Decimal::from_str("0.6666666666666666666666666667").unwrap());
    assert_eq!(value(t.average_distribution_tariff), Decimal::ONE);
}

#[test]
fn decimal_comma_is_accepted() {
    assert_eq!(parse_decimal_flexible("0,45678").ok().unwrap(), Dec { mantissa: 45678, scale: 5, negative: false });
    assert_eq!(parse_decimal_flexible("0.45678").ok().unwrap(), Dec { mantissa: 45678, scale: 5, negative: false });
    assert!(parse_decimal_flexible("n/a").is_err());
}

#[test]
fn overflowing_sum_is_reported() {
    let huge = Dec::from_parts(79228162514264337593543950335, 0).unwrap();
    let mut a = record("A", "B1", "Convencional", "1", "1");
    let mut b = record("B", "B1", "Convencional", "1", "1");
    a.energy_tariff = huge;
    b.energy_tariff = huge;
    let result = get_unified_state_tariff("RJ", &vec![a, b]);
    assert!(matches!(result, Err(TariffError::Overflow)));
    assert_eq!(TariffError::Overflow.message(), "Tariff values exceed the decimal range");
}

fn full_record(te: &str, tusd: &str) -> AneelTariffRecord {
    AneelTariffRecord {
        utility_name: "EDP ES".to_string(),
        subgroup: "B1".to_string(),
        modality: "Convencional".to_string(),
        energy_tariff: d(te),
        distribution_tariff: d(tusd),
        fio_b_tariff: d(tusd),
    }
}

#[test]
fn averages_ignore_record_order() {
    let forward = vec![full_record("0.281", "0.4"), full_record("0.27", "0.456"), full_record("0.3", "0.44")];
    let backward = vec![full_record("0.3", "0.44"), full_record("0.281", "0.4"), full_record("0.27", "0.456")];
    let a = get_unified_state_tariff("ES", &forward).ok().unwrap();
    let b = get_unified_state_tariff("ES", &backward).ok().unwrap();
    assert_eq!(a, b);
    assert_eq!(value(a.average_energy_tariff), Decimal::from_str("0.2836666666666666666666666667").unwrap());
}

#[test]
fn averages_of_positive_tariffs_are_positive() {
    let tiny = "0.0000000000000000000000000001";
    let records = vec![full_record(tiny, tiny), full_record(tiny, "0.5"), full_record(tiny, tiny)];
    let u = get_unified_state_tariff("ES", &records).ok().unwrap();
    assert!(u.average_energy_tariff.mantissa > 0);
    assert!(u.average_distribution_tariff.mantissa > 0);
    assert!(u.average_fio_b_tariff.mantissa > 0);
    assert_eq!((u.average_energy_tariff.mantissa, u.average_energy_tariff.scale), (1, 28));
}
