use kero_engine::decimal::Dec;
use kero_engine::hsp_request::{get_coordenates_by_state, get_hsp_fallback, select_hsp};
use rust_decimal::Decimal;
use std::str::FromStr;

fn degrees(c: (i32, i32)) -> (f64, f64) {
    (c.0 as f64 / 100.0, c.1 as f64 / 100.0)
}

fn value(x: Dec) -> Decimal {
    Decimal::from_i128_with_scale(x.mantissa, x.scale)
}

#[test]
fn test_coordinate_mapping() {
    let (lat_sp, lon_sp) = degrees(get_coordenates_by_state("SP"));
    assert_eq!((lat_sp, lon_sp), (-22.19, -48.79));

    let (lat_df, lon_df) = degrees(get_coordenates_by_state("DF"));
    assert_eq!((lat_df, lon_df), (-15.78, -47.93));

    //test fallback
    let (lat_inv, lon_inv) = degrees(get_coordenates_by_state("INVALID_STATE"));
    assert_eq!((lat_inv, lon_inv), (-15.78, -47.93));
}

#[test]
fn test_fallback_hsp_values() {
    let hsp_sp = get_hsp_fallback("SP");
    assert_eq!(value(hsp_sp), Decimal::from_str("4.60").unwrap());

    let hsp_es = get_hsp_fallback("ES");
    assert_eq!(value(hsp_es), Decimal::from_str("4.80").unwrap());
}

#[test]
fn test_get_hsp_by_state_real_api() {
    // Without a measurement the state's table value is used.
    let hsp = value(select_hsp("SP", None));

    assert!(hsp > Decimal::from_str("3.0").unwrap());
    assert!(hsp < Decimal::from_str("7.0").unwrap());
}

#[test]
fn measured_hsp_takes_precedence() {
    let measured = Dec { mantissa: 485, scale: 2, negative: false };
    assert_eq!(select_hsp("ES", Some(measured)), measured);
    assert_eq!(select_hsp("ES", None), get_hsp_fallback("ES"));
}

#[test]
fn unknown_state_hsp_is_default() {
    assert_eq!(get_hsp_fallback("XX"), Dec { mantissa: 450, scale: 2, negative: false });
    assert_eq!(get_hsp_fallback(""), Dec { mantissa: 450, scale: 2, negative: false });
    assert_eq!(get_hsp_fallback("sp"), Dec { mantissa: 450, scale: 2, negative: false });
}

#[test]
fn every_state_has_its_values() {
    assert_eq!(degrees(get_coordenates_by_state("AC")), (-8.77, -70.55));
    assert_eq!(degrees(get_coordenates_by_state("RR")), (2.73, -61.22));
    assert_eq!(degrees(get_coordenates_by_state("TO")), (-10.18, -48.33));
    assert_eq!(get_hsp_fallback("RN"), Dec { mantissa: 570, scale: 2, negative: false });
    assert_eq!(get_hsp_fallback("SC"), Dec { mantissa: 410, scale: 2, negative: false });
}
