//! Irradiation data per Brazilian state: the reference coordinates sent to the NASA POWER
//! service, the fallback peak-sun-hours table and the choice between a measured value and
//! that table.
use crate::decimal::{dec, Dec};
use crate::text::str_equals;
use vstd::prelude::*;

verus! {

/// Reference latitude and longitude of a state, in hundredths of a degree; the Federal
/// District's for any other text.
pub open spec fn coordinates_of(state: Seq<char>) -> (int, int) {
    if state == "AC"@ {
        (-877, -7055)
    } else if state == "AL"@ {
        (-957, -3678)
    } else if state == "AM"@ {
        (-307, -6166)
    } else if state == "AP"@ {
        (141, -5177)
    } else if state == "BA"@ {
        (-1255, -4170)
    } else if state == "CE"@ {
        (-520, -3953)
    } else if state == "DF"@ {
        (-1578, -4793)
    } else if state == "ES"@ {
        (-1918, -4030)
    } else if state == "GO"@ {
        (-1582, -4983)
    } else if state == "MA"@ {
        (-542, -4544)
    } else if state == "MG"@ {
        (-1851, -4455)
    } else if state == "MS"@ {
        (-2077, -5478)
    } else if state == "MT"@ {
        (-1268, -5692)
    } else if state == "PA"@ {
        (-199, -5223)
    } else if state == "PB"@ {
        (-724, -3678)
    } else if state == "PE"@ {
        (-881, -3695)
    } else if state == "PI"@ {
        (-771, -4273)
    } else if state == "PR"@ {
        (-2489, -5155)
    } else if state == "RJ"@ {
        (-2284, -4315)
    } else if state == "RN"@ {
        (-581, -3659)
    } else if state == "RO"@ {
        (-1150, -6358)
    } else if state == "RR"@ {
        (273, -6122)
    } else if state == "RS"@ {
        (-3003, -5123)
    } else if state == "SC"@ {
        (-2724, -5021)
    } else if state == "SE"@ {
        (-1057, -3738)
    } else if state == "SP"@ {
        (-2219, -4879)
    } else if state == "TO"@ {
        (-1018, -4833)
    } else {
        (-1578, -4793)
    }
}

/// Reference coordinates of a state (latitude, longitude), in hundredths of a degree.
/// Unknown states get the Federal District's coordinates.
pub fn get_coordenates_by_state(state: &str) -> (r: (i32, i32))
    ensures
        (r.0 as int, r.1 as int) == coordinates_of(state@),
{
    if str_equals(state, "AC") {
        (-877, -7055)
    } else if str_equals(state, "AL") {
        (-957, -3678)
    } else if str_equals(state, "AM") {
        (-307, -6166)
    } else if str_equals(state, "AP") {
        (141, -5177)
    } else if str_equals(state, "BA") {
        (-1255, -4170)
    } else if str_equals(state, "CE") {
        (-520, -3953)
    } else if str_equals(state, "DF") {
        (-1578, -4793)
    } else if str_equals(state, "ES") {
        (-1918, -4030)
    } else if str_equals(state, "GO") {
        (-1582, -4983)
    } else if str_equals(state, "MA") {
        (-542, -4544)
    } else if str_equals(state, "MG") {
        (-1851, -4455)
    } else if str_equals(state, "MS") {
        (-2077, -5478)
    } else if str_equals(state, "MT") {
        (-1268, -5692)
    } else if str_equals(state, "PA") {
        (-199, -5223)
    } else if str_equals(state, "PB") {
        (-724, -3678)
    } else if str_equals(state, "PE") {
        (-881, -3695)
    } else if str_equals(state, "PI") {
        (-771, -4273)
    } else if str_equals(state, "PR") {
        (-2489, -5155)
    } else if str_equals(state, "RJ") {
        (-2284, -4315)
    } else if str_equals(state, "RN") {
        (-581, -3659)
    } else if str_equals(state, "RO") {
        (-1150, -6358)
    } else if str_equals(state, "RR") {
        (273, -6122)
    } else if str_equals(state, "RS") {
        (-3003, -5123)
    } else if str_equals(state, "SC") {
        (-2724, -5021)
    } else if str_equals(state, "SE") {
        (-1057, -3738)
    } else if str_equals(state, "SP") {
        (-2219, -4879)
    } else if str_equals(state, "TO") {
        (-1018, -4833)
    } else {
        (-1578, -4793)
    }
}

/// Average daily peak sun hours (kWh/m² per day) of a state, used when no measurement is
/// available; 4.50 for any other text.
pub open spec fn fallback_hsp_of(state: Seq<char>) -> Dec {
    if state == "AC"@ {
        dec(440, 2)
    } else if state == "AL"@ {
        dec(520, 2)
    } else if state == "AM"@ {
        dec(420, 2)
    } else if state == "AP"@ {
        dec(500, 2)
    } else if state == "BA"@ {
        dec(540, 2)
    } else if state == "CE"@ {
        dec(560, 2)
    } else if state == "DF"@ {
        dec(510, 2)
    } else if state == "ES"@ {
        dec(480, 2)
    } else if state == "GO"@ {
        dec(520, 2)
    } else if state == "MA"@ {
        dec(530, 2)
    } else if state == "MG"@ {
        dec(510, 2)
    } else if state == "MS"@ {
        dec(500, 2)
    } else if state == "MT"@ {
        dec(510, 2)
    } else if state == "PA"@ {
        dec(490, 2)
    } else if state == "PB"@ {
        dec(550, 2)
    } else if state == "PE"@ {
        dec(540, 2)
    } else if state == "PI"@ {
        dec(560, 2)
    } else if state == "PR"@ {
        dec(430, 2)
    } else if state == "RJ"@ {
        dec(470, 2)
    } else if state == "RN"@ {
        dec(570, 2)
    } else if state == "RO"@ {
        dec(450, 2)
    } else if state == "RR"@ {
        dec(510, 2)
    } else if state == "RS"@ {
        dec(420, 2)
    } else if state == "SC"@ {
        dec(410, 2)
    } else if state == "SE"@ {
        dec(520, 2)
    } else if state == "SP"@ {
        dec(460, 2)
    } else if state == "TO"@ {
        dec(520, 2)
    } else {
        dec(450, 2)
    }
}

/// Fallback peak sun hours of a state.
pub fn get_hsp_fallback(state: &str) -> (r: Dec)
    ensures
        r == fallback_hsp_of(state@),
        r.wf(),
{
    if str_equals(state, "AC") {
        Dec { mantissa: 440, scale: 2, negative: false }
    } else if str_equals(state, "AL") {
        Dec { mantissa: 520, scale: 2, negative: false }
    } else if str_equals(state, "AM") {
        Dec { mantissa: 420, scale: 2, negative: false }
    } else if str_equals(state, "AP") {
        Dec { mantissa: 500, scale: 2, negative: false }
    } else if str_equals(state, "BA") {
        Dec { mantissa: 540, scale: 2, negative: false }
    } else if str_equals(state, "CE") {
        Dec { mantissa: 560, scale: 2, negative: false }
    } else if str_equals(state, "DF") {
        Dec { mantissa: 510, scale: 2, negative: false }
    } else if str_equals(state, "ES") {
        Dec { mantissa: 480, scale: 2, negative: false }
    } else if str_equals(state, "GO") {
        Dec { mantissa: 520, scale: 2, negative: false }
    } else if str_equals(state, "MA") {
        Dec { mantissa: 530, scale: 2, negative: false }
    } else if str_equals(state, "MG") {
        Dec { mantissa: 510, scale: 2, negative: false }
    } else if str_equals(state, "MS") {
        Dec { mantissa: 500, scale: 2, negative: false }
    } else if str_equals(state, "MT") {
        Dec { mantissa: 510, scale: 2, negative: false }
    } else if str_equals(state, "PA") {
        Dec { mantissa: 490, scale: 2, negative: false }
    } else if str_equals(state, "PB") {
        Dec { mantissa: 550, scale: 2, negative: false }
    } else if str_equals(state, "PE") {
        Dec { mantissa: 540, scale: 2, negative: false }
    } else if str_equals(state, "PI") {
        Dec { mantissa: 560, scale: 2, negative: false }
    } else if str_equals(state, "PR") {
        Dec { mantissa: 430, scale: 2, negative: false }
    } else if str_equals(state, "RJ") {
        Dec { mantissa: 470, scale: 2, negative: false }
    } else if str_equals(state, "RN") {
        Dec { mantissa: 570, scale: 2, negative: false }
    } else if str_equals(state, "RO") {
        Dec { mantissa: 450, scale: 2, negative: false }
    } else if str_equals(state, "RR") {
        Dec { mantissa: 510, scale: 2, negative: false }
    } else if str_equals(state, "RS") {
        Dec { mantissa: 420, scale: 2, negative: false }
    } else if str_equals(state, "SC") {
        Dec { mantissa: 410, scale: 2, negative: false }
    } else if str_equals(state, "SE") {
        Dec { mantissa: 520, scale: 2, negative: false }
    } else if str_equals(state, "SP") {
        Dec { mantissa: 460, scale: 2, negative: false }
    } else if str_equals(state, "TO") {
        Dec { mantissa: 520, scale: 2, negative: false }
    } else {
        Dec { mantissa: 450, scale: 2, negative: false }
    }
}

/// The peak sun hours to use: the measured value where there is one, otherwise the state's
/// fallback value.
pub open spec fn chosen_hsp(state: Seq<char>, measured: Option<Dec>) -> Dec {
    match measured {
        Some(h) => h,
        None => fallback_hsp_of(state),
    }
}

/// Chooses between a measured irradiation value and the state's fallback value.
pub fn select_hsp(state: &str, measured: Option<Dec>) -> (r: Dec)
    requires
        measured matches Some(h) ==> h.wf(),
    ensures
        r == chosen_hsp(state@, measured),
        r.wf(),
{
    match measured {
        Some(h) => h,
        None => get_hsp_fallback(state),
    }
}

/// The 27 state codes (26 states and the Federal District), in the tables' order.
pub open spec fn state_codes() -> Seq<Seq<char>> {
    seq!["AC"@, "AL"@, "AM"@, "AP"@, "BA"@, "CE"@, "DF"@, "ES"@, "GO"@, "MA"@, "MG"@, "MS"@, "MT"@, "PA"@, "PB"@, "PE"@, "PI"@, "PR"@, "RJ"@, "RN"@, "RO"@, "RR"@, "RS"@, "SC"@, "SE"@, "SP"@, "TO"@]
}

/// The average daily peak sun hours of each state code, in hundredths.
pub open spec fn hsp_table() -> Seq<int> {
    seq![440, 520, 420, 500, 540, 560, 510, 480, 520, 530, 510, 500, 510, 490, 550, 540, 560, 430, 470, 570, 450, 510, 420, 410, 520, 460, 520]
}

/// The reference latitude and longitude of each state code, in hundredths of a degree.
pub open spec fn coordinate_table() -> Seq<(int, int)> {
    seq![(-877, -7055), (-957, -3678), (-307, -6166), (141, -5177), (-1255, -4170), (-520, -3953), (-1578, -4793), (-1918, -4030), (-1582, -4983), (-542, -4544), (-1851, -4455), (-2077, -5478), (-1268, -5692), (-199, -5223), (-724, -3678), (-881, -3695), (-771, -4273), (-2489, -5155), (-2284, -4315), (-581, -3659), (-1150, -6358), (273, -6122), (-3003, -5123), (-2724, -5021), (-1057, -3738), (-2219, -4879), (-1018, -4833)]
}

/// Each state code gets its own fallback value from the table, and any text that is not a
/// state code gets the default 4.50.
pub proof fn lemma_fallback_hsp_table(state: Seq<char>)
    ensures
        state_codes().len() == 27,
        hsp_table().len() == 27,
        forall|k: int|
            0 <= k < 27 ==> #[trigger] fallback_hsp_of(state_codes()[k]) == dec(hsp_table()[k], 2),
        !state_codes().contains(state) ==> fallback_hsp_of(state) == dec(450, 2),
{
    reveal_strlit("AC");
    reveal_strlit("AL");
    reveal_strlit("AM");
    reveal_strlit("AP");
    reveal_strlit("BA");
    reveal_strlit("CE");
    reveal_strlit("DF");
    reveal_strlit("ES");
    reveal_strlit("GO");
    reveal_strlit("MA");
    reveal_strlit("MG");
    reveal_strlit("MS");
    reveal_strlit("MT");
    reveal_strlit("PA");
    reveal_strlit("PB");
    reveal_strlit("PE");
    reveal_strlit("PI");
    reveal_strlit("PR");
    reveal_strlit("RJ");
    reveal_strlit("RN");
    reveal_strlit("RO");
    reveal_strlit("RR");
    reveal_strlit("RS");
    reveal_strlit("SC");
    reveal_strlit("SE");
    reveal_strlit("SP");
    reveal_strlit("TO");
    assert forall|k: int| 0 <= k < 27 implies #[trigger] fallback_hsp_of(state_codes()[k]) == dec(hsp_table()[k], 2) by {
        if k == 0 {
            assert(fallback_hsp_of(state_codes()[0]) == dec(hsp_table()[0], 2));
        } else if k == 1 {
            assert("AL"@[1] != "AC"@[1]);
            assert(fallback_hsp_of(state_codes()[1]) == dec(hsp_table()[1], 2));
        } else if k == 2 {
            assert("AM"@[1] != "AC"@[1]);
            assert("AM"@[1] != "AL"@[1]);
            assert(fallback_hsp_of(state_codes()[2]) == dec(hsp_table()[2], 2));
        } else if k == 3 {
            assert("AP"@[1] != "AC"@[1]);
            assert("AP"@[1] != "AL"@[1]);
            assert("AP"@[1] != "AM"@[1]);
            assert(fallback_hsp_of(state_codes()[3]) == dec(hsp_table()[3], 2));
        } else if k == 4 {
            assert("BA"@[0] != "AC"@[0]);
            assert("BA"@[0] != "AL"@[0]);
            assert("BA"@[0] != "AM"@[0]);
            assert("BA"@[0] != "AP"@[0]);
            assert(fallback_hsp_of(state_codes()[4]) == dec(hsp_table()[4], 2));
        } else if k == 5 {
            assert("CE"@[0] != "AC"@[0]);
            assert("CE"@[0] != "AL"@[0]);
            assert("CE"@[0] != "AM"@[0]);
            assert("CE"@[0] != "AP"@[0]);
            assert("CE"@[0] != "BA"@[0]);
            assert(fallback_hsp_of(state_codes()[5]) == dec(hsp_table()[5], 2));
        } else if k == 6 {
            assert("DF"@[0] != "AC"@[0]);
            assert("DF"@[0] != "AL"@[0]);
            assert("DF"@[0] != "AM"@[0]);
            assert("DF"@[0] != "AP"@[0]);
            assert("DF"@[0] != "BA"@[0]);
            assert("DF"@[0] != "CE"@[0]);
            assert(fallback_hsp_of(state_codes()[6]) == dec(hsp_table()[6], 2));
        } else if k == 7 {
            assert("ES"@[0] != "AC"@[0]);
            assert("ES"@[0] != "AL"@[0]);
            assert("ES"@[0] != "AM"@[0]);
            assert("ES"@[0] != "AP"@[0]);
            assert("ES"@[0] != "BA"@[0]);
            assert("ES"@[0] != "CE"@[0]);
            assert("ES"@[0] != "DF"@[0]);
            assert(fallback_hsp_of(state_codes()[7]) == dec(hsp_table()[7], 2));
        } else if k == 8 {
            assert("GO"@[0] != "AC"@[0]);
            assert("GO"@[0] != "AL"@[0]);
            assert("GO"@[0] != "AM"@[0]);
            assert("GO"@[0] != "AP"@[0]);
            assert("GO"@[0] != "BA"@[0]);
            assert("GO"@[0] != "CE"@[0]);
            assert("GO"@[0] != "DF"@[0]);
            assert("GO"@[0] != "ES"@[0]);
            assert(fallback_hsp_of(state_codes()[8]) == dec(hsp_table()[8], 2));
        } else if k == 9 {
            assert("MA"@[0] != "AC"@[0]);
            assert("MA"@[0] != "AL"@[0]);
            assert("MA"@[0] != "AM"@[0]);
            assert("MA"@[0] != "AP"@[0]);
            assert("MA"@[0] != "BA"@[0]);
            assert("MA"@[0] != "CE"@[0]);
            assert("MA"@[0] != "DF"@[0]);
            assert("MA"@[0] != "ES"@[0]);
            assert("MA"@[0] != "GO"@[0]);
            assert(fallback_hsp_of(state_codes()[9]) == dec(hsp_table()[9], 2));
        } else if k == 10 {
            assert("MG"@[0] != "AC"@[0]);
            assert("MG"@[0] != "AL"@[0]);
            assert("MG"@[0] != "AM"@[0]);
            assert("MG"@[0] != "AP"@[0]);
            assert("MG"@[0] != "BA"@[0]);
            assert("MG"@[0] != "CE"@[0]);
            assert("MG"@[0] != "DF"@[0]);
            assert("MG"@[0] != "ES"@[0]);
            assert("MG"@[0] != "GO"@[0]);
            assert("MG"@[1] != "MA"@[1]);
            assert(fallback_hsp_of(state_codes()[10]) == dec(hsp_table()[10], 2));
        } else if k == 11 {
            assert("MS"@[0] != "AC"@[0]);
            assert("MS"@[0] != "AL"@[0]);
            assert("MS"@[0] != "AM"@[0]);
            assert("MS"@[0] != "AP"@[0]);
            assert("MS"@[0] != "BA"@[0]);
            assert("MS"@[0] != "CE"@[0]);
            assert("MS"@[0] != "DF"@[0]);
            assert("MS"@[0] != "ES"@[0]);
            assert("MS"@[0] != "GO"@[0]);
            assert("MS"@[1] != "MA"@[1]);
            assert("MS"@[1] != "MG"@[1]);
            assert(fallback_hsp_of(state_codes()[11]) == dec(hsp_table()[11], 2));
        } else if k == 12 {
            assert("MT"@[0] != "AC"@[0]);
            assert("MT"@[0] != "AL"@[0]);
            assert("MT"@[0] != "AM"@[0]);
            assert("MT"@[0] != "AP"@[0]);
            assert("MT"@[0] != "BA"@[0]);
            assert("MT"@[0] != "CE"@[0]);
            assert("MT"@[0] != "DF"@[0]);
            assert("MT"@[0] != "ES"@[0]);
            assert("MT"@[0] != "GO"@[0]);
            assert("MT"@[1] != "MA"@[1]);
            assert("MT"@[1] != "MG"@[1]);
            assert("MT"@[1] != "MS"@[1]);
            assert(fallback_hsp_of(state_codes()[12]) == dec(hsp_table()[12], 2));
        } else if k == 13 {
            assert("PA"@[0] != "AC"@[0]);
            assert("PA"@[0] != "AL"@[0]);
            assert("PA"@[0] != "AM"@[0]);
            assert("PA"@[0] != "AP"@[0]);
            assert("PA"@[0] != "BA"@[0]);
            assert("PA"@[0] != "CE"@[0]);
            assert("PA"@[0] != "DF"@[0]);
            assert("PA"@[0] != "ES"@[0]);
            assert("PA"@[0] != "GO"@[0]);
            assert("PA"@[0] != "MA"@[0]);
            assert("PA"@[0] != "MG"@[0]);
            assert("PA"@[0] != "MS"@[0]);
            assert("PA"@[0] != "MT"@[0]);
            assert(fallback_hsp_of(state_codes()[13]) == dec(hsp_table()[13], 2));
        } else if k == 14 {
            assert("PB"@[0] != "AC"@[0]);
            assert("PB"@[0] != "AL"@[0]);
            assert("PB"@[0] != "AM"@[0]);
            assert("PB"@[0] != "AP"@[0]);
            assert("PB"@[0] != "BA"@[0]);
            assert("PB"@[0] != "CE"@[0]);
            assert("PB"@[0] != "DF"@[0]);
            assert("PB"@[0] != "ES"@[0]);
            assert("PB"@[0] != "GO"@[0]);
            assert("PB"@[0] != "MA"@[0]);
            assert("PB"@[0] != "MG"@[0]);
            assert("PB"@[0] != "MS"@[0]);
            assert("PB"@[0] != "MT"@[0]);
            assert("PB"@[1] != "PA"@[1]);
            assert(fallback_hsp_of(state_codes()[14]) == dec(hsp_table()[14], 2));
        } else if k == 15 {
            assert("PE"@[0] != "AC"@[0]);
            assert("PE"@[0] != "AL"@[0]);
            assert("PE"@[0] != "AM"@[0]);
            assert("PE"@[0] != "AP"@[0]);
            assert("PE"@[0] != "BA"@[0]);
            assert("PE"@[0] != "CE"@[0]);
            assert("PE"@[0] != "DF"@[0]);
            assert("PE"@[0] != "ES"@[0]);
            assert("PE"@[0] != "GO"@[0]);
            assert("PE"@[0] != "MA"@[0]);
            assert("PE"@[0] != "MG"@[0]);
            assert("PE"@[0] != "MS"@[0]);
            assert("PE"@[0] != "MT"@[0]);
            assert("PE"@[1] != "PA"@[1]);
            assert("PE"@[1] != "PB"@[1]);
            assert(fallback_hsp_of(state_codes()[15]) == dec(hsp_table()[15], 2));
        } else if k == 16 {
            assert("PI"@[0] != "AC"@[0]);
            assert("PI"@[0] != "AL"@[0]);
            assert("PI"@[0] != "AM"@[0]);
            assert("PI"@[0] != "AP"@[0]);
            assert("PI"@[0] != "BA"@[0]);
            assert("PI"@[0] != "CE"@[0]);
            assert("PI"@[0] != "DF"@[0]);
            assert("PI"@[0] != "ES"@[0]);
            assert("PI"@[0] != "GO"@[0]);
            assert("PI"@[0] != "MA"@[0]);
            assert("PI"@[0] != "MG"@[0]);
            assert("PI"@[0] != "MS"@[0]);
            assert("PI"@[0] != "MT"@[0]);
            assert("PI"@[1] != "PA"@[1]);
            assert("PI"@[1] != "PB"@[1]);
            assert("PI"@[1] != "PE"@[1]);
            assert(fallback_hsp_of(state_codes()[16]) == dec(hsp_table()[16], 2));
        } else if k == 17 {
            assert("PR"@[0] != "AC"@[0]);
            assert("PR"@[0] != "AL"@[0]);
            assert("PR"@[0] != "AM"@[0]);
            assert("PR"@[0] != "AP"@[0]);
            assert("PR"@[0] != "BA"@[0]);
            assert("PR"@[0] != "CE"@[0]);
            assert("PR"@[0] != "DF"@[0]);
            assert("PR"@[0] != "ES"@[0]);
            assert("PR"@[0] != "GO"@[0]);
            assert("PR"@[0] != "MA"@[0]);
            assert("PR"@[0] != "MG"@[0]);
            assert("PR"@[0] != "MS"@[0]);
            assert("PR"@[0] != "MT"@[0]);
            assert("PR"@[1] != "PA"@[1]);
            assert("PR"@[1] != "PB"@[1]);
            assert("PR"@[1] != "PE"@[1]);
            assert("PR"@[1] != "PI"@[1]);
            assert(fallback_hsp_of(state_codes()[17]) == dec(hsp_table()[17], 2));
        } else if k == 18 {
            assert("RJ"@[0] != "AC"@[0]);
            assert("RJ"@[0] != "AL"@[0]);
            assert("RJ"@[0] != "AM"@[0]);
            assert("RJ"@[0] != "AP"@[0]);
            assert("RJ"@[0] != "BA"@[0]);
            assert("RJ"@[0] != "CE"@[0]);
            assert("RJ"@[0] != "DF"@[0]);
            assert("RJ"@[0] != "ES"@[0]);
            assert("RJ"@[0] != "GO"@[0]);
            assert("RJ"@[0] != "MA"@[0]);
            assert("RJ"@[0] != "MG"@[0]);
            assert("RJ"@[0] != "MS"@[0]);
            assert("RJ"@[0] != "MT"@[0]);
            assert("RJ"@[0] != "PA"@[0]);
            assert("RJ"@[0] != "PB"@[0]);
            assert("RJ"@[0] != "PE"@[0]);
            assert("RJ"@[0] != "PI"@[0]);
            assert("RJ"@[0] != "PR"@[0]);
            assert(fallback_hsp_of(state_codes()[18]) == dec(hsp_table()[18], 2));
        } else if k == 19 {
            assert("RN"@[0] != "AC"@[0]);
            assert("RN"@[0] != "AL"@[0]);
            assert("RN"@[0] != "AM"@[0]);
            assert("RN"@[0] != "AP"@[0]);
            assert("RN"@[0] != "BA"@[0]);
            assert("RN"@[0] != "CE"@[0]);
            assert("RN"@[0] != "DF"@[0]);
            assert("RN"@[0] != "ES"@[0]);
            assert("RN"@[0] != "GO"@[0]);
            assert("RN"@[0] != "MA"@[0]);
            assert("RN"@[0] != "MG"@[0]);
            assert("RN"@[0] != "MS"@[0]);
            assert("RN"@[0] != "MT"@[0]);
            assert("RN"@[0] != "PA"@[0]);
            assert("RN"@[0] != "PB"@[0]);
            assert("RN"@[0] != "PE"@[0]);
            assert("RN"@[0] != "PI"@[0]);
            assert("RN"@[0] != "PR"@[0]);
            assert("RN"@[1] != "RJ"@[1]);
            assert(fallback_hsp_of(state_codes()[19]) == dec(hsp_table()[19], 2));
        } else if k == 20 {
            assert("RO"@[0] != "AC"@[0]);
            assert("RO"@[0] != "AL"@[0]);
            assert("RO"@[0] != "AM"@[0]);
            assert("RO"@[0] != "AP"@[0]);
            assert("RO"@[0] != "BA"@[0]);
            assert("RO"@[0] != "CE"@[0]);
            assert("RO"@[0] != "DF"@[0]);
            assert("RO"@[0] != "ES"@[0]);
            assert("RO"@[0] != "GO"@[0]);
            assert("RO"@[0] != "MA"@[0]);
            assert("RO"@[0] != "MG"@[0]);
            assert("RO"@[0] != "MS"@[0]);
            assert("RO"@[0] != "MT"@[0]);
            assert("RO"@[0] != "PA"@[0]);
            assert("RO"@[0] != "PB"@[0]);
            assert("RO"@[0] != "PE"@[0]);
            assert("RO"@[0] != "PI"@[0]);
            assert("RO"@[0] != "PR"@[0]);
            assert("RO"@[1] != "RJ"@[1]);
            assert("RO"@[1] != "RN"@[1]);
            assert(fallback_hsp_of(state_codes()[20]) == dec(hsp_table()[20], 2));
        } else if k == 21 {
            assert("RR"@[0] != "AC"@[0]);
            assert("RR"@[0] != "AL"@[0]);
            assert("RR"@[0] != "AM"@[0]);
            assert("RR"@[0] != "AP"@[0]);
            assert("RR"@[0] != "BA"@[0]);
            assert("RR"@[0] != "CE"@[0]);
            assert("RR"@[0] != "DF"@[0]);
            assert("RR"@[0] != "ES"@[0]);
            assert("RR"@[0] != "GO"@[0]);
            assert("RR"@[0] != "MA"@[0]);
            assert("RR"@[0] != "MG"@[0]);
            assert("RR"@[0] != "MS"@[0]);
            assert("RR"@[0] != "MT"@[0]);
            assert("RR"@[0] != "PA"@[0]);
            assert("RR"@[0] != "PB"@[0]);
            assert("RR"@[0] != "PE"@[0]);
            assert("RR"@[0] != "PI"@[0]);
            assert("RR"@[0] != "PR"@[0]);
            assert("RR"@[1] != "RJ"@[1]);
            assert("RR"@[1] != "RN"@[1]);
            assert("RR"@[1] != "RO"@[1]);
            assert(fallback_hsp_of(state_codes()[21]) == dec(hsp_table()[21], 2));
        } else if k == 22 {
            assert("RS"@[0] != "AC"@[0]);
            assert("RS"@[0] != "AL"@[0]);
            assert("RS"@[0] != "AM"@[0]);
            assert("RS"@[0] != "AP"@[0]);
            assert("RS"@[0] != "BA"@[0]);
            assert("RS"@[0] != "CE"@[0]);
            assert("RS"@[0] != "DF"@[0]);
            assert("RS"@[0] != "ES"@[0]);
            assert("RS"@[0] != "GO"@[0]);
            assert("RS"@[0] != "MA"@[0]);
            assert("RS"@[0] != "MG"@[0]);
            assert("RS"@[0] != "MS"@[0]);
            assert("RS"@[0] != "MT"@[0]);
            assert("RS"@[0] != "PA"@[0]);
            assert("RS"@[0] != "PB"@[0]);
            assert("RS"@[0] != "PE"@[0]);
            assert("RS"@[0] != "PI"@[0]);
            assert("RS"@[0] != "PR"@[0]);
            assert("RS"@[1] != "RJ"@[1]);
            assert("RS"@[1] != "RN"@[1]);
            assert("RS"@[1] != "RO"@[1]);
            assert("RS"@[1] != "RR"@[1]);
            assert(fallback_hsp_of(state_codes()[22]) == dec(hsp_table()[22], 2));
        } else if k == 23 {
            assert("SC"@[0] != "AC"@[0]);
            assert("SC"@[0] != "AL"@[0]);
            assert("SC"@[0] != "AM"@[0]);
            assert("SC"@[0] != "AP"@[0]);
            assert("SC"@[0] != "BA"@[0]);
            assert("SC"@[0] != "CE"@[0]);
            assert("SC"@[0] != "DF"@[0]);
            assert("SC"@[0] != "ES"@[0]);
            assert("SC"@[0] != "GO"@[0]);
            assert("SC"@[0] != "MA"@[0]);
            assert("SC"@[0] != "MG"@[0]);
            assert("SC"@[0] != "MS"@[0]);
            assert("SC"@[0] != "MT"@[0]);
            assert("SC"@[0] != "PA"@[0]);
            assert("SC"@[0] != "PB"@[0]);
            assert("SC"@[0] != "PE"@[0]);
            assert("SC"@[0] != "PI"@[0]);
            assert("SC"@[0] != "PR"@[0]);
            assert("SC"@[0] != "RJ"@[0]);
            assert("SC"@[0] != "RN"@[0]);
            assert("SC"@[0] != "RO"@[0]);
            assert("SC"@[0] != "RR"@[0]);
            assert("SC"@[0] != "RS"@[0]);
            assert(fallback_hsp_of(state_codes()[23]) == dec(hsp_table()[23], 2));
        } else if k == 24 {
            assert("SE"@[0] != "AC"@[0]);
            assert("SE"@[0] != "AL"@[0]);
            assert("SE"@[0] != "AM"@[0]);
            assert("SE"@[0] != "AP"@[0]);
            assert("SE"@[0] != "BA"@[0]);
            assert("SE"@[0] != "CE"@[0]);
            assert("SE"@[0] != "DF"@[0]);
            assert("SE"@[0] != "ES"@[0]);
            assert("SE"@[0] != "GO"@[0]);
            assert("SE"@[0] != "MA"@[0]);
            assert("SE"@[0] != "MG"@[0]);
            assert("SE"@[0] != "MS"@[0]);
            assert("SE"@[0] != "MT"@[0]);
            assert("SE"@[0] != "PA"@[0]);
            assert("SE"@[0] != "PB"@[0]);
            assert("SE"@[0] != "PE"@[0]);
            assert("SE"@[0] != "PI"@[0]);
            assert("SE"@[0] != "PR"@[0]);
            assert("SE"@[0] != "RJ"@[0]);
            assert("SE"@[0] != "RN"@[0]);
            assert("SE"@[0] != "RO"@[0]);
            assert("SE"@[0] != "RR"@[0]);
            assert("SE"@[0] != "RS"@[0]);
            assert("SE"@[1] != "SC"@[1]);
            assert(fallback_hsp_of(state_codes()[24]) == dec(hsp_table()[24], 2));
        } else if k == 25 {
            assert("SP"@[0] != "AC"@[0]);
            assert("SP"@[0] != "AL"@[0]);
            assert("SP"@[0] != "AM"@[0]);
            assert("SP"@[0] != "AP"@[0]);
            assert("SP"@[0] != "BA"@[0]);
            assert("SP"@[0] != "CE"@[0]);
            assert("SP"@[0] != "DF"@[0]);
            assert("SP"@[0] != "ES"@[0]);
            assert("SP"@[0] != "GO"@[0]);
            assert("SP"@[0] != "MA"@[0]);
            assert("SP"@[0] != "MG"@[0]);
            assert("SP"@[0] != "MS"@[0]);
            assert("SP"@[0] != "MT"@[0]);
            assert("SP"@[0] != "PA"@[0]);
            assert("SP"@[0] != "PB"@[0]);
            assert("SP"@[0] != "PE"@[0]);
            assert("SP"@[0] != "PI"@[0]);
            assert("SP"@[0] != "PR"@[0]);
            assert("SP"@[0] != "RJ"@[0]);
            assert("SP"@[0] != "RN"@[0]);
            assert("SP"@[0] != "RO"@[0]);
            assert("SP"@[0] != "RR"@[0]);
            assert("SP"@[0] != "RS"@[0]);
            assert("SP"@[1] != "SC"@[1]);
            assert("SP"@[1] != "SE"@[1]);
            assert(fallback_hsp_of(state_codes()[25]) == dec(hsp_table()[25], 2));
        } else if k == 26 {
            assert("TO"@[0] != "AC"@[0]);
            assert("TO"@[0] != "AL"@[0]);
            assert("TO"@[0] != "AM"@[0]);
            assert("TO"@[0] != "AP"@[0]);
            assert("TO"@[0] != "BA"@[0]);
            assert("TO"@[0] != "CE"@[0]);
            assert("TO"@[0] != "DF"@[0]);
            assert("TO"@[0] != "ES"@[0]);
            assert("TO"@[0] != "GO"@[0]);
            assert("TO"@[0] != "MA"@[0]);
            assert("TO"@[0] != "MG"@[0]);
            assert("TO"@[0] != "MS"@[0]);
            assert("TO"@[0] != "MT"@[0]);
            assert("TO"@[0] != "PA"@[0]);
            assert("TO"@[0] != "PB"@[0]);
            assert("TO"@[0] != "PE"@[0]);
            assert("TO"@[0] != "PI"@[0]);
            assert("TO"@[0] != "PR"@[0]);
            assert("TO"@[0] != "RJ"@[0]);
            assert("TO"@[0] != "RN"@[0]);
            assert("TO"@[0] != "RO"@[0]);
            assert("TO"@[0] != "RR"@[0]);
            assert("TO"@[0] != "RS"@[0]);
            assert("TO"@[0] != "SC"@[0]);
            assert("TO"@[0] != "SE"@[0]);
            assert("TO"@[0] != "SP"@[0]);
            assert(fallback_hsp_of(state_codes()[26]) == dec(hsp_table()[26], 2));
        }
    }
    if !state_codes().contains(state) {
        assert(state != "AC"@) by {
            if state == "AC"@ {
                assert(state_codes()[0] == state);
            }
        }
        assert(state != "AL"@) by {
            if state == "AL"@ {
                assert(state_codes()[1] == state);
            }
        }
        assert(state != "AM"@) by {
            if state == "AM"@ {
                assert(state_codes()[2] == state);
            }
        }
        assert(state != "AP"@) by {
            if state == "AP"@ {
                assert(state_codes()[3] == state);
            }
        }
        assert(state != "BA"@) by {
            if state == "BA"@ {
                assert(state_codes()[4] == state);
            }
        }
        assert(state != "CE"@) by {
            if state == "CE"@ {
                assert(state_codes()[5] == state);
            }
        }
        assert(state != "DF"@) by {
            if state == "DF"@ {
                assert(state_codes()[6] == state);
            }
        }
        assert(state != "ES"@) by {
            if state == "ES"@ {
                assert(state_codes()[7] == state);
            }
        }
        assert(state != "GO"@) by {
            if state == "GO"@ {
                assert(state_codes()[8] == state);
            }
        }
        assert(state != "MA"@) by {
            if state == "MA"@ {
                assert(state_codes()[9] == state);
            }
        }
        assert(state != "MG"@) by {
            if state == "MG"@ {
                assert(state_codes()[10] == state);
            }
        }
        assert(state != "MS"@) by {
            if state == "MS"@ {
                assert(state_codes()[11] == state);
            }
        }
        assert(state != "MT"@) by {
            if state == "MT"@ {
                assert(state_codes()[12] == state);
            }
        }
        assert(state != "PA"@) by {
            if state == "PA"@ {
                assert(state_codes()[13] == state);
            }
        }
        assert(state != "PB"@) by {
            if state == "PB"@ {
                assert(state_codes()[14] == state);
            }
        }
        assert(state != "PE"@) by {
            if state == "PE"@ {
                assert(state_codes()[15] == state);
            }
        }
        assert(state != "PI"@) by {
            if state == "PI"@ {
                assert(state_codes()[16] == state);
            }
        }
        assert(state != "PR"@) by {
            if state == "PR"@ {
                assert(state_codes()[17] == state);
            }
        }
        assert(state != "RJ"@) by {
            if state == "RJ"@ {
                assert(state_codes()[18] == state);
            }
        }
        assert(state != "RN"@) by {
            if state == "RN"@ {
                assert(state_codes()[19] == state);
            }
        }
        assert(state != "RO"@) by {
            if state == "RO"@ {
                assert(state_codes()[20] == state);
            }
        }
        assert(state != "RR"@) by {
            if state == "RR"@ {
                assert(state_codes()[21] == state);
            }
        }
        assert(state != "RS"@) by {
            if state == "RS"@ {
                assert(state_codes()[22] == state);
            }
        }
        assert(state != "SC"@) by {
            if state == "SC"@ {
                assert(state_codes()[23] == state);
            }
        }
        assert(state != "SE"@) by {
            if state == "SE"@ {
                assert(state_codes()[24] == state);
            }
        }
        assert(state != "SP"@) by {
            if state == "SP"@ {
                assert(state_codes()[25] == state);
            }
        }
        assert(state != "TO"@) by {
            if state == "TO"@ {
                assert(state_codes()[26] == state);
            }
        }
    }
}

/// Each state code gets its own reference coordinates from the table, and any text that is
/// not a state code gets the Federal District's.
pub proof fn lemma_coordinates_table(state: Seq<char>)
    ensures
        coordinate_table().len() == 27,
        forall|k: int| 0 <= k < 27 ==> #[trigger] coordinates_of(state_codes()[k]) == coordinate_table()[k],
        !state_codes().contains(state) ==> coordinates_of(state) == (-1578int, -4793int),
{
    reveal_strlit("AC");
    reveal_strlit("AL");
    reveal_strlit("AM");
    reveal_strlit("AP");
    reveal_strlit("BA");
    reveal_strlit("CE");
    reveal_strlit("DF");
    reveal_strlit("ES");
    reveal_strlit("GO");
    reveal_strlit("MA");
    reveal_strlit("MG");
    reveal_strlit("MS");
    reveal_strlit("MT");
    reveal_strlit("PA");
    reveal_strlit("PB");
    reveal_strlit("PE");
    reveal_strlit("PI");
    reveal_strlit("PR");
    reveal_strlit("RJ");
    reveal_strlit("RN");
    reveal_strlit("RO");
    reveal_strlit("RR");
    reveal_strlit("RS");
    reveal_strlit("SC");
    reveal_strlit("SE");
    reveal_strlit("SP");
    reveal_strlit("TO");
    assert forall|k: int| 0 <= k < 27 implies #[trigger] coordinates_of(state_codes()[k]) == coordinate_table()[k] by {
        if k == 0 {
            assert(coordinates_of(state_codes()[0]) == coordinate_table()[0]);
        } else if k == 1 {
            assert("AL"@[1] != "AC"@[1]);
            assert(coordinates_of(state_codes()[1]) == coordinate_table()[1]);
        } else if k == 2 {
            assert("AM"@[1] != "AC"@[1]);
            assert("AM"@[1] != "AL"@[1]);
            assert(coordinates_of(state_codes()[2]) == coordinate_table()[2]);
        } else if k == 3 {
            assert("AP"@[1] != "AC"@[1]);
            assert("AP"@[1] != "AL"@[1]);
            assert("AP"@[1] != "AM"@[1]);
            assert(coordinates_of(state_codes()[3]) == coordinate_table()[3]);
        } else if k == 4 {
            assert("BA"@[0] != "AC"@[0]);
            assert("BA"@[0] != "AL"@[0]);
            assert("BA"@[0] != "AM"@[0]);
            assert("BA"@[0] != "AP"@[0]);
            assert(coordinates_of(state_codes()[4]) == coordinate_table()[4]);
        } else if k == 5 {
            assert("CE"@[0] != "AC"@[0]);
            assert("CE"@[0] != "AL"@[0]);
            assert("CE"@[0] != "AM"@[0]);
            assert("CE"@[0] != "AP"@[0]);
            assert("CE"@[0] != "BA"@[0]);
            assert(coordinates_of(state_codes()[5]) == coordinate_table()[5]);
        } else if k == 6 {
            assert("DF"@[0] != "AC"@[0]);
            assert("DF"@[0] != "AL"@[0]);
            assert("DF"@[0] != "AM"@[0]);
            assert("DF"@[0] != "AP"@[0]);
            assert("DF"@[0] != "BA"@[0]);
            assert("DF"@[0] != "CE"@[0]);
            assert(coordinates_of(state_codes()[6]) == coordinate_table()[6]);
        } else if k == 7 {
            assert("ES"@[0] != "AC"@[0]);
            assert("ES"@[0] != "AL"@[0]);
            assert("ES"@[0] != "AM"@[0]);
            assert("ES"@[0] != "AP"@[0]);
            assert("ES"@[0] != "BA"@[0]);
            assert("ES"@[0] != "CE"@[0]);
            assert("ES"@[0] != "DF"@[0]);
            assert(coordinates_of(state_codes()[7]) == coordinate_table()[7]);
        } else if k == 8 {
            assert("GO"@[0] != "AC"@[0]);
            assert("GO"@[0] != "AL"@[0]);
            assert("GO"@[0] != "AM"@[0]);
            assert("GO"@[0] != "AP"@[0]);
            assert("GO"@[0] != "BA"@[0]);
            assert("GO"@[0] != "CE"@[0]);
            assert("GO"@[0] != "DF"@[0]);
            assert("GO"@[0] != "ES"@[0]);
            assert(coordinates_of(state_codes()[8]) == coordinate_table()[8]);
        } else if k == 9 {
            assert("MA"@[0] != "AC"@[0]);
            assert("MA"@[0] != "AL"@[0]);
            assert("MA"@[0] != "AM"@[0]);
            assert("MA"@[0] != "AP"@[0]);
            assert("MA"@[0] != "BA"@[0]);
            assert("MA"@[0] != "CE"@[0]);
            assert("MA"@[0] != "DF"@[0]);
            assert("MA"@[0] != "ES"@[0]);
            assert("MA"@[0] != "GO"@[0]);
            assert(coordinates_of(state_codes()[9]) == coordinate_table()[9]);
        } else if k == 10 {
            assert("MG"@[0] != "AC"@[0]);
            assert("MG"@[0] != "AL"@[0]);
            assert("MG"@[0] != "AM"@[0]);
            assert("MG"@[0] != "AP"@[0]);
            assert("MG"@[0] != "BA"@[0]);
            assert("MG"@[0] != "CE"@[0]);
            assert("MG"@[0] != "DF"@[0]);
            assert("MG"@[0] != "ES"@[0]);
            assert("MG"@[0] != "GO"@[0]);
            assert("MG"@[1] != "MA"@[1]);
            assert(coordinates_of(state_codes()[10]) == coordinate_table()[10]);
        } else if k == 11 {
            assert("MS"@[0] != "AC"@[0]);
            assert("MS"@[0] != "AL"@[0]);
            assert("MS"@[0] != "AM"@[0]);
            assert("MS"@[0] != "AP"@[0]);
            assert("MS"@[0] != "BA"@[0]);
            assert("MS"@[0] != "CE"@[0]);
            assert("MS"@[0] != "DF"@[0]);
            assert("MS"@[0] != "ES"@[0]);
            assert("MS"@[0] != "GO"@[0]);
            assert("MS"@[1] != "MA"@[1]);
            assert("MS"@[1] != "MG"@[1]);
            assert(coordinates_of(state_codes()[11]) == coordinate_table()[11]);
        } else if k == 12 {
            assert("MT"@[0] != "AC"@[0]);
            assert("MT"@[0] != "AL"@[0]);
            assert("MT"@[0] != "AM"@[0]);
            assert("MT"@[0] != "AP"@[0]);
            assert("MT"@[0] != "BA"@[0]);
            assert("MT"@[0] != "CE"@[0]);
            assert("MT"@[0] != "DF"@[0]);
            assert("MT"@[0] != "ES"@[0]);
            assert("MT"@[0] != "GO"@[0]);
            assert("MT"@[1] != "MA"@[1]);
            assert("MT"@[1] != "MG"@[1]);
            assert("MT"@[1] != "MS"@[1]);
            assert(coordinates_of(state_codes()[12]) == coordinate_table()[12]);
        } else if k == 13 {
            assert("PA"@[0] != "AC"@[0]);
            assert("PA"@[0] != "AL"@[0]);
            assert("PA"@[0] != "AM"@[0]);
            assert("PA"@[0] != "AP"@[0]);
            assert("PA"@[0] != "BA"@[0]);
            assert("PA"@[0] != "CE"@[0]);
            assert("PA"@[0] != "DF"@[0]);
            assert("PA"@[0] != "ES"@[0]);
            assert("PA"@[0] != "GO"@[0]);
            assert("PA"@[0] != "MA"@[0]);
            assert("PA"@[0] != "MG"@[0]);
            assert("PA"@[0] != "MS"@[0]);
            assert("PA"@[0] != "MT"@[0]);
            assert(coordinates_of(state_codes()[13]) == coordinate_table()[13]);
        } else if k == 14 {
            assert("PB"@[0] != "AC"@[0]);
            assert("PB"@[0] != "AL"@[0]);
            assert("PB"@[0] != "AM"@[0]);
            assert("PB"@[0] != "AP"@[0]);
            assert("PB"@[0] != "BA"@[0]);
            assert("PB"@[0] != "CE"@[0]);
            assert("PB"@[0] != "DF"@[0]);
            assert("PB"@[0] != "ES"@[0]);
            assert("PB"@[0] != "GO"@[0]);
            assert("PB"@[0] != "MA"@[0]);
            assert("PB"@[0] != "MG"@[0]);
            assert("PB"@[0] != "MS"@[0]);
            assert("PB"@[0] != "MT"@[0]);
            assert("PB"@[1] != "PA"@[1]);
            assert(coordinates_of(state_codes()[14]) == coordinate_table()[14]);
        } else if k == 15 {
            assert("PE"@[0] != "AC"@[0]);
            assert("PE"@[0] != "AL"@[0]);
            assert("PE"@[0] != "AM"@[0]);
            assert("PE"@[0] != "AP"@[0]);
            assert("PE"@[0] != "BA"@[0]);
            assert("PE"@[0] != "CE"@[0]);
            assert("PE"@[0] != "DF"@[0]);
            assert("PE"@[0] != "ES"@[0]);
            assert("PE"@[0] != "GO"@[0]);
            assert("PE"@[0] != "MA"@[0]);
            assert("PE"@[0] != "MG"@[0]);
            assert("PE"@[0] != "MS"@[0]);
            assert("PE"@[0] != "MT"@[0]);
            assert("PE"@[1] != "PA"@[1]);
            assert("PE"@[1] != "PB"@[1]);
            assert(coordinates_of(state_codes()[15]) == coordinate_table()[15]);
        } else if k == 16 {
            assert("PI"@[0] != "AC"@[0]);
            assert("PI"@[0] != "AL"@[0]);
            assert("PI"@[0] != "AM"@[0]);
            assert("PI"@[0] != "AP"@[0]);
            assert("PI"@[0] != "BA"@[0]);
            assert("PI"@[0] != "CE"@[0]);
            assert("PI"@[0] != "DF"@[0]);
            assert("PI"@[0] != "ES"@[0]);
            assert("PI"@[0] != "GO"@[0]);
            assert("PI"@[0] != "MA"@[0]);
            assert("PI"@[0] != "MG"@[0]);
            assert("PI"@[0] != "MS"@[0]);
            assert("PI"@[0] != "MT"@[0]);
            assert("PI"@[1] != "PA"@[1]);
            assert("PI"@[1] != "PB"@[1]);
            assert("PI"@[1] != "PE"@[1]);
            assert(coordinates_of(state_codes()[16]) == coordinate_table()[16]);
        } else if k == 17 {
            assert("PR"@[0] != "AC"@[0]);
            assert("PR"@[0] != "AL"@[0]);
            assert("PR"@[0] != "AM"@[0]);
            assert("PR"@[0] != "AP"@[0]);
            assert("PR"@[0] != "BA"@[0]);
            assert("PR"@[0] != "CE"@[0]);
            assert("PR"@[0] != "DF"@[0]);
            assert("PR"@[0] != "ES"@[0]);
            assert("PR"@[0] != "GO"@[0]);
            assert("PR"@[0] != "MA"@[0]);
            assert("PR"@[0] != "MG"@[0]);
            assert("PR"@[0] != "MS"@[0]);
            assert("PR"@[0] != "MT"@[0]);
            assert("PR"@[1] != "PA"@[1]);
            assert("PR"@[1] != "PB"@[1]);
            assert("PR"@[1] != "PE"@[1]);
            assert("PR"@[1] != "PI"@[1]);
            assert(coordinates_of(state_codes()[17]) == coordinate_table()[17]);
        } else if k == 18 {
            assert("RJ"@[0] != "AC"@[0]);
            assert("RJ"@[0] != "AL"@[0]);
            assert("RJ"@[0] != "AM"@[0]);
            assert("RJ"@[0] != "AP"@[0]);
            assert("RJ"@[0] != "BA"@[0]);
            assert("RJ"@[0] != "CE"@[0]);
            assert("RJ"@[0] != "DF"@[0]);
            assert("RJ"@[0] != "ES"@[0]);
            assert("RJ"@[0] != "GO"@[0]);
            assert("RJ"@[0] != "MA"@[0]);
            assert("RJ"@[0] != "MG"@[0]);
            assert("RJ"@[0] != "MS"@[0]);
            assert("RJ"@[0] != "MT"@[0]);
            assert("RJ"@[0] != "PA"@[0]);
            assert("RJ"@[0] != "PB"@[0]);
            assert("RJ"@[0] != "PE"@[0]);
            assert("RJ"@[0] != "PI"@[0]);
            assert("RJ"@[0] != "PR"@[0]);
            assert(coordinates_of(state_codes()[18]) == coordinate_table()[18]);
        } else if k == 19 {
            assert("RN"@[0] != "AC"@[0]);
            assert("RN"@[0] != "AL"@[0]);
            assert("RN"@[0] != "AM"@[0]);
            assert("RN"@[0] != "AP"@[0]);
            assert("RN"@[0] != "BA"@[0]);
            assert("RN"@[0] != "CE"@[0]);
            assert("RN"@[0] != "DF"@[0]);
            assert("RN"@[0] != "ES"@[0]);
            assert("RN"@[0] != "GO"@[0]);
            assert("RN"@[0] != "MA"@[0]);
            assert("RN"@[0] != "MG"@[0]);
            assert("RN"@[0] != "MS"@[0]);
            assert("RN"@[0] != "MT"@[0]);
            assert("RN"@[0] != "PA"@[0]);
            assert("RN"@[0] != "PB"@[0]);
            assert("RN"@[0] != "PE"@[0]);
            assert("RN"@[0] != "PI"@[0]);
            assert("RN"@[0] != "PR"@[0]);
            assert("RN"@[1] != "RJ"@[1]);
            assert(coordinates_of(state_codes()[19]) == coordinate_table()[19]);
        } else if k == 20 {
            assert("RO"@[0] != "AC"@[0]);
            assert("RO"@[0] != "AL"@[0]);
            assert("RO"@[0] != "AM"@[0]);
            assert("RO"@[0] != "AP"@[0]);
            assert("RO"@[0] != "BA"@[0]);
            assert("RO"@[0] != "CE"@[0]);
            assert("RO"@[0] != "DF"@[0]);
            assert("RO"@[0] != "ES"@[0]);
            assert("RO"@[0] != "GO"@[0]);
            assert("RO"@[0] != "MA"@[0]);
            assert("RO"@[0] != "MG"@[0]);
            assert("RO"@[0] != "MS"@[0]);
            assert("RO"@[0] != "MT"@[0]);
            assert("RO"@[0] != "PA"@[0]);
            assert("RO"@[0] != "PB"@[0]);
            assert("RO"@[0] != "PE"@[0]);
            assert("RO"@[0] != "PI"@[0]);
            assert("RO"@[0] != "PR"@[0]);
            assert("RO"@[1] != "RJ"@[1]);
            assert("RO"@[1] != "RN"@[1]);
            assert(coordinates_of(state_codes()[20]) == coordinate_table()[20]);
        } else if k == 21 {
            assert("RR"@[0] != "AC"@[0]);
            assert("RR"@[0] != "AL"@[0]);
            assert("RR"@[0] != "AM"@[0]);
            assert("RR"@[0] != "AP"@[0]);
            assert("RR"@[0] != "BA"@[0]);
            assert("RR"@[0] != "CE"@[0]);
            assert("RR"@[0] != "DF"@[0]);
            assert("RR"@[0] != "ES"@[0]);
            assert("RR"@[0] != "GO"@[0]);
            assert("RR"@[0] != "MA"@[0]);
            assert("RR"@[0] != "MG"@[0]);
            assert("RR"@[0] != "MS"@[0]);
            assert("RR"@[0] != "MT"@[0]);
            assert("RR"@[0] != "PA"@[0]);
            assert("RR"@[0] != "PB"@[0]);
            assert("RR"@[0] != "PE"@[0]);
            assert("RR"@[0] != "PI"@[0]);
            assert("RR"@[0] != "PR"@[0]);
            assert("RR"@[1] != "RJ"@[1]);
            assert("RR"@[1] != "RN"@[1]);
            assert("RR"@[1] != "RO"@[1]);
            assert(coordinates_of(state_codes()[21]) == coordinate_table()[21]);
        } else if k == 22 {
            assert("RS"@[0] != "AC"@[0]);
            assert("RS"@[0] != "AL"@[0]);
            assert("RS"@[0] != "AM"@[0]);
            assert("RS"@[0] != "AP"@[0]);
            assert("RS"@[0] != "BA"@[0]);
            assert("RS"@[0] != "CE"@[0]);
            assert("RS"@[0] != "DF"@[0]);
            assert("RS"@[0] != "ES"@[0]);
            assert("RS"@[0] != "GO"@[0]);
            assert("RS"@[0] != "MA"@[0]);
            assert("RS"@[0] != "MG"@[0]);
            assert("RS"@[0] != "MS"@[0]);
            assert("RS"@[0] != "MT"@[0]);
            assert("RS"@[0] != "PA"@[0]);
            assert("RS"@[0] != "PB"@[0]);
            assert("RS"@[0] != "PE"@[0]);
            assert("RS"@[0] != "PI"@[0]);
            assert("RS"@[0] != "PR"@[0]);
            assert("RS"@[1] != "RJ"@[1]);
            assert("RS"@[1] != "RN"@[1]);
            assert("RS"@[1] != "RO"@[1]);
            assert("RS"@[1] != "RR"@[1]);
            assert(coordinates_of(state_codes()[22]) == coordinate_table()[22]);
        } else if k == 23 {
            assert("SC"@[0] != "AC"@[0]);
            assert("SC"@[0] != "AL"@[0]);
            assert("SC"@[0] != "AM"@[0]);
            assert("SC"@[0] != "AP"@[0]);
            assert("SC"@[0] != "BA"@[0]);
            assert("SC"@[0] != "CE"@[0]);
            assert("SC"@[0] != "DF"@[0]);
            assert("SC"@[0] != "ES"@[0]);
            assert("SC"@[0] != "GO"@[0]);
            assert("SC"@[0] != "MA"@[0]);
            assert("SC"@[0] != "MG"@[0]);
            assert("SC"@[0] != "MS"@[0]);
            assert("SC"@[0] != "MT"@[0]);
            assert("SC"@[0] != "PA"@[0]);
            assert("SC"@[0] != "PB"@[0]);
            assert("SC"@[0] != "PE"@[0]);
            assert("SC"@[0] != "PI"@[0]);
            assert("SC"@[0] != "PR"@[0]);
            assert("SC"@[0] != "RJ"@[0]);
            assert("SC"@[0] != "RN"@[0]);
            assert("SC"@[0] != "RO"@[0]);
            assert("SC"@[0] != "RR"@[0]);
            assert("SC"@[0] != "RS"@[0]);
            assert(coordinates_of(state_codes()[23]) == coordinate_table()[23]);
        } else if k == 24 {
            assert("SE"@[0] != "AC"@[0]);
            assert("SE"@[0] != "AL"@[0]);
            assert("SE"@[0] != "AM"@[0]);
            assert("SE"@[0] != "AP"@[0]);
            assert("SE"@[0] != "BA"@[0]);
            assert("SE"@[0] != "CE"@[0]);
            assert("SE"@[0] != "DF"@[0]);
            assert("SE"@[0] != "ES"@[0]);
            assert("SE"@[0] != "GO"@[0]);
            assert("SE"@[0] != "MA"@[0]);
            assert("SE"@[0] != "MG"@[0]);
            assert("SE"@[0] != "MS"@[0]);
            assert("SE"@[0] != "MT"@[0]);
            assert("SE"@[0] != "PA"@[0]);
            assert("SE"@[0] != "PB"@[0]);
            assert("SE"@[0] != "PE"@[0]);
            assert("SE"@[0] != "PI"@[0]);
            assert("SE"@[0] != "PR"@[0]);
            assert("SE"@[0] != "RJ"@[0]);
            assert("SE"@[0] != "RN"@[0]);
            assert("SE"@[0] != "RO"@[0]);
            assert("SE"@[0] != "RR"@[0]);
            assert("SE"@[0] != "RS"@[0]);
            assert("SE"@[1] != "SC"@[1]);
            assert(coordinates_of(state_codes()[24]) == coordinate_table()[24]);
        } else if k == 25 {
            assert("SP"@[0] != "AC"@[0]);
            assert("SP"@[0] != "AL"@[0]);
            assert("SP"@[0] != "AM"@[0]);
            assert("SP"@[0] != "AP"@[0]);
            assert("SP"@[0] != "BA"@[0]);
            assert("SP"@[0] != "CE"@[0]);
            assert("SP"@[0] != "DF"@[0]);
            assert("SP"@[0] != "ES"@[0]);
            assert("SP"@[0] != "GO"@[0]);
            assert("SP"@[0] != "MA"@[0]);
            assert("SP"@[0] != "MG"@[0]);
            assert("SP"@[0] != "MS"@[0]);
            assert("SP"@[0] != "MT"@[0]);
            assert("SP"@[0] != "PA"@[0]);
            assert("SP"@[0] != "PB"@[0]);
            assert("SP"@[0] != "PE"@[0]);
            assert("SP"@[0] != "PI"@[0]);
            assert("SP"@[0] != "PR"@[0]);
            assert("SP"@[0] != "RJ"@[0]);
            assert("SP"@[0] != "RN"@[0]);
            assert("SP"@[0] != "RO"@[0]);
            assert("SP"@[0] != "RR"@[0]);
            assert("SP"@[0] != "RS"@[0]);
            assert("SP"@[1] != "SC"@[1]);
            assert("SP"@[1] != "SE"@[1]);
            assert(coordinates_of(state_codes()[25]) == coordinate_table()[25]);
        } else if k == 26 {
            assert("TO"@[0] != "AC"@[0]);
            assert("TO"@[0] != "AL"@[0]);
            assert("TO"@[0] != "AM"@[0]);
            assert("TO"@[0] != "AP"@[0]);
            assert("TO"@[0] != "BA"@[0]);
            assert("TO"@[0] != "CE"@[0]);
            assert("TO"@[0] != "DF"@[0]);
            assert("TO"@[0] != "ES"@[0]);
            assert("TO"@[0] != "GO"@[0]);
            assert("TO"@[0] != "MA"@[0]);
            assert("TO"@[0] != "MG"@[0]);
            assert("TO"@[0] != "MS"@[0]);
            assert("TO"@[0] != "MT"@[0]);
            assert("TO"@[0] != "PA"@[0]);
            assert("TO"@[0] != "PB"@[0]);
            assert("TO"@[0] != "PE"@[0]);
            assert("TO"@[0] != "PI"@[0]);
            assert("TO"@[0] != "PR"@[0]);
            assert("TO"@[0] != "RJ"@[0]);
            assert("TO"@[0] != "RN"@[0]);
            assert("TO"@[0] != "RO"@[0]);
            assert("TO"@[0] != "RR"@[0]);
            assert("TO"@[0] != "RS"@[0]);
            assert("TO"@[0] != "SC"@[0]);
            assert("TO"@[0] != "SE"@[0]);
            assert("TO"@[0] != "SP"@[0]);
            assert(coordinates_of(state_codes()[26]) == coordinate_table()[26]);
        }
    }
    if !state_codes().contains(state) {
        assert(state != "AC"@) by {
            if state == "AC"@ {
                assert(state_codes()[0] == state);
            }
        }
        assert(state != "AL"@) by {
            if state == "AL"@ {
                assert(state_codes()[1] == state);
            }
        }
        assert(state != "AM"@) by {
            if state == "AM"@ {
                assert(state_codes()[2] == state);
            }
        }
        assert(state != "AP"@) by {
            if state == "AP"@ {
                assert(state_codes()[3] == state);
            }
        }
        assert(state != "BA"@) by {
            if state == "BA"@ {
                assert(state_codes()[4] == state);
            }
        }
        assert(state != "CE"@) by {
            if state == "CE"@ {
                assert(state_codes()[5] == state);
            }
        }
        assert(state != "DF"@) by {
            if state == "DF"@ {
                assert(state_codes()[6] == state);
            }
        }
        assert(state != "ES"@) by {
            if state == "ES"@ {
                assert(state_codes()[7] == state);
            }
        }
        assert(state != "GO"@) by {
            if state == "GO"@ {
                assert(state_codes()[8] == state);
            }
        }
        assert(state != "MA"@) by {
            if state == "MA"@ {
                assert(state_codes()[9] == state);
            }
        }
        assert(state != "MG"@) by {
            if state == "MG"@ {
                assert(state_codes()[10] == state);
            }
        }
        assert(state != "MS"@) by {
            if state == "MS"@ {
                assert(state_codes()[11] == state);
            }
        }
        assert(state != "MT"@) by {
            if state == "MT"@ {
                assert(state_codes()[12] == state);
            }
        }
        assert(state != "PA"@) by {
            if state == "PA"@ {
                assert(state_codes()[13] == state);
            }
        }
        assert(state != "PB"@) by {
            if state == "PB"@ {
                assert(state_codes()[14] == state);
            }
        }
        assert(state != "PE"@) by {
            if state == "PE"@ {
                assert(state_codes()[15] == state);
            }
        }
        assert(state != "PI"@) by {
            if state == "PI"@ {
                assert(state_codes()[16] == state);
            }
        }
        assert(state != "PR"@) by {
            if state == "PR"@ {
                assert(state_codes()[17] == state);
            }
        }
        assert(state != "RJ"@) by {
            if state == "RJ"@ {
                assert(state_codes()[18] == state);
            }
        }
        assert(state != "RN"@) by {
            if state == "RN"@ {
                assert(state_codes()[19] == state);
            }
        }
        assert(state != "RO"@) by {
            if state == "RO"@ {
                assert(state_codes()[20] == state);
            }
        }
        assert(state != "RR"@) by {
            if state == "RR"@ {
                assert(state_codes()[21] == state);
            }
        }
        assert(state != "RS"@) by {
            if state == "RS"@ {
                assert(state_codes()[22] == state);
            }
        }
        assert(state != "SC"@) by {
            if state == "SC"@ {
                assert(state_codes()[23] == state);
            }
        }
        assert(state != "SE"@) by {
            if state == "SE"@ {
                assert(state_codes()[24] == state);
            }
        }
        assert(state != "SP"@) by {
            if state == "SP"@ {
                assert(state_codes()[25] == state);
            }
        }
        assert(state != "TO"@) by {
            if state == "TO"@ {
                assert(state_codes()[26] == state);
            }
        }
    }
}

} // verus!
