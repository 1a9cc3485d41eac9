use tiff2jp2::rational::{ppm_to_jp2_triplet, Ppm, RationalTriplet};
use tiff2jp2::resolution::{dpi_to_ppm, ppm_unit_for, Density, PpmUnit, ResUnit};

fn triplet(num: u16, den: u16, exp: u8) -> RationalTriplet {
    RationalTriplet { num, den, exp }
}

/// The distance between the triplet and the density, as the fraction
/// `error.0 / error.1`.
fn error_of(t: RationalTriplet, ppm: Ppm) -> (u128, u128) {
    let scale = 10u128.pow(t.exp as u32);
    let a = (t.num as u128) * scale * (ppm.den as u128);
    let b = (ppm.num as u128) * (t.den as u128);
    (a.abs_diff(b), (t.den as u128) * (ppm.den as u128))
}

#[test]
fn dpi_to_ppm_is_exact() {
    let d = Density { num: 300, den: 1 };
    assert_eq!(dpi_to_ppm(d, PpmUnit::Inch), Ppm { num: 3_000_000, den: 254 });
    assert_eq!(dpi_to_ppm(d, PpmUnit::Centimeter), Ppm { num: 30_000, den: 1 });
    let max = Density { num: u32::MAX, den: u32::MAX };
    assert_eq!(
        dpi_to_ppm(max, PpmUnit::Inch),
        Ppm { num: 42_949_672_950_000, den: 1_090_921_692_930 }
    );
    let none = Density { num: 7, den: 0 };
    assert_eq!(dpi_to_ppm(none, PpmUnit::Inch), Ppm { num: 70_000, den: 0 });
}

#[test]
fn unit_without_name_counts_as_inch() {
    assert_eq!(ppm_unit_for(ResUnit::Inch), PpmUnit::Inch);
    assert_eq!(ppm_unit_for(ResUnit::Centimeter), PpmUnit::Centimeter);
    assert_eq!(ppm_unit_for(ResUnit::Unspecified), PpmUnit::Inch);
}

#[test]
fn triplet_for_300_dpi() {
    let ppm = dpi_to_ppm(Density { num: 300, den: 1 }, PpmUnit::Inch);
    assert_eq!(ppm_to_jp2_triplet(ppm), triplet(11811, 1, 0));
}

#[test]
fn triplet_for_72_dpi() {
    let ppm = dpi_to_ppm(Density { num: 72, den: 1 }, PpmUnit::Inch);
    assert_eq!(ppm_to_jp2_triplet(ppm), triplet(18577, 65535, 4));
}

#[test]
fn triplet_for_600_and_96_dpi() {
    let ppm = dpi_to_ppm(Density { num: 600, den: 1 }, PpmUnit::Inch);
    assert_eq!(ppm_to_jp2_triplet(ppm), triplet(23622, 1, 0));
    let ppm = dpi_to_ppm(Density { num: 96, den: 1 }, PpmUnit::Inch);
    assert_eq!(ppm_to_jp2_triplet(ppm), triplet(24769, 65535, 4));
}

#[test]
fn exact_match_stops_the_search() {
    // 15000 is met by the very first candidate.
    assert_eq!(ppm_to_jp2_triplet(Ppm { num: 15000, den: 1 }), triplet(15000, 1, 0));
    // One half is first rounded to 1, then met exactly with denominator 10.
    assert_eq!(ppm_to_jp2_triplet(Ppm { num: 1, den: 2 }), triplet(5, 10, 0));
    assert_eq!(ppm_to_jp2_triplet(Ppm { num: 49, den: 100 }), triplet(49, 100, 0));
    assert_eq!(ppm_to_jp2_triplet(Ppm { num: 1, den: 3 }), triplet(21845, 65535, 0));
    assert_eq!(ppm_to_jp2_triplet(Ppm { num: 1, den: 1 }), triplet(1, 1, 0));
}

#[test]
fn first_of_equal_candidates_wins() {
    // 12346/1, 12346/10 * 10 and others are equally close; the first stays.
    assert_eq!(ppm_to_jp2_triplet(Ppm { num: 12_345_678, den: 1000 }), triplet(12346, 1, 0));
}

#[test]
fn largest_density_uses_the_largest_exponent() {
    assert_eq!(ppm_to_jp2_triplet(Ppm { num: 6_553_500_000, den: 1 }), triplet(65535, 1, 5));
}

#[test]
fn no_usable_density_gives_the_neutral_triplet() {
    assert_eq!(ppm_to_jp2_triplet(Ppm { num: 0, den: 1 }), triplet(0, 1, 0));
    assert_eq!(ppm_to_jp2_triplet(Ppm { num: 5, den: 0 }), triplet(0, 1, 0));
    assert_eq!(ppm_to_jp2_triplet(Ppm { num: 0, den: 0 }), triplet(0, 1, 0));
    // Too large for every candidate.
    assert_eq!(ppm_to_jp2_triplet(Ppm { num: 7_000_000_000, den: 1 }), triplet(0, 1, 0));
    assert_eq!(ppm_to_jp2_triplet(Ppm { num: u64::MAX, den: 1 }), triplet(0, 1, 0));
    // Too small for every candidate.
    assert_eq!(ppm_to_jp2_triplet(Ppm { num: 1, den: u64::MAX }), triplet(0, 1, 0));
}

#[test]
fn approximation_is_deterministic() {
    for num in [1u64, 254, 3_000_000, 720_000, 99_999_999] {
        let ppm = Ppm { num, den: 254 };
        assert_eq!(ppm_to_jp2_triplet(ppm), ppm_to_jp2_triplet(ppm));
    }
}

#[test]
fn relative_error_is_bounded() {
    // Densities from 1 to 6 553 500 000 pixels per metre.
    let mut p: u64 = 1000;
    while p <= 6_553_500_000_000 {
        for den in [1000u64, 999, 1] {
            let ppm = Ppm { num: if den == 1 { p / 1000 } else { p }, den };
            if ppm.num < ppm.den || ppm.num > 6_553_500_000 * ppm.den {
                continue;
            }
            let t = ppm_to_jp2_triplet(ppm);
            assert_ne!(t, triplet(0, 1, 0));
            assert!(t.num >= 1 && t.den >= 1 && t.exp <= 5);
            let (e_num, e_den) = error_of(t, ppm);
            // 13106 * error <= density
            assert!(13106 * e_num * (ppm.den as u128) <= (ppm.num as u128) * e_den);
        }
        p = p + p / 3 + 1;
    }
}

#[test]
fn no_candidate_is_closer_than_the_result() {
    let dens = [1u128, 10, 100, 1000, 10000, 65535];
    for (num, den) in [(3_000_000u64, 254u64), (720_000, 254), (1, 7), (123_456_789, 1000)] {
        let ppm = Ppm { num, den };
        let t = ppm_to_jp2_triplet(ppm);
        let (e_num, e_den) = error_of(t, ppm);
        if e_num * 1_000_000 < e_den {
            continue;
        }
        for exp in 0..6u32 {
            for d in dens {
                let qs = (den as u128) * 10u128.pow(exp);
                let n = (2 * (num as u128) * d + qs) / (2 * qs);
                if n < 1 || n > 65535 {
                    continue;
                }
                let c = RationalTriplet { num: n as u16, den: d as u16, exp: exp as u8 };
                let (c_num, c_den) = error_of(c, ppm);
                assert!(e_num * c_den <= c_num * e_den);
            }
        }
    }
}
