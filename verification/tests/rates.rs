use frame_rate::gcd::gcd_u32;
use frame_rate::FrameRate;
use frame_rate::Rational;
use frame_rate::SerializeRational;

#[test]
fn rational_from_frame_rate() {
    assert_eq!(FrameRate::_24_00.to_rational(), Rational::new(24, 1));
    assert_eq!(FrameRate::_25_00.to_rational(), Rational::new(25, 1));
    assert_eq!(FrameRate::_30_00.to_rational(), Rational::new(30, 1));
    assert_eq!(FrameRate::_50_00.to_rational(), Rational::new(50, 1));
    assert_eq!(FrameRate::_60_00.to_rational(), Rational::new(60, 1));
    assert_eq!(FrameRate::_120_00.to_rational(), Rational::new(120, 1));
    assert_eq!(FrameRate::_23_97.to_rational(), Rational::new(24000, 1001));
    assert_eq!(FrameRate::_24_97.to_rational(), Rational::new(25000, 1001));
    assert_eq!(FrameRate::_29_97.to_rational(), Rational::new(30000, 1001));
    assert_eq!(FrameRate::_59_94.to_rational(), Rational::new(60000, 1001));
    let rational_2_3 = Rational::new(2, 3);
    let rational_6_9 = Rational::new(6, 9);
    assert_eq!(FrameRate::FrCustom(rational_2_3).to_rational(), rational_2_3);
    assert_eq!(FrameRate::FrCustom(rational_6_9).to_rational(), rational_2_3);
}

#[test]
fn frame_rate_from_rational() {
    assert_eq!(FrameRate::from_rational(Rational::new(24, 1)), FrameRate::_24_00);
    assert_eq!(FrameRate::from_rational(Rational::new(25, 1)), FrameRate::_25_00);
    assert_eq!(FrameRate::from_rational(Rational::new(30, 1)), FrameRate::_30_00);
    assert_eq!(FrameRate::from_rational(Rational::new(50, 1)), FrameRate::_50_00);
    assert_eq!(FrameRate::from_rational(Rational::new(60, 1)), FrameRate::_60_00);
    assert_eq!(FrameRate::from_rational(Rational::new(120, 1)), FrameRate::_120_00);
    assert_eq!(FrameRate::from_rational(Rational::new(24000, 1001)), FrameRate::_23_97);
    assert_eq!(FrameRate::from_rational(Rational::new(25000, 1001)), FrameRate::_24_97);
    assert_eq!(FrameRate::from_rational(Rational::new(30000, 1001)), FrameRate::_29_97);
    assert_eq!(FrameRate::from_rational(Rational::new(60000, 1001)), FrameRate::_59_94);
    let rational_2_3 = Rational::new(2, 3);
    let rational_6_9 = Rational::new(6, 9);
    assert_eq!(
        FrameRate::from_rational(rational_2_3),
        FrameRate::FrCustom(rational_2_3)
    );
    assert_eq!(
        FrameRate::from_rational(rational_2_3),
        FrameRate::FrCustom(rational_6_9)
    );
    assert_eq!(FrameRate::from_rational(Rational::new(200, 4)), FrameRate::_50_00);
}

#[test]
fn serialize() {
    assert_eq!(
        FrameRate::_24_00.to_record(),
        SerializeRational { num: 24, den: 1 }
    );
    assert_eq!(
        FrameRate::_25_00.to_record(),
        SerializeRational { num: 25, den: 1 }
    );
    assert_eq!(
        FrameRate::_30_00.to_record(),
        SerializeRational { num: 30, den: 1 }
    );
    assert_eq!(
        FrameRate::_50_00.to_record(),
        SerializeRational { num: 50, den: 1 }
    );
    assert_eq!(
        FrameRate::_60_00.to_record(),
        SerializeRational { num: 60, den: 1 }
    );
    assert_eq!(
        FrameRate::_120_00.to_record(),
        SerializeRational { num: 120, den: 1 }
    );
    assert_eq!(
        FrameRate::_23_97.to_record(),
        SerializeRational { num: 24000, den: 1001 }
    );
    assert_eq!(
        FrameRate::_24_97.to_record(),
        SerializeRational { num: 25000, den: 1001 }
    );
    assert_eq!(
        FrameRate::_29_97.to_record(),
        SerializeRational { num: 30000, den: 1001 }
    );
    assert_eq!(
        FrameRate::_59_94.to_record(),
        SerializeRational { num: 60000, den: 1001 }
    );
    assert_eq!(
        FrameRate::FrCustom(Rational::new(2, 3)).to_record(),
        SerializeRational { num: 2, den: 3 }
    );
    assert_eq!(
        FrameRate::FrCustom(Rational::new(6, 9)).to_record(),
        SerializeRational { num: 2, den: 3 }
    );
}

#[test]
fn deserialize() {
    assert_eq!(
        FrameRate::from_record(SerializeRational { num: 24, den: 1 }),
        Some(FrameRate::_24_00)
    );
    assert_eq!(
        FrameRate::from_record(SerializeRational { num: 25, den: 1 }),
        Some(FrameRate::_25_00)
    );
    assert_eq!(
        FrameRate::from_record(SerializeRational { num: 30, den: 1 }),
        Some(FrameRate::_30_00)
    );
    assert_eq!(
        FrameRate::from_record(SerializeRational { num: 50, den: 1 }),
        Some(FrameRate::_50_00)
    );
    assert_eq!(
        FrameRate::from_record(SerializeRational { num: 60, den: 1 }),
        Some(FrameRate::_60_00)
    );
    assert_eq!(
        FrameRate::from_record(SerializeRational { num: 120, den: 1 }),
        Some(FrameRate::_120_00)
    );
    assert_eq!(
        FrameRate::from_record(SerializeRational { num: 24000, den: 1001 }),
        Some(FrameRate::_23_97)
    );
    assert_eq!(
        FrameRate::from_record(SerializeRational { num: 25000, den: 1001 }),
        Some(FrameRate::_24_97)
    );
    assert_eq!(
        FrameRate::from_record(SerializeRational { num: 30000, den: 1001 }),
        Some(FrameRate::_29_97)
    );
    assert_eq!(
        FrameRate::from_record(SerializeRational { num: 60000, den: 1001 }),
        Some(FrameRate::_59_94)
    );
    assert_eq!(
        FrameRate::from_record(SerializeRational { num: 2, den: 3 }),
        Some(FrameRate::FrCustom(Rational::new(2, 3)))
    );
    assert_eq!(
        FrameRate::from_record(SerializeRational { num: 6, den: 9 }),
        Some(FrameRate::FrCustom(Rational::new(2, 3)))
    );
    assert_eq!(
        FrameRate::from_record(SerializeRational { num: 200, den: 4 }),
        Some(FrameRate::_50_00)
    );
}

#[test]
fn deserialize_fails_on_zero_denominator() {
    assert_eq!(FrameRate::from_record(SerializeRational { num: 1, den: 0 }), None);
    assert_eq!(FrameRate::from_record(SerializeRational { num: 0, den: 0 }), None);
    assert_eq!(
        FrameRate::from_record(SerializeRational { num: 30000, den: 0 }),
        None
    );
}

#[test]
fn new_reduces_before_matching() {
    assert_eq!(FrameRate::new(200, 4), FrameRate::_50_00);
    assert_eq!(FrameRate::new(24, 1), FrameRate::_24_00);
    assert_eq!(FrameRate::new(48, 2), FrameRate::_24_00);
    assert_eq!(FrameRate::new(48000, 2002), FrameRate::_23_97);
    assert_eq!(FrameRate::new(60000, 2002), FrameRate::_29_97);
    assert_eq!(FrameRate::new(2, 3), FrameRate::FrCustom(Rational::new(2, 3)));
    assert_eq!(FrameRate::new(6, 9), FrameRate::new(2, 3));
    assert_eq!(FrameRate::new(2000, 3000), FrameRate::new(2, 3));
}

#[test]
fn named_rates_roundtrip_through_rational() {
    let named = [
        FrameRate::_24_00,
        FrameRate::_25_00,
        FrameRate::_30_00,
        FrameRate::_50_00,
        FrameRate::_60_00,
        FrameRate::_120_00,
        FrameRate::_23_97,
        FrameRate::_24_97,
        FrameRate::_29_97,
        FrameRate::_59_94,
    ];
    for v in named {
        assert_eq!(FrameRate::from_rational(v.to_rational()), v);
        assert_eq!(FrameRate::from_record(v.to_record()), Some(v));
    }
}

#[test]
fn custom_rates_roundtrip_through_record() {
    let cases: [(u32, u32); 5] = [(2, 3), (1, 1), (1000, 1001), (u32::MAX, u32::MAX - 1), (0, 7)];
    for (num, den) in cases {
        let v = FrameRate::new(num, den);
        assert_eq!(FrameRate::from_record(v.to_record()), Some(v));
    }
}

#[test]
fn rational_reduces_to_lowest_terms() {
    let r = Rational::new(6, 9);
    assert_eq!(r.numer(), 2);
    assert_eq!(r.denom(), 3);
    let whole = Rational::new(u32::MAX, u32::MAX);
    assert_eq!(whole.numer(), 1);
    assert_eq!(whole.denom(), 1);
    let zero = Rational::new(0, 7);
    assert_eq!(zero.numer(), 0);
    assert_eq!(zero.denom(), 1);
    let coprime = Rational::new(30000, 1001);
    assert_eq!(coprime.numer(), 30000);
    assert_eq!(coprime.denom(), 1001);
}

#[test]
fn gcd_of_plain_values() {
    assert_eq!(gcd_u32(12, 18), 6);
    assert_eq!(gcd_u32(18, 12), 6);
    assert_eq!(gcd_u32(24000, 1001), 1);
    assert_eq!(gcd_u32(200, 4), 4);
    assert_eq!(gcd_u32(0, 5), 5);
    assert_eq!(gcd_u32(5, 0), 5);
    assert_eq!(gcd_u32(0, 0), 0);
}

#[test]
fn drop_frame_rate_as_float() {
    let rec = FrameRate::_29_97.to_record();
    let value = rec.num as f64 / rec.den as f64;
    assert!((value - 29.97002997002997).abs() < 1e-12);
    let rec = FrameRate::_23_97.to_record();
    let value = rec.num as f64 / rec.den as f64;
    assert!((value - 23.976023976023978).abs() < 1e-12);
}
