use fixed::types::extra::U31;
use fixed::FixedU32;
use random_chess::bonus_chance;
use random_chess::no_bonus_chance;
use random_chess::Score;

type Fix = FixedU32<U31>;

fn score(value: f64) -> Score {
    Score::from_bits(Fix::from_num(value).to_bits())
}

#[test]
fn constants_have_the_bits_of_the_fixed_point_type() {
    assert_eq!(Score::zero().to_bits(), Fix::ZERO.to_bits());
    assert_eq!(Score::one().to_bits(), Fix::ONE.to_bits());
    assert_eq!(Score::delta().to_bits(), Fix::DELTA.to_bits());
    assert_eq!(Score::half().to_bits(), Fix::from_num(0.5).to_bits());
    assert_eq!(Score::one().to_bits(), 0x8000_0000);
    assert_eq!(Score::half().to_bits(), 0x4000_0000);
    assert_eq!(Score::delta().to_bits(), 1);
}

#[test]
fn checked_add_gives_the_sum_or_none_on_overflow() {
    assert_eq!(score(0.25).checked_add(score(0.5)), Some(score(0.75)));
    assert_eq!(score(1.0).checked_add(score(0.75)), Some(score(1.75)));
    assert_eq!(score(1.5).checked_add(score(1.0)), None);
    assert_eq!(
        Score::from_bits(u32::MAX).checked_add(Score::delta()),
        None
    );
}

#[test]
fn checked_sub_gives_the_difference_or_none_below_zero() {
    assert_eq!(score(0.75).checked_sub(score(0.25)), Some(score(0.5)));
    assert_eq!(score(0.25).checked_sub(score(0.25)), Some(Score::zero()));
    assert_eq!(score(0.25).checked_sub(score(0.5)), None);
}

#[test]
fn checked_mul_rounds_down_and_reports_overflow() {
    assert_eq!(score(0.5).checked_mul(score(0.5)), Some(score(0.25)));
    assert_eq!(score(1.0).checked_mul(score(0.75)), Some(score(0.75)));
    // 3 * 2^-31 times one half is 1.5 * 2^-31, which is rounded down.
    assert_eq!(
        Score::from_bits(3).checked_mul(score(0.5)),
        Some(Score::from_bits(1))
    );
    assert_eq!(
        Score::delta().checked_mul(score(0.5)),
        Some(Score::zero())
    );
    assert_eq!(score(1.9).checked_mul(score(1.9)), None);
    assert_eq!(score(1.5).checked_mul(score(1.0)), Some(score(1.5)));
}

#[test]
fn checked_div_rounds_down_and_reports_zero_and_overflow() {
    assert_eq!(score(0.25).checked_div(score(0.5)), Some(score(0.5)));
    // One quarter by three quarters is a third: 2^31 / 3, rounded down.
    assert_eq!(
        score(0.25).checked_div(score(0.75)),
        Some(Score::from_bits(715_827_882))
    );
    assert_eq!(score(0.25).checked_div(Score::zero()), None);
    assert_eq!(score(1.5).checked_div(score(0.5)), None);
    assert_eq!(score(0.75).checked_div(score(0.5)), Some(score(1.5)));
}

#[test]
fn plus_minus_and_times_agree_with_the_operators_of_the_fixed_point_type() {
    let samples: [u32; 8] = [
        0,
        1,
        3,
        0x2000_0000,
        0x2aaa_aaab,
        0x4000_0000,
        0x7fff_ffff,
        0x8000_0000,
    ];
    for &a in samples.iter() {
        for &b in samples.iter() {
            let x = Fix::from_bits(a);
            let y = Fix::from_bits(b);
            if a as u64 + b as u64 <= u32::MAX as u64 {
                assert_eq!(
                    Score::from_bits(a).plus(Score::from_bits(b)).to_bits(),
                    (x + y).to_bits()
                );
            }
            assert_eq!(
                Score::from_bits(a).times(Score::from_bits(b)).to_bits(),
                (x * y).to_bits()
            );
            if b <= a {
                assert_eq!(
                    Score::from_bits(a).minus(Score::from_bits(b)).to_bits(),
                    (x - y).to_bits()
                );
            }
            assert_eq!(
                Score::from_bits(a)
                    .checked_div(Score::from_bits(b))
                    .map(|q| q.to_bits()),
                x.checked_div(y).map(|q| q.to_bits())
            );
        }
    }
}

#[test]
fn div_int_divides_the_bits() {
    assert_eq!(Score::one().div_int(4), score(0.25));
    assert_eq!(Score::one().div_int(3), Score::from_bits(715_827_882));
    assert_eq!(score(0.75).div_int(1), score(0.75));
}

#[test]
fn the_chance_of_a_bonus_is_a_quarter() {
    assert_eq!(bonus_chance(), score(0.25));
    assert_eq!(no_bonus_chance(), score(0.75));
    assert_eq!(
        bonus_chance().plus(no_bonus_chance()),
        Score::one()
    );
}

#[test]
fn from_ratio_is_the_nearest_score() {
    assert_eq!(Score::from_ratio(1, 2), score(0.5));
    assert_eq!(Score::from_ratio(1, 1), Score::one());
    assert_eq!(Score::from_ratio(0, 7), Score::zero());
    assert_eq!(Score::from_ratio(10, 11), score(10.0 / 11.0));
    assert_eq!(Score::from_ratio(10, 11).to_bits(), 1_952_257_862);
    assert_eq!(Score::from_ratio(1, 3).to_bits(), 715_827_883);
    assert_eq!(Score::from_ratio(2, 3).to_bits(), 1_431_655_765);
}

#[test]
fn from_ratio_agrees_with_the_conversion_from_floating_point() {
    for den in 1u32..=600 {
        for num in 0..=den {
            assert_eq!(
                Score::from_ratio(num, den).to_bits(),
                Fix::from_num(num as f64 / den as f64).to_bits(),
                "{} / {}",
                num,
                den
            );
        }
    }
}

#[test]
fn scores_are_ordered_by_their_value() {
    assert!(score(0.25) < score(0.5));
    assert!(score(0.5) <= score(0.5));
    assert!(Score::one() > Score::half());
    assert_eq!(score(0.5), Score::half());
    assert_ne!(score(0.5), score(0.5).plus(Score::delta()));
}
