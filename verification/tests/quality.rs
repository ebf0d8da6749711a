use nl80211scan::dbm_level_to_quality;

#[test]
fn quality_at_strong_edge() {
    // -40 dBm is the top of the band.
    assert_eq!(dbm_level_to_quality(-4000), 100);
}

#[test]
fn quality_at_weak_edge() {
    // -100 dBm is the bottom of the band.
    assert_eq!(dbm_level_to_quality(-10000), 0);
}

#[test]
fn quality_saturates_above_band() {
    assert_eq!(dbm_level_to_quality(-3999), 100);
    assert_eq!(dbm_level_to_quality(0), 100);
    assert_eq!(dbm_level_to_quality(i32::MAX), 100);
}

#[test]
fn quality_saturates_below_band() {
    assert_eq!(dbm_level_to_quality(-10001), 0);
    assert_eq!(dbm_level_to_quality(i32::MIN), 0);
}

#[test]
fn quality_midband_values() {
    // -50 dBm: 100 - 100 * 10 / 60 rounds to 83.
    assert_eq!(dbm_level_to_quality(-5000), 83);
    // -70 dBm: exactly half the band.
    assert_eq!(dbm_level_to_quality(-7000), 50);
    // -99.7 dBm: 0.5 rounds away from zero to 1.
    assert_eq!(dbm_level_to_quality(-9970), 1);
}

#[test]
fn quality_non_decreasing_across_band() {
    let mut last = 0u8;
    let mut x = -10000i32;
    while x <= -4000 {
        let q = dbm_level_to_quality(x);
        assert!(q >= last);
        assert!(q <= 100);
        last = q;
        x += 1;
    }
}
