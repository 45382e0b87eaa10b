use batcherbird::sampler::LevelMeterState;

#[test]
fn it_works() {
    assert_eq!(2 + 2, 4);
}

#[test]
fn a_new_meter_shows_silence() {
    let meter = LevelMeterState::new();
    let levels = meter.get_levels();
    assert_eq!(f32::from_bits(levels.peak), 0.0);
    assert_eq!(f32::from_bits(levels.rms), 0.0);
    assert_eq!(f32::from_bits(levels.peak_db), -60.0);
    assert_eq!(f32::from_bits(levels.rms_db), -60.0);
}
