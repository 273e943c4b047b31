use kinect_rtsp::config_manager::InfraredConfigManager;
use kinect_rtsp::frame::InfraredFrame;
use kinect_rtsp::infrared::{infrared_to_rgba, InfraredPublisher};
use kinect_rtsp::tone_map::{configs_equal, generate_lut, lut_value, ConfigError, InfraredConfig};

fn config(min: i64, max: i64, scale: i64) -> InfraredConfig {
    InfraredConfig {
        infrared_output_value_minimum: min,
        infrared_output_value_maximum: max,
        infrared_source_scale: scale,
    }
}

#[test]
fn default_config_values() {
    let c = InfraredConfig::default();
    assert_eq!(c, config(250_000, 1_000_000, 3_000_000));
}

#[test]
fn default_lut_end_points() {
    let lut = generate_lut(&InfraredConfig::default());
    assert_eq!(lut.len(), 65536);
    assert_eq!(lut[0], 64);
    assert_eq!(lut[65535], 255);
}

#[test]
fn default_lut_inner_values() {
    let lut = generate_lut(&InfraredConfig::default());
    assert_eq!(lut[1000], 73);
    assert_eq!(lut[10000], 151);
    assert_eq!(lut[21845], 255);
}

#[test]
fn lut_other_config_values() {
    let c = config(100_000, 800_000, 1_000_000);
    assert_eq!(lut_value(&c, 0), 26);
    assert_eq!(lut_value(&c, 10000), 61);
    assert_eq!(lut_value(&c, 30000), 131);
    assert_eq!(lut_value(&c, 65535), 204);
}

#[test]
fn equal_configs_give_identical_tables() {
    let a = config(250_000, 1_000_000, 3_000_000);
    let b = InfraredConfig::default();
    assert!(configs_equal(&a, &b));
    assert_eq!(generate_lut(&a), generate_lut(&b));
    assert!(!configs_equal(&a, &config(250_001, 1_000_000, 3_000_000)));
}

#[test]
fn lut_is_non_decreasing() {
    for c in [
        InfraredConfig::default(),
        config(0, 1_000_000, 1),
        config(100_000, 800_000, 1_000_000),
        config(999_999, 1_000_000, 7_000_000_000),
    ] {
        let lut = generate_lut(&c);
        for s in 1..lut.len() {
            assert!(lut[s - 1] <= lut[s]);
        }
    }
}

#[test]
fn validate_reports_each_rule() {
    assert_eq!(config(-1, 1_000_000, 1).validate(), Err(ConfigError::MinimumOutOfRange));
    assert_eq!(config(1_000_001, 1_000_000, 1).validate(), Err(ConfigError::MinimumOutOfRange));
    assert_eq!(config(0, 1_000_001, 1).validate(), Err(ConfigError::MaximumOutOfRange));
    assert_eq!(config(0, -5, 1).validate(), Err(ConfigError::MaximumOutOfRange));
    assert_eq!(config(500_000, 500_000, 1).validate(), Err(ConfigError::MinimumNotBelowMaximum));
    assert_eq!(config(0, 1_000_000, 0).validate(), Err(ConfigError::ScaleNotPositive));
    assert_eq!(config(0, 1_000_000, -3).validate(), Err(ConfigError::ScaleNotPositive));
    let ok = config(0, 1_000_000, 1);
    assert_eq!(ok.validate(), Ok(ok));
}

#[test]
fn reload_with_inverted_bounds_keeps_previous_config() {
    let mut m = InfraredConfigManager::new(Ok(InfraredConfig::default()), 100).0;
    let before = m.lut().clone();
    let r = m.check_and_reload(200, Ok(config(900_000, 400_000, 2_000_000)));
    assert_eq!(r, Err(ConfigError::MinimumNotBelowMaximum));
    assert_eq!(m.get_config(), InfraredConfig::default());
    assert_eq!(m.lut(), &before);
    assert!(m.needs_reload(200));
}

#[test]
fn reload_takes_newer_valid_config() {
    let mut m = InfraredConfigManager::new(Ok(InfraredConfig::default()), 100).0;
    let next = config(100_000, 800_000, 1_000_000);
    assert_eq!(m.check_and_reload(100, Ok(next)), Ok(false));
    assert_eq!(m.get_config(), InfraredConfig::default());
    assert_eq!(m.check_and_reload(150, Err(ConfigError::Malformed)), Err(ConfigError::Malformed));
    assert_eq!(m.get_config(), InfraredConfig::default());
    assert_eq!(m.check_and_reload(150, Ok(next)), Ok(true));
    assert_eq!(m.get_config(), next);
    assert_eq!(m.lut()[0], 26);
    assert_eq!(m.lut()[65535], 204);
    assert!(!m.needs_reload(150));
}

#[test]
fn invalid_initial_config_falls_back_to_default() {
    let (m, rejected) = InfraredConfigManager::new(Ok(config(0, 1_000_000, 0)), 1);
    assert_eq!(rejected, Some(ConfigError::ScaleNotPositive));
    assert_eq!(m.get_config(), InfraredConfig::default());
    assert_eq!(m.lut(), &generate_lut(&InfraredConfig::default()));
    let (m, rejected) = InfraredConfigManager::new(Ok(config(700_000, 300_000, 1)), 1);
    assert_eq!(rejected, Some(ConfigError::MinimumNotBelowMaximum));
    assert_eq!(m.get_config(), InfraredConfig::default());
}

#[test]
fn unreadable_initial_config_falls_back_to_default() {
    let (mut m, rejected) = InfraredConfigManager::new(Err(ConfigError::Unreadable), 0);
    assert_eq!(rejected, Some(ConfigError::Unreadable));
    assert_eq!(m.get_config(), InfraredConfig::default());
    assert_eq!(m.lut()[0], 64);
    // once the file can be read, a newer valid configuration is taken
    let next = config(100_000, 800_000, 1_000_000);
    assert_eq!(m.check_and_reload(5, Ok(next)), Ok(true));
    assert_eq!(m.get_config(), next);
}

#[test]
fn valid_initial_config_is_taken() {
    let next = config(100_000, 800_000, 1_000_000);
    let (m, rejected) = InfraredConfigManager::new(Ok(next), 3);
    assert_eq!(rejected, None);
    assert_eq!(m.get_config(), next);
    assert_eq!(m.lut()[65535], 204);
    assert!(!m.needs_reload(3));
    assert!(m.needs_reload(4));
}

#[test]
fn rgba_expansion() {
    let lut = generate_lut(&InfraredConfig::default());
    let mut out = vec![9u8; 3];
    infrared_to_rgba(&lut, &vec![0u16, 65535, 10000], &mut out);
    assert_eq!(out, vec![64, 64, 64, 255, 255, 255, 255, 255, 151, 151, 151, 255]);
}

#[test]
fn publisher_refreshes_only_on_change() {
    let mut m = InfraredConfigManager::new(Ok(InfraredConfig::default()), 1).0;
    let mut p = InfraredPublisher::new(&m);
    assert!(!p.refresh(&m));
    let frame = InfraredFrame { width: 2, height: 1, data: vec![0, 10000] };
    assert!(p.convert(&frame));
    assert_eq!(p.rgba(), &vec![64, 64, 64, 255, 151, 151, 151, 255]);
    assert_eq!(m.check_and_reload(2, Ok(config(100_000, 800_000, 1_000_000))), Ok(true));
    assert!(p.refresh(&m));
    assert!(p.convert(&frame));
    assert_eq!(p.rgba(), &vec![26, 26, 26, 255, 61, 61, 61, 255]);
    let empty = InfraredFrame { width: 0, height: 0, data: vec![] };
    assert!(!p.convert(&empty));
    assert_eq!(p.rgba(), &vec![26, 26, 26, 255, 61, 61, 61, 255]);
}

#[test]
fn reload_passes_on_read_errors() {
    let mut m = InfraredConfigManager::new(Ok(InfraredConfig::default()), 10).0;
    assert_eq!(m.check_and_reload(20, Err(ConfigError::Unreadable)), Err(ConfigError::Unreadable));
    assert_eq!(m.get_config(), InfraredConfig::default());
    assert!(m.needs_reload(20));
    assert_eq!(m.check_and_reload(5, Err(ConfigError::Unreadable)), Ok(false));
}
