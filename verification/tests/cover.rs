use taior::cover;
use taior::cover_traffic::{
    AdaptiveCoverTraffic, CoverTrafficConfig, CoverTrafficError, CoverTrafficGenerator,
};

#[test]
fn test_cover_traffic_generation() {
    let config = CoverTrafficConfig {
        enabled: true,
        packets_per_kilosecond: 10 * 1000,
        min_size: 512,
        max_size: 1024,
        jitter_ms: 100,
    };

    let generator = CoverTrafficGenerator::new(config);
    let packet = generator.generate_cover_packet().unwrap();

    assert!(packet.len() >= 512);
    assert!(packet.len() <= 1024);
}

#[test]
fn test_adaptive_cover_traffic() {
    let config = CoverTrafficConfig::default();
    let mut adaptive = AdaptiveCoverTraffic::new(config, 500);

    adaptive.on_real_traffic();
    adaptive.on_real_traffic();

    let (real, _cover, _ratio) = adaptive.stats();
    assert_eq!(real, 2);
}

#[test]
fn disabled_coin_never_sends() {
    let generator = cover::CoverTrafficGenerator::new(false, 900);
    for _ in 0..1000 {
        assert!(!generator.should_send_cover());
    }
    assert!(!generator.should_send_cover_with(0));
}

#[test]
fn coin_with_zero_ratio_never_sends() {
    let generator = cover::CoverTrafficGenerator::new(true, 0);
    for _ in 0..1000 {
        assert!(!generator.should_send_cover());
    }
}

#[test]
fn coin_above_certainty_always_sends() {
    let generator = cover::CoverTrafficGenerator::new(true, 1001);
    for _ in 0..1000 {
        assert!(generator.should_send_cover());
    }
    assert!(generator.should_send_cover_with(u32::MAX));
}

#[test]
fn coin_compares_the_draw_with_the_ratio() {
    let half = cover::CoverTrafficGenerator::new(true, 500);
    assert!(half.should_send_cover_with(0));
    assert!(half.should_send_cover_with(u32::MAX / 2));
    assert!(!half.should_send_cover_with(u32::MAX / 2 + 1));
    assert!(!half.should_send_cover_with(u32::MAX));
    let full = cover::CoverTrafficGenerator::new(true, 1000);
    assert!(full.should_send_cover_with(u32::MAX - 1));
    assert!(!full.should_send_cover_with(u32::MAX));
}

#[test]
fn coin_default_is_off() {
    let generator = cover::CoverTrafficGenerator::default();
    assert!(!generator.should_send_cover());
    assert!(!generator.should_send_cover_with(0));
}

#[test]
fn coin_decoy_has_the_shape_of_a_real_packet() {
    let generator = cover::CoverTrafficGenerator::new(true, 300);
    let decoy = generator.generate_cover_packet(512, 4).unwrap();
    assert!(decoy.is_cover);
    assert_eq!(decoy.ttl, 4);
    assert_eq!(decoy.encrypted_payload.len(), 512 + 16);
    assert_eq!(decoy.ikm.len(), 32);
    assert_eq!(decoy.decrypt_with_ikm().unwrap().len(), 512);
    let bare = generator.generate_cover_packet(0, 1).unwrap();
    assert_eq!(bare.encrypted_payload.len(), 16 + 16);
}

#[test]
fn rate_default_configuration() {
    let config = CoverTrafficConfig::default();
    assert!(config.enabled);
    assert_eq!(config.packets_per_kilosecond, 2000);
    assert_eq!((config.min_size, config.max_size, config.jitter_ms), (512, 2048, 500));
}

fn rate(packets_per_kilosecond: u64, jitter_ms: u64) -> CoverTrafficConfig {
    CoverTrafficConfig { enabled: true, packets_per_kilosecond, min_size: 10, max_size: 20, jitter_ms }
}

#[test]
fn rate_waits_for_the_interval() {
    // Two packets per second: 500 ms apart. No jitter.
    let mut generator = CoverTrafficGenerator::new_at(rate(2000, 0), 10_000);
    assert!(!generator.should_send_cover_at(10_499, 12345));
    assert!(generator.should_send_cover_at(10_500, 12345));
    assert!(!generator.should_send_cover_at(10_999, 12345));
    assert!(generator.should_send_cover_at(11_000, 12345));
}

#[test]
fn rate_jitter_shifts_the_interval() {
    // Interval 500 ms, jitter of up to 100 ms either way: draw % 200 - 100.
    let mut early = CoverTrafficGenerator::new_at(rate(2000, 100), 0);
    assert!(!early.should_send_cover_at(399, 0));
    assert!(early.should_send_cover_at(400, 0));
    let mut late = CoverTrafficGenerator::new_at(rate(2000, 100), 0);
    assert!(!late.should_send_cover_at(598, 199));
    assert!(late.should_send_cover_at(599, 199));
    let mut exact = CoverTrafficGenerator::new_at(rate(2000, 100), 0);
    assert!(!exact.should_send_cover_at(499, 100));
    assert!(exact.should_send_cover_at(500, 300));
}

#[test]
fn rate_jitter_never_makes_the_interval_negative() {
    // Interval 1 ms, jitter up to 1000 ms: a target below zero counts as zero.
    let mut generator = CoverTrafficGenerator::new_at(rate(1_000_000, 1000), 50);
    assert!(generator.should_send_cover_at(50, 0));
    assert!(!generator.should_send_cover_at(49, 0));
}

#[test]
fn rate_that_is_off_never_sends() {
    let mut off = CoverTrafficGenerator::new_at(
        CoverTrafficConfig { enabled: false, ..rate(2000, 0) },
        0,
    );
    assert!(!off.should_send_cover_at(u64::MAX, 0));
    assert!(!off.should_send_cover());
    let mut still = CoverTrafficGenerator::new_at(rate(0, 0), 0);
    assert!(!still.should_send_cover_at(u64::MAX, 0));
    assert!(!still.should_send_cover());
}

#[test]
fn rate_reads_the_clock() {
    // One packet per 1000 seconds, first interval from time zero: long due.
    let mut generator = CoverTrafficGenerator::new_at(rate(1, 0), 0);
    assert!(generator.should_send_cover());
    // The next is not due for a thousand seconds.
    assert!(!generator.should_send_cover());
}

#[test]
fn rate_payload_sizes_follow_the_draw() {
    let generator = CoverTrafficGenerator::new_at(rate(2000, 0), 0);
    assert_eq!(generator.cover_size_for(0), 10);
    assert_eq!(generator.cover_size_for(9), 19);
    assert_eq!(generator.cover_size_for(10), 10);
    assert_eq!(generator.cover_size_for(25), 15);
    let fixed = CoverTrafficGenerator::new_at(
        CoverTrafficConfig { min_size: 33, max_size: 33, ..rate(2000, 0) },
        0,
    );
    assert_eq!(fixed.cover_size_for(77), 33);
    assert_eq!(fixed.generate_cover_packet().unwrap().len(), 33);
    for _ in 0..200 {
        let len = generator.generate_cover_packet().unwrap().len();
        assert!((10..20).contains(&len));
    }
}

#[test]
fn rate_wraps_a_payload_unpadded() {
    let generator = CoverTrafficGenerator::new(CoverTrafficConfig::default());
    let payload = vec![0xabu8; 700];
    let packet = generator.wrap_in_packet(payload.clone()).unwrap();
    assert!(packet.is_cover);
    assert_eq!(packet.ttl, 3);
    assert_eq!(packet.encrypted_payload.len(), 700 + 16);
    assert_eq!(packet.decrypt_with_ikm().unwrap(), payload);
    let result: Result<_, CoverTrafficError> = generator.wrap_in_packet(vec![]);
    assert_eq!(result.unwrap().encrypted_payload.len(), 16);
}

#[test]
fn adaptive_sends_for_sure_from_a_deficit_of_ten() {
    let mut adaptive = AdaptiveCoverTraffic::new(CoverTrafficConfig::default(), 500);
    for _ in 0..100 {
        adaptive.on_real_traffic();
    }
    assert_eq!(adaptive.stats(), (100, 0, 0));
    assert!(adaptive.should_send_adaptive_cover());
    assert_eq!(adaptive.stats(), (100, 1, 10));
}

#[test]
fn adaptive_follows_the_deficit() {
    let mut adaptive = AdaptiveCoverTraffic::new_at(CoverTrafficConfig::default(), 500, 0);
    for _ in 0..100 {
        adaptive.on_real_traffic_at(1);
    }
    // Certain while the deficit is ten packets or more, whatever the draw.
    for sent in 0..40u64 {
        assert!(adaptive.should_send_adaptive_cover_at(2, u64::MAX));
        assert_eq!(adaptive.stats().1, sent + 1);
    }
    // Deficit 50 - 40 = 10: still certain.
    assert!(adaptive.should_send_adaptive_cover_at(2, u64::MAX));
    // Deficit 9: probability nine tenths.
    assert!(!adaptive.should_send_adaptive_cover_at(2, u64::MAX));
    assert!(!adaptive.should_send_adaptive_cover_at(2, u64::MAX / 10 * 9 + 9));
    assert!(adaptive.should_send_adaptive_cover_at(2, u64::MAX / 10 * 9 - 9));
    assert_eq!(adaptive.stats(), (100, 42, 420));
    // At the target nothing is sent.
    for _ in 0..8 {
        assert!(adaptive.should_send_adaptive_cover_at(2, 0));
    }
    assert_eq!(adaptive.stats(), (100, 50, 500));
    assert!(!adaptive.should_send_adaptive_cover_at(2, 0));
}

#[test]
fn adaptive_without_real_traffic_keeps_the_rate() {
    let mut adaptive = AdaptiveCoverTraffic::new_at(rate(2000, 0), 500, 1000);
    assert!(!adaptive.should_send_adaptive_cover_at(1499, 0));
    assert!(adaptive.should_send_adaptive_cover_at(1500, 0));
    assert_eq!(adaptive.stats(), (0, 0, 0));
}

#[test]
fn adaptive_window_resets_the_counts() {
    let mut adaptive = AdaptiveCoverTraffic::new_at(rate(2000, 0), 500, 0);
    adaptive.on_real_traffic_at(10);
    adaptive.on_real_traffic_at(59_999);
    assert_eq!(adaptive.stats().0, 2);
    adaptive.on_real_traffic_at(60_000);
    assert_eq!(adaptive.stats(), (0, 0, 0));
    adaptive.on_real_traffic_at(60_001);
    assert_eq!(adaptive.stats().0, 1);
    assert!(adaptive.should_send_adaptive_cover_at(120_001, 0));
    assert_eq!(adaptive.stats(), (0, 0, 0));
}

#[test]
fn adaptive_decoys_come_from_the_generator() {
    let adaptive = AdaptiveCoverTraffic::new(rate(2000, 0), 500);
    let payload = adaptive.generate_cover_packet().unwrap();
    assert!((10..20).contains(&payload.len()));
    let packet = adaptive.wrap_in_packet(payload.clone()).unwrap();
    assert!(packet.is_cover);
    assert_eq!(packet.ttl, 3);
    assert_eq!(packet.decrypt_with_ikm().unwrap(), payload);
}
