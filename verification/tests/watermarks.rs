use avro_columnar::watermark::{
    Watermark, WatermarkGenerator, WatermarkGeneratorConstructor, WatermarkGeneratorState,
};

const SECOND: u64 = 1_000_000_000;

#[test]
fn new_generator_has_emitted_nothing() {
    let generator = WatermarkGenerator::expression(1_000_000, Some(5_000_000), 42);
    assert_eq!(generator.interval, 1_000_000);
    assert_eq!(generator.idle_time, Some(5_000_000));
    assert_eq!(generator.last_event, 42);
    assert!(!generator.idle);
    assert_eq!(generator.state_cache, WatermarkGeneratorState { last_watermark_emitted_at: 0, max_watermark: 0 });
    assert_eq!(generator.name(), "expression_watermark_generator");
    assert_eq!(generator.tick_interval(), Some(1_000_000));
    assert_eq!(WatermarkGeneratorConstructor.with_config(1_000_000, Some(5_000_000), 42), generator);
}

#[test]
fn batch_emits_when_the_interval_has_passed() {
    let mut generator = WatermarkGenerator::expression(1_000_000, None, 0);
    assert_eq!(generator.process_batch(10, Some((5 * SECOND, 4 * SECOND))), Some(Watermark::EventTime(4 * SECOND)));
    assert_eq!(generator.state_cache.last_watermark_emitted_at, 5 * SECOND);
    assert_eq!(generator.state_cache.max_watermark, 4 * SECOND);
    assert_eq!(generator.last_event, 10);

    assert_eq!(generator.process_batch(20, Some((6 * SECOND, 5 * SECOND))), None);
    assert_eq!(generator.state_cache.last_watermark_emitted_at, 5 * SECOND);
    assert_eq!(generator.state_cache.max_watermark, 5 * SECOND);
    assert_eq!(generator.last_event, 20);

    assert_eq!(generator.process_batch(30, Some((6 * SECOND + 1, 3 * SECOND))), Some(Watermark::EventTime(3 * SECOND)));
    assert_eq!(generator.state_cache.last_watermark_emitted_at, 6 * SECOND + 1);
    assert_eq!(generator.state_cache.max_watermark, 5 * SECOND);
}

#[test]
fn batch_before_the_last_emission_does_not_emit() {
    let mut generator = WatermarkGenerator::expression(1_000, None, 0);
    generator.on_start(1, Some(WatermarkGeneratorState { last_watermark_emitted_at: 10 * SECOND, max_watermark: 7 }));
    assert_eq!(generator.process_batch(2, Some((9 * SECOND, 8 * SECOND))), None);
    assert_eq!(generator.state_cache, WatermarkGeneratorState { last_watermark_emitted_at: 10 * SECOND, max_watermark: 8 * SECOND });
}

#[test]
fn batch_without_rows_only_marks_the_time() {
    let mut generator = WatermarkGenerator::expression(0, Some(1), 0);
    let before = generator;
    assert_eq!(generator.process_batch(77, None), None);
    assert_eq!(generator, WatermarkGenerator { last_event: 77, ..before });
}

#[test]
fn idle_partition_emits_on_the_next_batch() {
    let mut generator = WatermarkGenerator::expression(3_600_000_000, Some(2_000_000), 0);
    assert_eq!(generator.process_batch(SECOND, Some((SECOND, SECOND))), None);
    assert_eq!(generator.handle_tick(3 * SECOND), None);
    assert!(!generator.idle);
    assert_eq!(generator.handle_tick(3 * SECOND + 1), Some(Watermark::Idle));
    assert!(generator.idle);
    assert_eq!(generator.handle_tick(9 * SECOND), None);
    assert!(generator.idle);
    assert_eq!(generator.process_batch(10 * SECOND, Some((2 * SECOND, SECOND / 2))), Some(Watermark::EventTime(SECOND / 2)));
    assert!(!generator.idle);
    assert_eq!(generator.state_cache.last_watermark_emitted_at, 2 * SECOND);
    assert_eq!(generator.state_cache.max_watermark, SECOND);
}

#[test]
fn tick_without_idle_time_or_before_the_last_event_does_nothing() {
    let mut generator = WatermarkGenerator::expression(1, None, 0);
    assert_eq!(generator.handle_tick(u64::MAX), None);
    assert!(!generator.idle);
    let mut generator = WatermarkGenerator::expression(1, Some(0), 100);
    assert_eq!(generator.handle_tick(50), None);
    assert_eq!(generator.handle_tick(100), None);
    assert_eq!(generator.handle_tick(101), Some(Watermark::Idle));
}

#[test]
fn start_restores_the_kept_state() {
    let mut generator = WatermarkGenerator::expression(1, None, 0);
    generator.process_batch(1, Some((SECOND, SECOND)));
    generator.on_start(500, None);
    assert_eq!(generator.state_cache, WatermarkGeneratorState { last_watermark_emitted_at: 0, max_watermark: 0 });
    assert_eq!(generator.last_event, 500);
    let kept = WatermarkGeneratorState { last_watermark_emitted_at: 11, max_watermark: 12 };
    generator.on_start(600, Some(kept));
    assert_eq!(generator.handle_checkpoint(), kept);
    assert_eq!(generator.last_event, 600);
}

#[test]
fn close_after_the_end_of_data_emits_the_last_watermark() {
    let generator = WatermarkGenerator::expression(1, None, 0);
    assert_eq!(generator.on_close(true), Some(Watermark::EventTime(u64::MAX)));
    assert_eq!(generator.on_close(false), None);
}

#[test]
fn long_intervals_do_not_overflow() {
    let mut generator = WatermarkGenerator::expression(u64::MAX, Some(u64::MAX), 0);
    assert_eq!(generator.process_batch(1, Some((u64::MAX, 9))), None);
    assert_eq!(generator.handle_tick(u64::MAX), None);
    assert_eq!(generator.state_cache.max_watermark, 9);
}
