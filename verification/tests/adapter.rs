use chip8_hal::gate_elapsed;
use chip8_hal::CountingTimeSource;
use chip8_hal::Display;
use chip8_hal::EntropySource;
use chip8_hal::Hardware;
use chip8_hal::InstrumentedTime;
use chip8_hal::Keyboard;
use chip8_hal::RamVideoMemory;
use chip8_hal::ScanPort;
use chip8_hal::TICK_THRESHOLD;

struct FixedPort(Option<u8>);

impl ScanPort for FixedPort {
    fn read_code(&mut self) -> Option<u8> {
        self.0
    }
}

struct FixedEntropy(u8);

impl EntropySource for FixedEntropy {
    fn next_byte(&mut self) -> u8 {
        self.0
    }
}

const VRAM_LEN: usize = 64000;

fn adapter(
    code: Option<u8>,
    start: u64,
    step: u64,
) -> Hardware<RamVideoMemory, FixedPort, CountingTimeSource, FixedEntropy> {
    Hardware::new(
        Display::new(RamVideoMemory::new(VRAM_LEN)),
        Keyboard::new(FixedPort(code)),
        InstrumentedTime::new(CountingTimeSource::new(start, step)),
        FixedEntropy(0x42),
    )
}

#[test]
fn rand_delegates_to_the_entropy_source() {
    let mut hw = adapter(None, 0, 1);
    assert_eq!(hw.rand(), 0x42);
}

#[test]
fn key_delegates_and_defaults_to_false_outside_the_table() {
    let mut hw = adapter(Some(0x2d), 0, 1);
    assert!(hw.key(0x0));
    assert!(!hw.key(0x1));
    assert!(!hw.key(0x10));
    assert!(!hw.key(0xff));
    let mut idle = adapter(None, 0, 1);
    for key in 0u8..16 {
        assert!(!idle.key(key));
    }
}

#[test]
fn vram_set_and_get_round_trip() {
    let mut hw = adapter(None, 0, 1);
    assert!(!hw.vram_get(10, 20));
    hw.vram_set(10, 20, true);
    assert!(hw.vram_get(10, 20));
    hw.vram_set(10, 20, false);
    assert!(!hw.vram_get(10, 20));
}

#[test]
fn vram_size_is_stored_unvalidated() {
    let mut hw = adapter(None, 0, 1);
    assert_eq!(hw.vram_size(), (0, 0));
    hw.vram_setsize((64, 32));
    assert_eq!(hw.vram_size(), (64, 32));
    // Never validated against the physical geometry: any value is held.
    hw.vram_setsize((100000, 100000));
    assert_eq!(hw.vram_size(), (100000, 100000));
}

#[test]
fn clock_scales_the_counter() {
    let mut hw = adapter(None, 1000, 10);
    assert_eq!(hw.clock(), 500);
    assert_eq!(hw.clock(), 505);
}

#[test]
fn beep_is_a_no_op() {
    let mut hw = adapter(None, 0, 1);
    hw.beep();
    assert_eq!(hw.vram_size(), (0, 0));
}

#[test]
fn gate_decision_is_exact_and_wraparound_safe() {
    assert!(!gate_elapsed(0, 0));
    assert!(!gate_elapsed(0, TICK_THRESHOLD - 1));
    assert!(gate_elapsed(0, TICK_THRESHOLD));
    assert!(gate_elapsed(0, TICK_THRESHOLD + 1));
    // Wraparound-safe subtraction across the 64-bit boundary.
    assert!(!gate_elapsed(u64::MAX - 5, 10));
    assert!(gate_elapsed(u64::MAX, TICK_THRESHOLD - 1));
}

#[test]
fn sched_returns_false_only_after_the_threshold() {
    // Counter starts at 0 and advances 1000 cycles per read; the clock
    // halves cycles, so pacing opens at the read returning 2,000,000 raw
    // cycles.
    let mut hw = adapter(None, 0, 1000);
    let r = hw.sched();
    assert!(!r);
    // Base read 0, then waits on 1000, 2000, ..., 2_000_000: the read after
    // pacing opened would return 2_001_000.
    assert_eq!(hw.time.source.peek(), 2_001_000);
}

#[test]
fn sched_with_coarse_counter_opens_on_first_check() {
    // One step jumps past the threshold: base read 0, one waiting read of
    // 4,000,000 raw cycles scales to 2,000,000 ticks and opens pacing.
    let mut hw = adapter(None, 0, 4_000_000);
    assert!(!hw.sched());
    assert_eq!(hw.time.source.peek(), 8_000_000);
}

#[test]
fn sched_observes_at_least_the_threshold_in_scaled_ticks() {
    let start: u64 = 12345;
    let mut hw = adapter(None, start, 777);
    assert!(!hw.sched());
    // The last sample handed out is one step behind the next value; the
    // scaled distance from the base sample must have reached the threshold.
    let last = hw.time.source.peek() - 777;
    let base = start;
    assert!((last / 2).wrapping_sub(base / 2) >= TICK_THRESHOLD);
    // And the sample before the last one was still short of it.
    let prev = last - 777;
    assert!((prev / 2).wrapping_sub(base / 2) < TICK_THRESHOLD);
}
