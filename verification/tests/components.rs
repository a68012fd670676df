use chip8_hal::fold_to_byte;
use chip8_hal::key_matches;
use chip8_hal::map_key;
use chip8_hal::mix;
use chip8_hal::scale_cycles;
use chip8_hal::CountingTimeSource;
use chip8_hal::Display;
use chip8_hal::EntropySource;
use chip8_hal::JitterEntropy;
use chip8_hal::Keyboard;
use chip8_hal::RamVideoMemory;
use chip8_hal::ScanPort;
use chip8_hal::PIXEL_OFF;
use chip8_hal::PIXEL_ON;
use chip8_hal::SCALE;
use chip8_hal::WIDTH;

struct FixedPort(Option<u8>);

impl ScanPort for FixedPort {
    fn read_code(&mut self) -> Option<u8> {
        self.0
    }
}

const VRAM_LEN: usize = 64000;

#[test]
fn set_then_get_reports_written_value() {
    let mut d = Display::new(RamVideoMemory::new(VRAM_LEN));
    d.set(3, 5, true);
    assert!(d.get(3, 5));
    d.set(3, 5, false);
    assert!(!d.get(3, 5));
}

#[test]
fn set_then_get_at_origin_and_far_corner() {
    let mut d = Display::new(RamVideoMemory::new(VRAM_LEN));
    d.set(0, 0, true);
    assert!(d.get(0, 0));
    // The farthest logical pixel whose block still fits: x*4+3 < 320 gives
    // x <= 79, and (y*4+3)*320 + 319 < 64000 gives y <= 49.
    d.set(79, 49, true);
    assert!(d.get(79, 49));
    d.set(79, 49, false);
    assert!(!d.get(79, 49));
}

#[test]
fn neighboring_blocks_are_untouched() {
    let mut d = Display::new(RamVideoMemory::new(VRAM_LEN));
    // Sentinel pattern: light every neighbor of (5, 5), then rewrite the
    // center twice; the neighbors must keep their values.
    for x in 4..7 {
        for y in 4..7 {
            if (x, y) != (5, 5) {
                d.set(x, y, true);
            }
        }
    }
    d.set(5, 5, true);
    d.set(5, 5, false);
    assert!(!d.get(5, 5));
    for x in 4..7 {
        for y in 4..7 {
            if (x, y) != (5, 5) {
                assert!(d.get(x, y));
            }
        }
    }
}

#[test]
fn pixel_constants_are_distinct() {
    assert_eq!(PIXEL_ON, 0x0f);
    assert_eq!(PIXEL_OFF, 0x00);
    assert_eq!(WIDTH, 320);
    assert_eq!(SCALE, 4);
}

#[test]
fn map_key_matches_table() {
    let table: [(u8, u8); 16] = [
        (0x0, 0x2d),
        (0x1, 0x02),
        (0x2, 0x03),
        (0x3, 0x04),
        (0x4, 0x10),
        (0x5, 0x11),
        (0x6, 0x12),
        (0x7, 0x1e),
        (0x8, 0x1f),
        (0x9, 0x20),
        (0xa, 0x2c),
        (0xb, 0x2e),
        (0xc, 0x05),
        (0xd, 0x12),
        (0xe, 0x20),
        (0xf, 0x2e),
    ];
    for (key, code) in table {
        assert_eq!(map_key(key), Some(code));
    }
    assert_eq!(map_key(0x10), None);
    assert_eq!(map_key(0xff), None);
}

#[test]
fn no_code_reports_no_key_down() {
    let mut kb = Keyboard::new(FixedPort(None));
    for key in 0u8..16 {
        assert!(!kb.is_down(key));
    }
}

#[test]
fn is_down_true_iff_code_equals_mapping() {
    for key in 0u8..16 {
        let code = map_key(key).unwrap();
        let mut kb = Keyboard::new(FixedPort(Some(code)));
        assert!(kb.is_down(key));
    }
    // A latched code that maps to no logical key reports nothing held.
    let mut kb = Keyboard::new(FixedPort(Some(0x01)));
    for key in 0u8..16 {
        assert!(!kb.is_down(key));
    }
    // Keys outside the table report false whatever is latched.
    let mut kb = Keyboard::new(FixedPort(Some(0x2d)));
    assert!(kb.is_down(0x0));
    assert!(!kb.is_down(0x10));
    assert!(!kb.is_down(0xff));
}

#[test]
fn duplicate_mappings_report_identically() {
    for (a, b, code) in [(0x6u8, 0xdu8, 0x12u8), (0x9, 0xe, 0x20), (0xb, 0xf, 0x2e)] {
        let mut kb = Keyboard::new(FixedPort(Some(code)));
        assert!(kb.is_down(a));
        assert!(kb.is_down(b));
        assert_eq!(key_matches(Some(code), a), key_matches(Some(code), b));
    }
}

#[test]
fn clock_scaling_is_monotonic_and_exact() {
    assert_eq!(scale_cycles(0), 0);
    assert_eq!(scale_cycles(1), 0);
    assert_eq!(scale_cycles(1000), 500);
    assert_eq!(scale_cycles(u64::MAX), u64::MAX / 2);
    let c1 = scale_cycles(1000);
    let c2 = scale_cycles(5000);
    assert!(c2.wrapping_sub(c1) > 0);
}

#[test]
fn counting_source_steps_deterministically() {
    let mut src = CountingTimeSource::new(100, 3);
    assert_eq!(src.peek(), 100);
    let mut kb_time = chip8_hal::InstrumentedTime::new(src);
    assert_eq!(kb_time.now(), 100);
    assert_eq!(kb_time.now(), 103);
    assert_eq!(kb_time.now(), 106);
    src = kb_time.source;
    assert_eq!(src.peek(), 109);
}

#[test]
fn mix_and_fold_exact_values() {
    assert_eq!(mix(0, 5), 5);
    assert_eq!(mix(1, 0), 0x100000001b3);
    assert_eq!(fold_to_byte(0), 0);
    assert_eq!(fold_to_byte(0xff), 0xff);
    assert_eq!(fold_to_byte(0x0102030405060708), 1 ^ 2 ^ 3 ^ 4 ^ 5 ^ 6 ^ 7 ^ 8);
}

#[test]
fn jitter_entropy_folds_the_observed_deltas() {
    let mut e = JitterEntropy::new(CountingTimeSource::new(100, 3));
    let b = e.next_byte();
    let mut acc: u64 = 0;
    for _ in 0..8 {
        acc = mix(acc, 3);
    }
    assert_eq!(b, fold_to_byte(acc));
}
