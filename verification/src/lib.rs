//! Hardware adapter layer for a small virtual-machine core: a scaled
//! framebuffer, a polled keyboard port, a cycle-counter clock with a
//! cooperative pacing gate, and a jitter-based entropy source.
//!
//! Raw hardware access (ports, video memory, the cycle counter) sits behind
//! narrow capability traits so that every address computation, key mapping
//! and pacing decision in this crate is verified against an explicit model.

mod display;
mod entropy;
mod hardware;
mod keyboard;
mod time;

pub use display::block_offset;
pub use display::color_of;
pub use display::get_spec;
pub use display::in_block;
pub use display::lemma_get_after_set;
pub use display::lemma_set_untouched_outside_block;
pub use display::set_spec;
pub use display::Display;
pub use display::RamVideoMemory;
pub use display::VideoMemory;
pub use display::PIXEL_OFF;
pub use display::PIXEL_ON;
pub use display::SCALE;
pub use display::WIDTH;
pub use entropy::fold_spec;
pub use entropy::fold_to_byte;
pub use entropy::mix;
pub use entropy::mix_spec;
pub use entropy::mixed_deltas;
pub use entropy::EntropySource;
pub use entropy::JitterEntropy;
pub use entropy::FALLBACK_BYTE;
pub use entropy::JITTER_ROUNDS;
pub use entropy::MAX_SAMPLES;
pub use hardware::gate_elapsed;
pub use hardware::gate_open;
pub use hardware::Hardware;
pub use hardware::TICK_THRESHOLD;
pub use keyboard::key_matches;
pub use keyboard::key_matches_spec;
pub use keyboard::lemma_no_code_no_key;
pub use keyboard::lemma_shared_scan_codes;
pub use keyboard::map_key;
pub use keyboard::scan_code_for;
pub use keyboard::Keyboard;
pub use keyboard::ScanPort;
pub use time::clock_scale;
pub use time::lemma_clock_monotonic;
pub use time::scale_cycles;
pub use time::CountingTimeSource;
pub use time::InstrumentedTime;
pub use time::RawTimeSource;
pub use time::CLOCK_DIVISOR;
pub use time::MAX_ADVANCE;
