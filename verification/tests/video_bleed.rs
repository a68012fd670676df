use chip8_hal::Display;
use chip8_hal::RamVideoMemory;
use chip8_hal::VideoMemory;
use chip8_hal::PIXEL_OFF;
use chip8_hal::PIXEL_ON;
use chip8_hal::SCALE;
use chip8_hal::WIDTH;

const VRAM_LEN: usize = 64000;

fn sentinel_filled(sentinel: u8) -> RamVideoMemory {
    let mut mem = RamVideoMemory::new(VRAM_LEN);
    for i in 0..VRAM_LEN {
        mem.write_byte(i, sentinel);
    }
    mem
}

#[test]
fn set_touches_exactly_the_pixel_block() {
    let sentinel: u8 = 0x77;
    let mut d = Display::new(sentinel_filled(sentinel));
    let (x, y) = (7usize, 9usize);
    d.set(x, y, true);
    let bytes = d.vram();
    for i in 0..VRAM_LEN {
        let px = i % WIDTH;
        let py = i / WIDTH;
        let in_block = px >= x * SCALE && px < x * SCALE + SCALE && py >= y * SCALE && py < y
            * SCALE + SCALE;
        if in_block {
            assert_eq!(bytes.read_byte(i), PIXEL_ON);
        } else {
            assert_eq!(bytes.read_byte(i), sentinel);
        }
    }
}

#[test]
fn set_off_writes_the_off_byte_to_the_whole_block() {
    let sentinel: u8 = 0x33;
    let mut d = Display::new(sentinel_filled(sentinel));
    d.set(0, 0, false);
    let bytes = d.vram();
    for xo in 0..SCALE {
        for yo in 0..SCALE {
            assert_eq!(bytes.read_byte(xo + yo * WIDTH), PIXEL_OFF);
        }
    }
    assert_eq!(bytes.read_byte(SCALE), sentinel);
    assert_eq!(bytes.read_byte(SCALE * WIDTH), sentinel);
}
