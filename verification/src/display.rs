//! The scaled logical display.
//!
//! A logical pixel occupies a `SCALE x SCALE` block of physical bytes inside
//! a linear video region of fixed physical width `WIDTH`, one byte per
//! physical pixel. `set` fills the whole block with the on or off byte;
//! `get` reads only the block's top-left byte.

use vstd::prelude::*;

verus! {

/// Physical width of the video region, in bytes per scan line.
pub const WIDTH: usize = 320;

/// Edge length of the square block of physical bytes backing one logical pixel.
pub const SCALE: usize = 4;

/// Byte written for a lit physical pixel.
pub const PIXEL_ON: u8 = 0x0f;

/// Byte written for a dark physical pixel.
pub const PIXEL_OFF: u8 = 0x00;

/// The byte a logical pixel's block is filled with.
pub open spec fn color_of(on: bool) -> u8 {
    if on {
        PIXEL_ON
    } else {
        PIXEL_OFF
    }
}

/// Physical byte offset of element (xo, yo) of the block backing logical
/// pixel (x, y).
pub open spec fn block_offset(x: int, y: int, xo: int, yo: int) -> int {
    (x * (SCALE as int) + xo) + (y * (SCALE as int) + yo) * (WIDTH as int)
}

/// Offset `i` lies inside the block backing logical pixel (x, y): it is one
/// of the physical offsets in `[x*SCALE, x*SCALE + SCALE) x [y*SCALE,
/// y*SCALE + SCALE)`.
pub open spec fn in_block(x: int, y: int, i: int) -> bool {
    exists|xo: int, yo: int|
        0 <= xo < SCALE as int && 0 <= yo < SCALE as int && i == block_offset(x, y, xo, yo)
}

/// The video contents after logical pixel (x, y) is set to `on`: every byte
/// of the pixel's block holds the pixel's color, every other byte is kept.
pub open spec fn set_spec(mem: Seq<u8>, x: int, y: int, on: bool) -> Seq<u8> {
    Seq::new(
        mem.len(),
        |i: int|
            if in_block(x, y, i) {
                color_of(on)
            } else {
                mem[i]
            },
    )
}

/// What reading logical pixel (x, y) reports: whether the block's top-left
/// byte is lit. The rest of the block is not consulted.
pub open spec fn get_spec(mem: Seq<u8>, x: int, y: int) -> bool {
    mem[block_offset(x, y, 0, 0)] == PIXEL_ON
}

/// The narrow boundary to byte-addressed video memory: a linear region read
/// and written one byte at a time, behaving as memory. `RamVideoMemory` is
/// the verified in-crate model; a platform layer may implement the same
/// boundary over a real memory-mapped region.
pub trait VideoMemory: Sized {
    /// Current contents of the region.
    spec fn bytes(&self) -> Seq<u8>;

    fn write_byte(&mut self, offset: usize, value: u8)
        requires
            offset < old(self).bytes().len(),
        ensures
            final(self).bytes() == old(self).bytes().update(offset as int, value),
    ;

    fn read_byte(&self, offset: usize) -> (r: u8)
        requires
            offset < self.bytes().len(),
        ensures
            r == self.bytes()[offset as int],
    ;
}

/// Video memory modeled as plain bytes owned by this process.
pub struct RamVideoMemory {
    data: Vec<u8>,
}

impl RamVideoMemory {
    /// A zeroed region of `len` bytes.
    pub fn new(len: usize) -> (r: Self)
        ensures
            r.bytes() == Seq::new(len as nat, |i: int| 0u8),
    {
        let mut data: Vec<u8> = Vec::new();
        while data.len() < len
            invariant
                data@.len() <= len,
                forall|i: int| 0 <= i < data@.len() ==> data@[i] == 0u8,
            decreases len - data.len(),
        {
            data.push(0u8);
        }
        proof {
            assert(data@ =~= Seq::new(len as nat, |i: int| 0u8));
        }
        RamVideoMemory { data }
    }
}

impl VideoMemory for RamVideoMemory {
    closed spec fn bytes(&self) -> Seq<u8> {
        self.data@
    }

    fn write_byte(&mut self, offset: usize, value: u8) {
        self.data[offset] = value;
    }

    fn read_byte(&self, offset: usize) -> (r: u8) {
        self.data[offset]
    }
}

/// A scaled logical display over a linear video region.
pub struct Display<M: VideoMemory> {
    vram: M,
}

impl<M: VideoMemory> Display<M> {
    /// The bytes of the backing video region.
    pub closed spec fn mem(&self) -> Seq<u8> {
        self.vram.bytes()
    }

    pub fn new(vram: M) -> (r: Self)
        ensures
            r.mem() == vram.bytes(),
    {
        Display { vram }
    }

    /// Set logical pixel (x, y): fill its whole block with the on or off
    /// byte. An out-of-range coordinate is a precondition violation, not a
    /// recoverable error: the block must lie inside the video region.
    pub fn set(&mut self, x: usize, y: usize, on: bool)
        requires
            block_offset(x as int, y as int, SCALE as int - 1, SCALE as int - 1) < old(
                self,
            ).mem().len(),
            old(self).mem().len() <= usize::MAX,
        ensures
            final(self).mem() == set_spec(old(self).mem(), x as int, y as int, on),
    {
        let ghost m0 = self.mem();
        let col: u8 = if on {
            PIXEL_ON
        } else {
            PIXEL_OFF
        };
        let mut xo: usize = 0;
        while xo < SCALE
            invariant
                xo <= SCALE,
                col == color_of(on),
                block_offset(x as int, y as int, SCALE as int - 1, SCALE as int - 1) < m0.len(),
                m0.len() <= usize::MAX,
                self.mem().len() == m0.len(),
                forall|a: int, b: int|
                    0 <= a < xo && 0 <= b < SCALE as int ==> self.mem()[block_offset(
                        x as int,
                        y as int,
                        a,
                        b,
                    )] == col,
                forall|i: int|
                    0 <= i < m0.len() && !in_block(x as int, y as int, i) ==> self.mem()[i]
                        == m0[i],
            decreases SCALE - xo,
        {
            let mut yo: usize = 0;
            while yo < SCALE
                invariant
                    xo < SCALE,
                    yo <= SCALE,
                    col == color_of(on),
                    block_offset(x as int, y as int, SCALE as int - 1, SCALE as int - 1)
                        < m0.len(),
                    m0.len() <= usize::MAX,
                    self.mem().len() == m0.len(),
                    forall|a: int, b: int|
                        0 <= a < xo && 0 <= b < SCALE as int ==> self.mem()[block_offset(
                            x as int,
                            y as int,
                            a,
                            b,
                        )] == col,
                    forall|b: int|
                        0 <= b < yo ==> self.mem()[block_offset(x as int, y as int, xo as int, b)]
                            == col,
                    forall|i: int|
                        0 <= i < m0.len() && !in_block(x as int, y as int, i) ==> self.mem()[i]
                            == m0[i],
                decreases SCALE - yo,
            {
                proof {
                    assert(block_offset(x as int, y as int, xo as int, yo as int) <= block_offset(
                        x as int,
                        y as int,
                        SCALE as int - 1,
                        SCALE as int - 1,
                    ));
                    assert(0 <= block_offset(x as int, y as int, xo as int, yo as int));
                }
                let i: usize = (x * SCALE + xo) + (y * SCALE + yo) * WIDTH;
                let ghost before = self.mem();
                self.vram.write_byte(i, col);
                proof {
                    assert(in_block(x as int, y as int, i as int)) by {
                        assert(i as int == block_offset(x as int, y as int, xo as int, yo as int));
                    }
                    assert forall|j: int|
                        0 <= j < m0.len() && !in_block(x as int, y as int, j) implies self.mem()[j]
                        == m0[j] by {
                        assert(j != i as int);
                        assert(self.mem()[j] == before[j]);
                    }
                }
                yo = yo + 1;
            }
            xo = xo + 1;
        }
        proof {
            assert forall|a: int, b: int|
                0 <= a < SCALE as int && 0 <= b
                    < SCALE as int implies #[trigger] self.mem()[block_offset(
                x as int,
                y as int,
                a,
                b,
            )] == col by {}
            assert forall|i: int| 0 <= i < m0.len() implies self.mem()[i] == set_spec(
                m0,
                x as int,
                y as int,
                on,
            )[i] by {
                if in_block(x as int, y as int, i) {
                    let (a, b) = choose|a: int, b: int|
                        0 <= a < SCALE as int && 0 <= b < SCALE as int && i == block_offset(
                            x as int,
                            y as int,
                            a,
                            b,
                        );
                    assert(self.mem()[block_offset(x as int, y as int, a, b)] == col);
                }
            }
            assert(self.mem() =~= set_spec(m0, x as int, y as int, on));
        }
    }

    /// Borrow the backing video region, for callers that inspect raw bytes.
    pub fn vram(&self) -> (r: &M)
        ensures
            r.bytes() == self.mem(),
    {
        &self.vram
    }

    /// Read logical pixel (x, y) from its block's top-left byte. The block's
    /// top-left byte must lie inside the video region.
    pub fn get(&self, x: usize, y: usize) -> (r: bool)
        requires
            block_offset(x as int, y as int, 0, 0) < self.mem().len(),
            self.mem().len() <= usize::MAX,
        ensures
            r == get_spec(self.mem(), x as int, y as int),
    {
        proof {
            assert(0 <= block_offset(x as int, y as int, 0, 0));
        }
        let i: usize = x * SCALE + y * SCALE * WIDTH;
        self.vram.read_byte(i) == PIXEL_ON
    }
}

/// Law: reading a pixel straight after writing it reports the written value.
pub proof fn lemma_get_after_set(mem: Seq<u8>, x: int, y: int, on: bool)
    requires
        0 <= x,
        0 <= y,
        block_offset(x, y, SCALE as int - 1, SCALE as int - 1) < mem.len(),
    ensures
        get_spec(set_spec(mem, x, y, on), x, y) == on,
{
    let i0 = block_offset(x, y, 0, 0);
    assert(0 <= i0 <= block_offset(x, y, SCALE as int - 1, SCALE as int - 1));
    assert(in_block(x, y, i0)) by {
        assert(i0 == block_offset(x, y, 0, 0));
    }
    assert(set_spec(mem, x, y, on)[i0] == color_of(on));
}

/// Law: writing pixel (x, y) changes no byte outside the pixel's own block
/// of physical offsets.
pub proof fn lemma_set_untouched_outside_block(mem: Seq<u8>, x: int, y: int, on: bool, i: int)
    requires
        0 <= i < mem.len(),
        !in_block(x, y, i),
    ensures
        set_spec(mem, x, y, on)[i] == mem[i],
{
}

} // verus!
