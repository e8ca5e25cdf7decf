use vstd::prelude::*;

verus! {

/// Number of bytes of the emulated memory (`0x000..=0x3FF`).
pub const ROM_SIZE: usize = 1024;

/// Address at which the example program's data array is placed.
pub const DATA_BASE: usize = 0x200;

/// The byte-addressed memory of the emulated machine (`0x000..=0x3FF`).
#[derive(Debug, Copy, Clone)]
pub struct Rom {
    pub rom_data: [u8; 1024],
}

impl View for Rom {
    type V = Seq<u8>;

    open spec fn view(&self) -> Seq<u8> {
        self.rom_data@
    }
}

/// The byte at address `a`, zero-extended to a word.
pub open spec fn load_u8(m: Seq<u8>, a: int) -> u32 {
    m[a] as u32
}

/// The little-endian half word at addresses `a` and `a + 1`, zero-extended.
pub open spec fn load_u16(m: Seq<u8>, a: int) -> u32 {
    (m[a] + 256 * m[a + 1]) as u32
}

/// The little-endian word at addresses `a ..= a + 3`.
pub open spec fn load_u32(m: Seq<u8>, a: int) -> u32 {
    (m[a] + 256 * m[a + 1] + 65536 * m[a + 2] + 16777216 * m[a + 3]) as u32
}

/// The memory `m` with its byte at `a` replaced by the low byte of `v`.
pub open spec fn store_u8(m: Seq<u8>, a: int, v: u32) -> Seq<u8> {
    m.update(a, (v % 256) as u8)
}

/// The memory `m` with the two low bytes of `v` written little-endian at `a`.
pub open spec fn store_u16(m: Seq<u8>, a: int, v: u32) -> Seq<u8> {
    store_u8(store_u8(m, a, v), a + 1, v / 256)
}

/// The memory `m` with the four bytes of `v` written little-endian at `a`.
pub open spec fn store_u32(m: Seq<u8>, a: int, v: u32) -> Seq<u8> {
    store_u8(store_u8(store_u16(m, a, v), a + 2, v / 65536), a + 3, v / 16777216)
}

/// The memory `m` with `bytes` copied in, starting at address `at`.
pub open spec fn with_bytes(m: Seq<u8>, at: int, bytes: Seq<u8>) -> Seq<u8> {
    Seq::new(
        m.len(),
        |j: int|
            if at <= j < at + bytes.len() {
                bytes[j - at]
            } else {
                m[j]
            },
    )
}

/// The machine code of the example program: an insertion sort of the four
/// words at `DATA_BASE`, followed by an endless jump to itself.
pub open spec fn example_program() -> Seq<u8> {
    seq![
        0x13u8, 0x05, 0x00, 0x20,
        0x93, 0x05, 0x40, 0x00,
        0x93, 0x06, 0x40, 0x20,
        0x13, 0x07, 0x10, 0x00,
        0x63, 0x64, 0xb7, 0x00,
        0x6F, 0x00, 0x00, 0x04,
        0x03, 0xa8, 0x06, 0x00,
        0x13, 0x86, 0x06, 0x00,
        0x93, 0x07, 0x07, 0x00,
        0x83, 0x28, 0xC6, 0xFF,
        0x63, 0x5a, 0x18, 0x01,
        0x23, 0x20, 0x16, 0x01,
        0x93, 0x87, 0xF7, 0xFF,
        0x13, 0x06, 0xC6, 0xFF,
        0xE3, 0x96, 0x07, 0xFE,
        0x93, 0x97, 0x27, 0x00,
        0xB3, 0x07, 0xF5, 0x00,
        0x23, 0xA0, 0x07, 0x01,
        0x13, 0x07, 0x17, 0x00,
        0x93, 0x86, 0x46, 0x00,
        0x6F, 0xF0, 0x1F, 0xFC,
        0x6F, 0x00, 0x00, 0x00,
    ]
}

/// The example data: the little-endian words 6, 4, 7 and 1.
pub open spec fn example_data() -> Seq<u8> {
    seq![
        0x06u8, 0x00, 0x00, 0x00,
        0x04, 0x00, 0x00, 0x00,
        0x07, 0x00, 0x00, 0x00,
        0x01, 0x00, 0x00, 0x00,
    ]
}

impl Rom {
    /// The byte at `a`, zero-extended.
    pub(crate) fn read_u8(&self, a: usize) -> (v: u32)
        requires
            a < 1024,
        ensures
            v == load_u8(self@, a as int),
    {
        self.rom_data[a] as u32
    }

    /// The little-endian half word at `a`, zero-extended.
    pub(crate) fn read_u16(&self, a: usize) -> (v: u32)
        requires
            a + 1 < 1024,
        ensures
            v == load_u16(self@, a as int),
    {
        let b0 = self.rom_data[a] as u32;
        let b1 = self.rom_data[a + 1] as u32;
        b0 + b1 * 256
    }

    /// The little-endian word at `a`.
    pub(crate) fn read_u32(&self, a: usize) -> (v: u32)
        requires
            a + 3 < 1024,
        ensures
            v == load_u32(self@, a as int),
    {
        let b0 = self.rom_data[a] as u32;
        let b1 = self.rom_data[a + 1] as u32;
        let b2 = self.rom_data[a + 2] as u32;
        let b3 = self.rom_data[a + 3] as u32;
        b0 + b1 * 256 + b2 * 65536 + b3 * 16777216
    }

    /// Writes the low byte of `v` at `a`.
    pub(crate) fn write_u8(&mut self, a: usize, v: u32)
        requires
            a < 1024,
        ensures
            final(self)@ == store_u8(old(self)@, a as int, v),
    {
        self.rom_data[a] = (v % 256) as u8;
    }

    /// Writes the two low bytes of `v`, little-endian, at `a`.
    pub(crate) fn write_u16(&mut self, a: usize, v: u32)
        requires
            a + 1 < 1024,
        ensures
            final(self)@ == store_u16(old(self)@, a as int, v),
    {
        self.write_u8(a, v);
        self.write_u8(a + 1, v / 256);
    }

    /// Writes the four bytes of `v`, little-endian, at `a`.
    pub(crate) fn write_u32(&mut self, a: usize, v: u32)
        requires
            a + 3 < 1024,
        ensures
            final(self)@ == store_u32(old(self)@, a as int, v),
    {
        self.write_u16(a, v);
        self.write_u8(a + 2, v / 65536);
        self.write_u8(a + 3, v / 16777216);
    }

    /// A memory whose every byte is zero.
    pub fn new() -> (rom: Rom)
        ensures
            rom@ == Seq::new(1024, |i: int| 0u8),
    {
        Rom { rom_data: [0; 1024] }
    }

    /// Loads the example program at address 0 and its data at `DATA_BASE`;
    /// every other byte keeps its value.
    pub fn write_example(&mut self)
        ensures
            final(self)@ == with_bytes(
                with_bytes(old(self)@, 0, example_program()),
                DATA_BASE as int,
                example_data(),
            ),
    {
        let example: [u8; 88] = [
            0x13, 0x05, 0x00, 0x20,
            0x93, 0x05, 0x40, 0x00,
            0x93, 0x06, 0x40, 0x20,
            0x13, 0x07, 0x10, 0x00,
            0x63, 0x64, 0xb7, 0x00,
            0x6F, 0x00, 0x00, 0x04,
            0x03, 0xa8, 0x06, 0x00,
            0x13, 0x86, 0x06, 0x00,
            0x93, 0x07, 0x07, 0x00,
            0x83, 0x28, 0xC6, 0xFF,
            0x63, 0x5a, 0x18, 0x01,
            0x23, 0x20, 0x16, 0x01,
            0x93, 0x87, 0xF7, 0xFF,
            0x13, 0x06, 0xC6, 0xFF,
            0xE3, 0x96, 0x07, 0xFE,
            0x93, 0x97, 0x27, 0x00,
            0xB3, 0x07, 0xF5, 0x00,
            0x23, 0xA0, 0x07, 0x01,
            0x13, 0x07, 0x17, 0x00,
            0x93, 0x86, 0x46, 0x00,
            0x6F, 0xF0, 0x1F, 0xFC,
            0x6F, 0x00, 0x00, 0x00,
        ];
        let data: [u8; 16] = [
            0x06, 0x00, 0x00, 0x00,
            0x04, 0x00, 0x00, 0x00,
            0x07, 0x00, 0x00, 0x00,
            0x01, 0x00, 0x00, 0x00,
        ];
        assert(example@ =~= example_program());
        assert(data@ =~= example_data());
        let ghost start = self.rom_data@;
        let mut i: usize = 0;
        while i < 88
            invariant
                0 <= i <= 88,
                example@ == example_program(),
                self.rom_data@.len() == 1024,
                forall|j: int|
                    0 <= j < 1024 ==> #[trigger] self.rom_data@[j] == if j < i {
                        example_program()[j]
                    } else {
                        start[j]
                    },
            decreases 88 - i,
        {
            self.rom_data[i] = example[i];
            i = i + 1;
        }
        let ghost mid = self.rom_data@;
        assert(mid =~= with_bytes(start, 0, example_program()));
        let mut k: usize = 0;
        while k < 16
            invariant
                0 <= k <= 16,
                data@ == example_data(),
                self.rom_data@.len() == 1024,
                forall|j: int|
                    0 <= j < 1024 ==> #[trigger] self.rom_data@[j] == if 0x200 <= j < 0x200 + k {
                        example_data()[j - 0x200]
                    } else {
                        mid[j]
                    },
            decreases 16 - k,
        {
            self.rom_data[DATA_BASE + k] = data[k];
            k = k + 1;
        }
        assert(self.rom_data@ =~= with_bytes(mid, DATA_BASE as int, example_data()));
    }
}

} // verus!
