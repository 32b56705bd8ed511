use vstd::prelude::*;

verus! {

/// Number of addressable bytes.
pub const MEMORY_SIZE: usize = 4096;

/// Highest valid address.
pub const MAX_ADDRESS: u16 = 0xFFF;

/// Where the built-in hexadecimal glyph table is written.
pub const FONT_START_ADDRESS: u16 = 0x00;

/// Number of bytes in the glyph table (16 glyphs of 5 rows).
pub const FONT_SIZE: usize = 80;

/// Where programs are loaded.
pub const PROGRAM_START_ADDRESS: u16 = 0x200;

/// The glyph table: digit `d` occupies bytes `5 * d .. 5 * d + 5`.
pub open spec fn font_table() -> Seq<u8> {
    seq![
        0xF0u8, 0x90, 0x90, 0x90, 0xF0, // 0
        0x20, 0x60, 0x20, 0x20, 0x70, // 1
        0xF0, 0x10, 0xF0, 0x80, 0xF0, // 2
        0xF0, 0x10, 0xF0, 0x10, 0xF0, // 3
        0x90, 0x90, 0xF0, 0x10, 0x10, // 4
        0xF0, 0x80, 0xF0, 0x10, 0xF0, // 5
        0xF0, 0x80, 0xF0, 0x90, 0xF0, // 6
        0xF0, 0x10, 0x20, 0x40, 0x40, // 7
        0xF0, 0x90, 0xF0, 0x90, 0xF0, // 8
        0xF0, 0x90, 0xF0, 0x10, 0xF0, // 9
        0xF0, 0x90, 0xF0, 0x90, 0x90, // A
        0xE0, 0x90, 0xE0, 0x90, 0xE0, // B
        0xF0, 0x80, 0x80, 0x80, 0xF0, // C
        0xE0, 0x90, 0x90, 0x90, 0xE0, // D
        0xF0, 0x80, 0xF0, 0x80, 0xF0, // E
        0xF0, 0x80, 0xF0, 0x80, 0x80, // F
    ]
}

/// Memory as it is on construction: the glyph table at its base address,
/// zero everywhere else.
pub open spec fn initial_memory() -> Seq<u8> {
    Seq::new(
        MEMORY_SIZE as nat,
        |a: int|
            if FONT_START_ADDRESS <= a < FONT_START_ADDRESS + FONT_SIZE {
                font_table()[a - FONT_START_ADDRESS]
            } else {
                0u8
            },
    )
}

/// `mem` with `program` copied in from the program start address on.
pub open spec fn with_program(mem: Seq<u8>, program: Seq<u8>) -> Seq<u8> {
    Seq::new(
        mem.len(),
        |a: int|
            if PROGRAM_START_ADDRESS <= a < PROGRAM_START_ADDRESS + program.len() {
                program[a - PROGRAM_START_ADDRESS]
            } else {
                mem[a]
            },
    )
}

/// The built-in glyph table.
pub fn load_fonts() -> (r: [u8; 80])
    ensures
        r@ == font_table(),
{
    let r: [u8; 80] = [
        0xF0, 0x90, 0x90, 0x90, 0xF0, // 0
        0x20, 0x60, 0x20, 0x20, 0x70, // 1
        0xF0, 0x10, 0xF0, 0x80, 0xF0, // 2
        0xF0, 0x10, 0xF0, 0x10, 0xF0, // 3
        0x90, 0x90, 0xF0, 0x10, 0x10, // 4
        0xF0, 0x80, 0xF0, 0x10, 0xF0, // 5
        0xF0, 0x80, 0xF0, 0x90, 0xF0, // 6
        0xF0, 0x10, 0x20, 0x40, 0x40, // 7
        0xF0, 0x90, 0xF0, 0x90, 0xF0, // 8
        0xF0, 0x90, 0xF0, 0x10, 0xF0, // 9
        0xF0, 0x90, 0xF0, 0x90, 0x90, // A
        0xE0, 0x90, 0xE0, 0x90, 0xE0, // B
        0xF0, 0x80, 0x80, 0x80, 0xF0, // C
        0xE0, 0x90, 0x90, 0x90, 0xE0, // D
        0xF0, 0x80, 0xF0, 0x80, 0xF0, // E
        0xF0, 0x80, 0xF0, 0x80, 0x80, // F
    ];
    assert(r@ =~= font_table());
    r
}

/// Flat byte-addressable memory, addresses `0..=0xFFF`.
pub struct EmulatedRam {
    pub data: [u8; 4096],
}

impl EmulatedRam {
    /// Zeroed memory holding the glyph table at `FONT_START_ADDRESS`.
    pub fn new() -> (r: Self)
        ensures
            r.data@ == initial_memory(),
    {
        let mut ram = EmulatedRam { data: [0u8; 4096] };
        let fonts = load_fonts();
        let mut i: usize = 0;
        while i < FONT_SIZE
            invariant
                i <= FONT_SIZE,
                fonts@ == font_table(),
                ram.data@.len() == MEMORY_SIZE,
                forall|a: int|
                    0 <= a < MEMORY_SIZE ==> #[trigger] ram.data@[a] == if FONT_START_ADDRESS
                        <= a < FONT_START_ADDRESS + i {
                        font_table()[a - FONT_START_ADDRESS]
                    } else {
                        0u8
                    },
            decreases FONT_SIZE - i,
        {
            ram.write_byte(FONT_START_ADDRESS + i as u16, fonts[i]);
            i += 1;
        }
        assert(ram.data@ =~= initial_memory());
        ram
    }

    /// The byte at `address`. Addresses above `MAX_ADDRESS` lie outside the
    /// contract: indexing there is out of bounds and panics.
    pub fn read_byte(&self, address: u16) -> (r: u8)
        requires
            address <= MAX_ADDRESS,
        ensures
            r == self.data@[address as int],
    {
        self.data[address as usize]
    }

    /// Stores `value` at `address`.
    pub fn write_byte(&mut self, address: u16, value: u8)
        requires
            address <= MAX_ADDRESS,
        ensures
            final(self).data@ == old(self).data@.update(address as int, value),
    {
        self.data[address as usize] = value;
    }

    /// Copies `program` into memory from `PROGRAM_START_ADDRESS` on.
    pub fn load_program(&mut self, program: Vec<u8>)
        requires
            program@.len() <= MEMORY_SIZE - PROGRAM_START_ADDRESS,
        ensures
            final(self).data@ == with_program(old(self).data@, program@),
    {
        let mut i: usize = 0;
        while i < program.len()
            invariant
                program@.len() <= MEMORY_SIZE - PROGRAM_START_ADDRESS,
                self.data@.len() == MEMORY_SIZE,
                i <= program@.len(),
                forall|a: int|
                    0 <= a < MEMORY_SIZE ==> #[trigger] self.data@[a] == if PROGRAM_START_ADDRESS
                        <= a < PROGRAM_START_ADDRESS + i {
                        program@[a - PROGRAM_START_ADDRESS]
                    } else {
                        old(self).data@[a]
                    },
            decreases program@.len() - i,
        {
            self.write_byte(PROGRAM_START_ADDRESS + i as u16, program[i]);
            i += 1;
        }
        assert(self.data@ =~= with_program(old(self).data@, program@));
    }
}

} // verus!
