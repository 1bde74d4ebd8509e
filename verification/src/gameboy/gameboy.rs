//! The console: the processor and the bus, stepped together.

use vstd::prelude::*;
use crate::gameboy::bus::{Bus, BusState};
use crate::gameboy::cartridge::controller::{cartridge_of, copy_bytes, Cartridge};
use crate::gameboy::cartridge::header::{
    image_fault, CartridgeError, CartridgeHeader, CARTRIDGE_HEADER_SIZE, HEADER_START,
};

use crate::gameboy::cpu::{pair, CPU};
use crate::gameboy::flags_register::FlagsRegister;
use crate::gameboy::pixel::{gray_of, palette_shade, Pixel};
use crate::gameboy::ppu_state::FRAME_CYCLES;
use crate::gameboy::register::Registers;
use crate::gameboy::semantics::{step, Machine, Outcome};

verus! {

/// The console.
pub struct GameBoy {
    pub cpu: CPU,
    pub bus: Bus,
    /// The header of the cartridge that was loaded last.
    pub cartridge_header: Option<CartridgeHeader>,
}

/// One step of the console: the processor takes a step, and then the time
/// that the step took passes on the bus.
#[verifier::opaque]
pub open spec fn advance(m: Machine) -> Outcome {
    let stepped = step(m.cpu, m.bus);
    Outcome { cpu: stepped.cpu, bus: stepped.bus.tick(stepped.cycles), cycles: stepped.cycles }
}

/// The console after `count` steps.
pub open spec fn after_steps(m: Machine, count: nat) -> Machine
    decreases count,
{
    if count == 0 {
        m
    } else {
        let last = advance(after_steps(m, (count - 1) as nat));
        Machine { cpu: last.cpu, bus: last.bus }
    }
}

/// The T-cycles that the first `count` steps take.
pub open spec fn cycles_after(m: Machine, count: nat) -> nat
    decreases count,
{
    if count == 0 {
        0
    } else {
        cycles_after(m, (count - 1) as nat) + advance(
            after_steps(m, (count - 1) as nat),
        ).cycles as nat
    }
}

/// Whether PC is at one of the breakpoints after `count` steps.
pub open spec fn at_breakpoint(m: Machine, breakpoints: Option<Seq<u16>>, count: nat) -> bool {
    breakpoints matches Some(addresses) && addresses.contains(
        after_steps(m, count).cpu.registers.pc,
    )
}

/// Whether a frame that starts at `m` ends after `count` steps: no earlier
/// step has reached a breakpoint or filled the frame's T-cycles, and this
/// one has reached a breakpoint (`hit`) or, failing that, has filled them.
pub open spec fn frame_ends(m: Machine, breakpoints: Option<Seq<u16>>, count: nat, hit: bool) -> bool {
    &&& count >= 1
    &&& forall|k: nat|
        1 <= k < count ==> !at_breakpoint(m, breakpoints, k) && #[trigger] cycles_after(m, k)
            < FRAME_CYCLES
    &&& hit == at_breakpoint(m, breakpoints, count)
    &&& !hit ==> cycles_after(m, count) >= FRAME_CYCLES
}

/// The addresses of the breakpoints, if there are any.
pub open spec fn breakpoint_set(breakpoints: Option<&Vec<u16>>) -> Option<Seq<u16>> {
    match breakpoints {
        Some(addresses) => Some(addresses@),
        None => None,
    }
}

/// Whether a frame that starts at `m` ends after `count` steps and leaves
/// the console at `end`.
pub open spec fn frame_runs(
    m: Machine,
    breakpoints: Option<Seq<u16>>,
    count: nat,
    hit: bool,
    end: Machine,
) -> bool {
    frame_ends(m, breakpoints, count, hit) && end == after_steps(m, count)
}

/// The processor at power-on, before the boot program has run: every
/// register zero.
pub open spec fn power_on() -> CPU {
    CPU {
        registers: Registers {
            a: 0,
            b: 0,
            c: 0,
            d: 0,
            e: 0,
            f: FlagsRegister::from_byte(0),
            h: 0,
            l: 0,
            pc: 0,
            sp: 0,
        },
        ..CPU::initial()
    }
}

/// The bytes of a picture of 128 by 256 pixels of tile colours, shown
/// through a palette as gray RGBA.
pub open spec fn picture_byte(display: [[Pixel; 128]; 256], palette: u8, i: int) -> u8 {
    if i % 4 == 3 {
        0xFF
    } else {
        gray_of(palette_shade(palette, display[i / 4 / 128][i / 4 % 128].number()))
    }
}

/// Whether `address` is one of `addresses`.
fn contains_address(addresses: &Vec<u16>, address: u16) -> (found: bool)
    ensures
        found == addresses@.contains(address),
{
    let mut i: usize = 0;
    while i < addresses.len()
        invariant
            i <= addresses@.len(),
            forall|j: int| 0 <= j < i ==> addresses@[j] != address,
        decreases addresses@.len() - i,
    {
        if addresses[i] == address {
            return true;
        }
        i = i + 1;
    }
    false
}

impl GameBoy {
    /// The console's invariant.
    pub open spec fn wf(&self) -> bool {
        self.bus.wf()
    }

    /// The processor and the bus.
    pub open spec fn machine(&self) -> Machine {
        pair(self.cpu, self.bus@)
    }

    /// A console with an empty cartridge slot, its processor as the boot
    /// program leaves it.
    pub fn new() -> (gameboy: Self)
        ensures
            gameboy.wf(),
            gameboy.machine() == pair(CPU::initial(), BusState::initial()),
            gameboy.cartridge_header.is_none(),
    {
        GameBoy { cpu: CPU::new(), bus: Bus::new(), cartridge_header: None }
    }

    /// Run for one frame: step until 70224 T-cycles have gone by.
    pub fn tick(&mut self)
        requires
            old(self).wf(),
        ensures
            final(self).wf(),
            exists|count: nat|
                #[trigger] frame_runs(
                    old(self).machine(),
                    None,
                    count,
                    false,
                    final(self).machine(),
                ),
    {
        self.tick_bp(None);
    }

    /// Run for one frame, but stop as soon as a step leaves PC at one of
    /// the breakpoints. The result says whether that happened.
    pub fn tick_bp(&mut self, _breakpoints: Option<&Vec<u16>>) -> (hit: bool)
        requires
            old(self).wf(),
        ensures
            final(self).wf(),
            exists|count: nat|
                #[trigger] frame_runs(
                    old(self).machine(),
                    breakpoint_set(_breakpoints),
                    count,
                    hit,
                    final(self).machine(),
                ),
    {
        let ghost start = self.machine();
        let ghost breakpoints: Option<Seq<u16>> = breakpoint_set(_breakpoints);
        let ghost mut count: nat = 0;
        let mut current_frame_cycles: u32 = 0;
        while current_frame_cycles < FRAME_CYCLES
            invariant
                self.wf(),
                current_frame_cycles == cycles_after(start, count),
                current_frame_cycles < FRAME_CYCLES + 256,
                self.machine() == after_steps(start, count),
                breakpoints == breakpoint_set(_breakpoints),
                start == old(self).machine(),
                forall|k: nat| 1 <= k <= count ==> !#[trigger] at_breakpoint(start, breakpoints, k),
                forall|k: nat| 1 <= k < count ==> #[trigger] cycles_after(start, k) < FRAME_CYCLES,
                count == 0 ==> current_frame_cycles == 0,
            decreases FRAME_CYCLES + 256 - current_frame_cycles,
        {
            let ghost before_cycles = current_frame_cycles;
            let ghost before_count = count;
            let cycles = self.step();
            current_frame_cycles = current_frame_cycles + cycles as u32;
            proof {
                count = count + 1;
                assert(cycles_after(start, count) == current_frame_cycles);
                assert forall|k: nat| 1 <= k < count implies #[trigger] cycles_after(start, k)
                    < FRAME_CYCLES by {
                    if k == before_count {
                        assert(cycles_after(start, k) == before_cycles);
                    }
                }
            }
            let at_one = match _breakpoints {
                Some(addresses) => contains_address(addresses, self.cpu.registers.pc),
                None => false,
            };
            assert(at_one == at_breakpoint(start, breakpoints, count));
            if at_one {
                assert(frame_runs(start, breakpoints, count, true, self.machine()));
                return true;
            }
        }
        assert(count >= 1);
        assert(frame_runs(start, breakpoints, count, false, self.machine()));
        false
    }

    /// Execute one step of the processor and let its time pass on the
    /// bus. The result is the number of T-cycles.
    pub fn step(&mut self) -> (cycles: u8)
        requires
            old(self).wf(),
        ensures
            final(self).wf(),
            final(self).cartridge_header == old(self).cartridge_header,
            (Outcome { cpu: final(self).cpu, bus: final(self).bus@, cycles }) == advance(
                old(self).machine(),
            ),
            cycles >= 4,
            cycles % 4 == 0,
    {
        proof {
            reveal(advance);
        }
        let cycles: u8 = self.cpu.step(&mut self.bus);
        self.bus.tick(cycles);
        cycles
    }

    /// Load a cartridge image. The image's header chooses the controller.
    /// An image that is cut short, that names a controller that is not
    /// emulated, or whose size is not the size that its header declares is
    /// refused, and the console stays as it was.
    pub fn read_rom(&mut self, buffer: &Vec<u8>) -> (result: Result<(), CartridgeError>)
        requires
            old(self).wf(),
        ensures
            final(self).wf(),
            final(self).cpu == old(self).cpu,
            match result {
                Ok(()) => {
                    &&& image_fault(buffer@).is_none()
                    &&& final(self).bus@ == (BusState {
                        cart: cartridge_of(buffer@),
                        ..old(self).bus@
                    })
                    &&& final(self).cartridge_header matches Some(header) && header.describes(
                        buffer@.subrange(
                            HEADER_START as int,
                            HEADER_START + CARTRIDGE_HEADER_SIZE,
                        ),
                    )
                },
                Err(fault) => {
                    &&& image_fault(buffer@) == Some(fault)
                    &&& final(self).bus@ == old(self).bus@
                    &&& final(self).cartridge_header == old(self).cartridge_header
                },
            },
    {
        match Cartridge::from_image(buffer.as_slice()) {
            Ok(cartridge) => {
                let header = CartridgeHeader::new(
                    vstd::slice::slice_subrange(
                        buffer.as_slice(),
                        HEADER_START,
                        HEADER_START + CARTRIDGE_HEADER_SIZE,
                    ),
                );
                self.cartridge_header = Some(header);
                self.bus.mbc = cartridge;
                Ok(())
            },
            Err(fault) => Err(fault),
        }
    }

    /// Load the boot program, map it at 0x0000 to 0x00FF, and put the
    /// processor at its power-on state so that it runs the program.
    pub fn read_boot_rom(&mut self, buffer: &Vec<u8>)
        requires
            old(self).wf(),
            buffer@.len() <= 0x100,
        ensures
            final(self).wf(),
            final(self).bus@ == old(self).bus@.load_boot_rom(buffer@),
            final(self).cpu == power_on(),
            final(self).cartridge_header == old(self).cartridge_header,
    {
        self.bus.ram_load_boot_rom(buffer);
        self.cpu = CPU {
            registers: Registers {
                a: 0,
                b: 0,
                c: 0,
                d: 0,
                e: 0,
                f: FlagsRegister::new(),
                h: 0,
                l: 0,
                pc: 0,
                sp: 0,
            },
            ime: false,
            ime_scheduled: false,
            halted: false,
            halt_bug: false,
            locked: false,
        };
    }

    /// Copy the frame buffer: 160 by 144 pixels of four bytes, RGBA.
    pub fn export_display(&self, buffer: &mut Vec<u8>)
        ensures
            final(buffer)@ == self.bus@.ppu.screen,
    {
        *buffer = copy_bytes(self.bus.ppu.get_display().as_slice());
    }

    /// Copy a picture of the 384 tiles, 16 to a row, shown through the
    /// background palette: 128 by 256 pixels of four bytes, of which the
    /// last 64 rows show colour 0.
    pub fn export_tile_map_display(&self, buffer: &mut Vec<u8>)
        ensures
            final(buffer)@.len() == 128 * 256 * 4,
            forall|y: int, x: int, k: int|
                0 <= y < 256 && 0 <= x < 128 && 0 <= k < 4 ==> #[trigger] final(buffer)@[(y
                    * 128 + x) * 4 + k] == (if k == 3 {
                    0xFFu8
                } else {
                    gray_of(
                        palette_shade(
                            self.bus.ppu.bg_palette,
                            if y < 192 {
                                self.bus.ppu.tile_set[y / 8 * 16 + x / 8][y % 8][x % 8].number()
                            } else {
                                0
                            },
                        ),
                    )
                }),
    {
        let blank_row: [Pixel; 128] = [Pixel::Zero; 128];
        let mut tile_map_screen: [[Pixel; 128]; 256] = [blank_row; 256];
        self.bus.ppu.get_debug_display(&mut tile_map_screen);
        self.convert_disply_to_vec(&tile_map_screen, buffer);
        proof {
            assert forall|y: int, x: int, k: int|
                0 <= y < 256 && 0 <= x < 128 && 0 <= k < 4 implies #[trigger] buffer@[(y * 128
                + x) * 4 + k] == (if k == 3 {
                0xFFu8
            } else {
                gray_of(
                    palette_shade(
                        self.bus.ppu.bg_palette,
                        if y < 192 {
                            self.bus.ppu.tile_set[y / 8 * 16 + x / 8][y % 8][x % 8].number()
                        } else {
                            0
                        },
                    ),
                )
            }) by {
                let i = (y * 128 + x) * 4 + k;
                assert(buffer@[i] == picture_byte(tile_map_screen, self.bus.ppu.bg_palette, i));
                assert(i % 4 == k);
                assert(i / 4 == y * 128 + x);
                assert((y * 128 + x) / 128 == y);
                assert((y * 128 + x) % 128 == x);
                if y >= 192 {
                    assert(tile_map_screen[y] == blank_row);
                    assert(blank_row[x] == Pixel::Zero);
                }
            }
        }
    }

    /// Show a picture of tile colours through the background palette, as
    /// gray RGBA.
    fn convert_disply_to_vec(&self, display: &[[Pixel; 128]; 256], buffer: &mut Vec<u8>)
        ensures
            final(buffer)@.len() == 128 * 256 * 4,
            forall|i: int|
                0 <= i < 128 * 256 * 4 ==> #[trigger] final(buffer)@[i] == picture_byte(
                    *display,
                    self.bus.ppu.bg_palette,
                    i,
                ),
    {
        let mut pixels: Vec<u8> = Vec::with_capacity(128 * 256 * 4);
        let pallete = self.bus.ppu.bg_palette;
        let mut n: usize = 0;
        while n < 128 * 256
            invariant
                n <= 128 * 256,
                pallete == self.bus.ppu.bg_palette,
                pixels@.len() == 4 * n,
                forall|i: int|
                    0 <= i < 4 * n ==> #[trigger] pixels@[i] == picture_byte(
                        *display,
                        pallete,
                        i,
                    ),
            decreases 128 * 256 - n,
        {
            let row: &[Pixel; 128] = &display[n / 128];
            let pixel = row[n % 128];
            let (gray_value, _, _) = self.bus.ppu.decode_bg_pixel(pixel);
            pixels.push(gray_value);
            pixels.push(gray_value);
            pixels.push(gray_value);
            pixels.push(0xFF);
            n = n + 1;
        }
        *buffer = pixels;
    }
}

} // verus!
