//! The scanline pixel processor: LCD control and status registers, the
//! background compositor and the mode/scanline state machine.

use vstd::prelude::*;
use crate::memory::{Ei, MemView, Memory};

verus! {

/// The LCD control register, one flag per bit (bit 7 down to bit 0).
#[derive(Copy, Clone, PartialEq, Eq, Structural, Debug)]
pub struct Lcdc {
    pub lcd_control_op: bool,
    pub window_tmap_displ_select: bool,
    pub window_display: bool,
    pub bg_win_tile_data_select: bool,
    pub bg_tmap_display_select: bool,
    pub sprite_size: bool,
    pub sprite_display: bool,
    pub bg_win_display: bool,
}

/// The byte encoding of the LCD control register.
pub open spec fn u8_of_lcdc(l: Lcdc) -> u8 {
    (if l.lcd_control_op { 0x80u8 } else { 0u8 })
        | (if l.window_tmap_displ_select { 0x40u8 } else { 0u8 })
        | (if l.window_display { 0x20u8 } else { 0u8 })
        | (if l.bg_win_tile_data_select { 0x10u8 } else { 0u8 })
        | (if l.bg_tmap_display_select { 0x08u8 } else { 0u8 })
        | (if l.sprite_size { 0x04u8 } else { 0u8 })
        | (if l.sprite_display { 0x02u8 } else { 0u8 })
        | (if l.bg_win_display { 0x01u8 } else { 0u8 })
}

/// The LCD control register read back from a byte.
pub open spec fn lcdc_of_u8(v: u8) -> Lcdc {
    Lcdc {
        lcd_control_op: v & 0x80 != 0,
        window_tmap_displ_select: v & 0x40 != 0,
        window_display: v & 0x20 != 0,
        bg_win_tile_data_select: v & 0x10 != 0,
        bg_tmap_display_select: v & 0x08 != 0,
        sprite_size: v & 0x04 != 0,
        sprite_display: v & 0x02 != 0,
        bg_win_display: v & 0x01 != 0,
    }
}

impl Lcdc {
    /// Unpack the LCD control register from its byte encoding.
    pub fn from_u8(item: u8) -> (r: Self)
        ensures
            r == lcdc_of_u8(item),
    {
        Lcdc {
            lcd_control_op: item & 0x80 != 0,
            window_tmap_displ_select: item & 0x40 != 0,
            window_display: item & 0x20 != 0,
            bg_win_tile_data_select: item & 0x10 != 0,
            bg_tmap_display_select: item & 0x08 != 0,
            sprite_size: item & 0x04 != 0,
            sprite_display: item & 0x02 != 0,
            bg_win_display: item & 0x01 != 0,
        }
    }

    /// Pack the LCD control register into its byte encoding.
    pub fn to_u8(self) -> (r: u8)
        ensures
            r == u8_of_lcdc(self),
    {
        (if self.lcd_control_op { 0x80u8 } else { 0u8 })
            | (if self.window_tmap_displ_select { 0x40u8 } else { 0u8 })
            | (if self.window_display { 0x20u8 } else { 0u8 })
            | (if self.bg_win_tile_data_select { 0x10u8 } else { 0u8 })
            | (if self.bg_tmap_display_select { 0x08u8 } else { 0u8 })
            | (if self.sprite_size { 0x04u8 } else { 0u8 })
            | (if self.sprite_display { 0x02u8 } else { 0u8 })
            | (if self.bg_win_display { 0x01u8 } else { 0u8 })
    }
}

/// The LCD status register: interrupt-select bits, the coincidence flag
/// and the two-bit mode field.
#[derive(Copy, Clone, PartialEq, Eq, Structural, Debug)]
pub struct Stat {
    pub coincidence_select: bool,
    pub select_mode_10: bool,
    pub select_mode_01: bool,
    pub select_mode_00: bool,
    pub coincidence_flag: bool,
    pub mode_flag: u8,
}

/// The byte encoding of the LCD status register.
pub open spec fn u8_of_stat(s: Stat) -> u8 {
    (if s.coincidence_select { 0x40u8 } else { 0u8 })
        | (if s.select_mode_10 { 0x20u8 } else { 0u8 })
        | (if s.select_mode_01 { 0x10u8 } else { 0u8 })
        | (if s.select_mode_00 { 0x08u8 } else { 0u8 })
        | (if s.coincidence_flag { 0x04u8 } else { 0u8 })
        | (s.mode_flag & 0x3)
}

/// The LCD status register read back from a byte.
pub open spec fn stat_of_u8(v: u8) -> Stat {
    Stat {
        coincidence_select: v & 0x40 != 0,
        select_mode_10: v & 0x20 != 0,
        select_mode_01: v & 0x10 != 0,
        select_mode_00: v & 0x08 != 0,
        coincidence_flag: v & 0x04 != 0,
        mode_flag: v & 0x3,
    }
}

impl Stat {
    /// Unpack the LCD status register from its byte encoding.
    pub fn from_u8(item: u8) -> (r: Self)
        ensures
            r == stat_of_u8(item),
    {
        Stat {
            coincidence_select: item & 0x40 != 0,
            select_mode_10: item & 0x20 != 0,
            select_mode_01: item & 0x10 != 0,
            select_mode_00: item & 0x08 != 0,
            coincidence_flag: item & 0x04 != 0,
            mode_flag: item & 0x3,
        }
    }

    /// Pack the LCD status register into its byte encoding.
    pub fn to_u8(self) -> (r: u8)
        ensures
            r == u8_of_stat(self),
    {
        (if self.coincidence_select { 0x40u8 } else { 0u8 })
            | (if self.select_mode_10 { 0x20u8 } else { 0u8 })
            | (if self.select_mode_01 { 0x10u8 } else { 0u8 })
            | (if self.select_mode_00 { 0x08u8 } else { 0u8 })
            | (if self.coincidence_flag { 0x04u8 } else { 0u8 })
            | (self.mode_flag & 0x3)
    }
}

/// Side length of the internal background buffer, in pixels.
pub const IBUFFER_SIZE: usize = 256;

/// The pixel processor: a 256x256 background buffer, the scanline mode
/// clock, and the vertical-blank latch.
pub struct Gpu {
    pub buffer: Vec<u32>,
    pub mode_clock: usize,
    pub vblank: bool,
}

/// The base address of the tile data table selected by LCD control.
pub open spec fn tile_data_base(m: MemView) -> int {
    if m.lcdc.bg_win_tile_data_select {
        0x8000
    } else {
        0x8800
    }
}

/// The base address of the background tile map selected by LCD control.
pub open spec fn bg_map_base(m: MemView) -> int {
    if m.lcdc.bg_tmap_display_select {
        0x9C00
    } else {
        0x9800
    }
}

/// The two-bit color of pixel (px, py) of the tile at index `tid` in the
/// selected tile data table: bit (7 - px) of the line's low byte, plus
/// bit (7 - px) of the line's high byte weighted by two.
pub open spec fn tile_pixel(m: MemView, tid: u8, py: int, px: int) -> u8 {
    let base = tile_data_base(m) + tid * 16 + 2 * py;
    let vl = m.spec_read(base);
    let vh = m.spec_read(base + 1);
    let sh = (7 - px) as u32;
    ((vl >> sh) & 1) | (if vh & (1u8 << sh) != 0 { 2u8 } else { 0u8 })
}

/// The two-bit color of background pixel `x` on scanline `m.ly`, read
/// through the background tile map.
#[verifier::opaque]
pub open spec fn bg_pixel(m: MemView, x: int) -> u8 {
    let tid = m.spec_read(bg_map_base(m) + (m.ly / 8) * 32 + x / 8);
    tile_pixel(m, tid, (m.ly % 8) as int, x % 8)
}

/// The screen color of a two-bit console color, as packed ABGR.
pub open spec fn spec_color(gb_color: u8) -> u32 {
    if gb_color == 0 {
        0xFF1B0F0F
    } else if gb_color == 1 {
        0xFF755A56
    } else if gb_color == 2 {
        0xFFBEB7C6
    } else {
        0xFFF6FBFA
    }
}

/// The vertical position inside the background buffer that scanline `y`
/// of the visible screen maps to, under vertical scroll `scy`.
pub open spec fn scrolled_y(y: int, scy: u8) -> int {
    if y + scy > 255 {
        y + scy - 255
    } else {
        y + scy
    }
}

impl Gpu {
    /// A fresh pixel processor: buffer cleared to the darkest color, the
    /// mode clock at zero and no vertical blank seen.
    pub fn new() -> (r: Self)
        ensures
            r.wf(),
            forall|i: int| 0 <= i < IBUFFER_SIZE * IBUFFER_SIZE ==> r.buffer@[i] == 0xFF1B0F0F,
            r.mode_clock == 0,
            !r.vblank,
    {
        let mut buffer: Vec<u32> = Vec::new();
        while buffer.len() < IBUFFER_SIZE * IBUFFER_SIZE
            invariant
                buffer@.len() <= IBUFFER_SIZE * IBUFFER_SIZE,
                forall|i: int| 0 <= i < buffer@.len() ==> buffer@[i] == 0xFF1B0F0F,
            decreases IBUFFER_SIZE * IBUFFER_SIZE - buffer@.len(),
        {
            buffer.push(0xFF1B0F0F);
        }
        Gpu { buffer, mode_clock: 0, vblank: false }
    }

    /// Well-formedness: the background buffer covers 256x256 pixels.
    pub open spec fn wf(self) -> bool {
        self.buffer@.len() == IBUFFER_SIZE * IBUFFER_SIZE
    }

    /// The color of a screen pixel: the buffer pixel selected by the
    /// vertical scroll register.
    pub open spec fn screen_pixel(self, m: MemView, x: int, y: int) -> u32 {
        self.buffer@[scrolled_y(y, m.scy) * 256 + x]
    }

    /// Produce the visible 160x144 screen, row by row, shifted by the
    /// vertical scroll register.
    pub fn get_screen_buffer(&self, mem: &Memory) -> (r: Vec<u32>)
        requires
            self.wf(),
        ensures
            r@.len() == 160 * 144,
            forall|x: int, y: int| 0 <= x < 160 && 0 <= y < 144
                ==> r@[y * 160 + x] == self.screen_pixel(mem@, x, y),
    {
        let mut ret: Vec<u32> = Vec::new();
        let mut y: usize = 0;
        while y < 144
            invariant
                self.wf(),
                y <= 144,
                ret@.len() == y * 160,
                forall|xx: int, yy: int| 0 <= xx < 160 && 0 <= yy < y
                    ==> ret@[yy * 160 + xx] == self.screen_pixel(mem@, xx, yy),
            decreases 144 - y,
        {
            let mut buffer_y: usize = y + mem.scy as usize;
            if buffer_y > 255 {
                buffer_y = buffer_y - 255;
            }
            let mut x: usize = 0;
            while x < 160
                invariant
                    self.wf(),
                    y < 144,
                    x <= 160,
                    buffer_y == scrolled_y(y as int, mem@.scy),
                    ret@.len() == y * 160 + x,
                    forall|xx: int, yy: int| 0 <= xx < 160 && 0 <= yy < y
                        ==> ret@[yy * 160 + xx] == self.screen_pixel(mem@, xx, yy),
                    forall|xx: int| 0 <= xx < x
                        ==> ret@[y * 160 + xx] == self.screen_pixel(mem@, xx, y as int),
                decreases 160 - x,
            {
                ret.push(self.buffer[buffer_y * 256 + x]);
                x = x + 1;
            }
            y = y + 1;
        }
        ret
    }

    /// The screen color of a two-bit console color.
    fn gbcolor_to_rgb(&self, gb_color: u8) -> (r: u32)
        ensures
            r == spec_color(gb_color),
    {
        if gb_color == 0x0 {
            0xFF1B0F0F
        } else if gb_color == 0x1 {
            0xFF755A56
        } else if gb_color == 0x2 {
            0xFFBEB7C6
        } else {
            0xFFF6FBFA
        }
    }

    /// Decode the 8x8 tile at index `index` of the selected tile data
    /// table into its 64 two-bit colors, row major.
    fn get_sprite_data(&self, mem: &Memory, index: u8) -> (r: Vec<u8>)
        requires
            mem@.wf(),
        ensures
            r@.len() == 64,
            forall|py: int, px: int| 0 <= py < 8 && 0 <= px < 8
                ==> r@[py * 8 + px] == #[trigger] tile_pixel(mem@, index, py, px),
    {
        let tdata_start: usize = if mem.lcdc.bg_win_tile_data_select {
            0x8000
        } else {
            0x8800
        };
        let mut sprite_data: Vec<u8> = Vec::new();
        let mut py: usize = 0;
        while py < 8
            invariant
                mem@.wf(),
                py <= 8,
                tdata_start == tile_data_base(mem@),
                sprite_data@.len() == py * 8,
                forall|yy: int, px: int| 0 <= yy < py && 0 <= px < 8
                    ==> sprite_data@[yy * 8 + px] == #[trigger] tile_pixel(mem@, index, yy, px),
            decreases 8 - py,
        {
            let vl: u8 = mem.read_u8(tdata_start + (index as usize) * 16 + 2 * py);
            let vh: u8 = mem.read_u8(tdata_start + (index as usize) * 16 + 2 * py + 1);
            let mut px: usize = 0;
            while px < 8
                invariant
                    mem@.wf(),
                    py < 8,
                    px <= 8,
                    tdata_start == tile_data_base(mem@),
                    vl == mem@.spec_read(tile_data_base(mem@) + index * 16 + 2 * py),
                    vh == mem@.spec_read(tile_data_base(mem@) + index * 16 + 2 * py + 1),
                    sprite_data@.len() == py * 8 + px,
                    forall|yy: int, xx: int| 0 <= yy < py && 0 <= xx < 8
                        ==> sprite_data@[yy * 8 + xx] == #[trigger] tile_pixel(mem@, index, yy, xx),
                    forall|xx: int| 0 <= xx < px
                        ==> sprite_data@[py * 8 + xx] == #[trigger] tile_pixel(mem@, index, py as int, xx),
                decreases 8 - px,
            {
                let sh: u32 = (7 - px) as u32;
                let v: u8 = ((vl >> sh) & 1) | (if vh & (1u8 << sh) != 0 { 2 } else { 0 });
                sprite_data.push(v);
                px = px + 1;
            }
            py = py + 1;
        }
        sprite_data
    }

    /// Compose background scanline `mem.ly` into the buffer: each of the
    /// 256 pixels of that buffer row takes the color its tile gives it;
    /// every other buffer pixel and all of memory are left unchanged.
    fn draw_background_line(&mut self, mem: &mut Memory)
        requires
            old(self).wf(),
            old(mem)@.wf(),
            old(mem)@.ly < 144,
        ensures
            final(self).wf(),
            final(mem)@ == old(mem)@,
            final(self).mode_clock == old(self).mode_clock,
            final(self).vblank == old(self).vblank,
            forall|i: int| 0 <= i < IBUFFER_SIZE * IBUFFER_SIZE
                && !(old(mem)@.ly * 256 <= i < old(mem)@.ly * 256 + 256)
                ==> final(self).buffer@[i] == old(self).buffer@[i],
            forall|x: int| 0 <= x < 256
                ==> final(self).buffer@[old(mem)@.ly * 256 + x]
                    == spec_color(bg_pixel(old(mem)@, x)),
    {
        let bg_map_start: usize = if mem.lcdc.bg_tmap_display_select {
            0x9C00
        } else {
            0x9800
        };
        let ly: usize = mem.ly as usize;
        let tile_y: usize = ly / 8;
        let mut tile_x: usize = 0;
        while tile_x < 32
            invariant
                self.wf(),
                mem@ == old(mem)@,
                mem@.wf(),
                mem@.ly < 144,
                ly == mem@.ly,
                tile_y == ly / 8,
                bg_map_start == bg_map_base(mem@),
                tile_x <= 32,
                self.mode_clock == old(self).mode_clock,
                self.vblank == old(self).vblank,
                forall|i: int| 0 <= i < IBUFFER_SIZE * IBUFFER_SIZE
                    && !(mem@.ly * 256 <= i < mem@.ly * 256 + 256)
                    ==> self.buffer@[i] == old(self).buffer@[i],
                forall|x: int| 0 <= x < tile_x * 8
                    ==> self.buffer@[mem@.ly * 256 + x] == spec_color(bg_pixel(mem@, x)),
            decreases 32 - tile_x,
        {
            let tid: u8 = mem.read_u8(bg_map_start + tile_y * 32 + tile_x);
            let tdata: Vec<u8> = self.get_sprite_data(mem, tid);
            let py: usize = ly - tile_y * 8;
            let mut lx: usize = 0;
            while lx < 8
                invariant
                    self.wf(),
                    mem@ == old(mem)@,
                    mem@.wf(),
                    mem@.ly < 144,
                    ly == mem@.ly,
                    tile_y == ly / 8,
                    py == ly % 8,
                    bg_map_start == bg_map_base(mem@),
                    tile_x < 32,
                    lx <= 8,
                    tid == mem@.spec_read(bg_map_base(mem@) + (mem@.ly / 8) * 32 + tile_x),
                    tdata@.len() == 64,
                    forall|yy: int, xx: int| 0 <= yy < 8 && 0 <= xx < 8
                        ==> tdata@[yy * 8 + xx] == #[trigger] tile_pixel(mem@, tid, yy, xx),
                    self.mode_clock == old(self).mode_clock,
                    self.vblank == old(self).vblank,
                    forall|i: int| 0 <= i < IBUFFER_SIZE * IBUFFER_SIZE
                        && !(mem@.ly * 256 <= i < mem@.ly * 256 + 256)
                        ==> self.buffer@[i] == old(self).buffer@[i],
                    forall|x: int| 0 <= x < tile_x * 8 + lx
                        ==> self.buffer@[mem@.ly * 256 + x] == spec_color(bg_pixel(mem@, x)),
                decreases 8 - lx,
            {
                let bx: usize = tile_x * 8 + lx;
                let color: u32 = self.gbcolor_to_rgb(tdata[py * 8 + lx]);
                self.buffer[ly * 256 + bx] = color;
                proof {
                    assert(bg_pixel(mem@, bx as int) == tile_pixel(
                        mem@,
                        tid,
                        (mem@.ly % 8) as int,
                        lx as int,
                    )) by {
                        reveal(crate::gpu::bg_pixel);
                    }
                }
                lx = lx + 1;
            }
            tile_x = tile_x + 1;
        }
    }

    /// Draw the current scanline: the background row when background
    /// display is enabled, nothing otherwise.
    fn draw_line(&mut self, mem: &mut Memory)
        requires
            old(self).wf(),
            old(mem)@.wf(),
            old(mem)@.ly < 144,
        ensures
            final(self).wf(),
            final(mem)@ == old(mem)@,
            final(self).mode_clock == old(self).mode_clock,
            final(self).vblank == old(self).vblank,
            old(mem)@.lcdc.bg_win_display ==> {
                &&& forall|i: int| 0 <= i < IBUFFER_SIZE * IBUFFER_SIZE
                    && !(old(mem)@.ly * 256 <= i < old(mem)@.ly * 256 + 256)
                    ==> final(self).buffer@[i] == old(self).buffer@[i]
                &&& forall|x: int| 0 <= x < 256
                    ==> final(self).buffer@[old(mem)@.ly * 256 + x]
                        == spec_color(bg_pixel(old(mem)@, x))
            },
            !old(mem)@.lcdc.bg_win_display ==> final(self).buffer@ == old(self).buffer@,
    {
        if mem.lcdc.bg_win_display {
            self.draw_background_line(mem);
        }
    }

}

/// The buffer after scanline `ly1` has been composed: under the final
/// memory's tile tables, every pixel of buffer row `ly1` holds its
/// background color when background display is enabled (the buffer is
/// untouched otherwise), and no other row changes.
#[verifier::opaque]
pub open spec fn drew_row(g0: Gpu, g1: Gpu, m1: MemView, ly1: u8) -> bool {
    &&& (m1.lcdc.bg_win_display ==> {
        &&& forall|i: int| 0 <= i < IBUFFER_SIZE * IBUFFER_SIZE
            && !(ly1 * 256 <= i < ly1 * 256 + 256)
            ==> g1.buffer@[i] == g0.buffer@[i]
        &&& forall|x: int| 0 <= x < 256
            ==> g1.buffer@[ly1 * 256 + x] == spec_color(bg_pixel(m1, x))
    })
    &&& (!m1.lcdc.bg_win_display ==> g1.buffer@ == g0.buffer@)
}

/// One step of the scanline state machine, relating the pixel processor
/// and memory before and after a tick of `ticks` cycles to the reported
/// entering-object-scan flag.
#[verifier::opaque]
pub open spec fn gpu_step(g0: Gpu, m0: MemView, ticks: usize, g1: Gpu, m1: MemView, r: bool) -> bool {
    let mc1 = g0.mode_clock + ticks;
    let rolled = mc1 > 456;
    let ly1 = if rolled { ((m0.ly + 1) % 154) as u8 } else { m0.ly };
    let mc2: usize = if rolled { 0 } else { mc1 as usize };
    let m_mid = MemView { ly: ly1, ..m0 };
    &&& g1.mode_clock == mc2
    &&& (if ly1 < 144 {
        if mc2 <= 80 && m0.stat.mode_flag != 2 {
            &&& r
            &&& m1 == (MemView { stat: Stat { mode_flag: 2, ..m0.stat }, ..m_mid })
            &&& g1.vblank == g0.vblank
            &&& drew_row(g0, g1, m1, ly1)
        } else {
            let mode2: u8 = if mc2 <= 80 { m0.stat.mode_flag } else if mc2 <= 252 { 3 } else { 0 };
            &&& !r
            &&& m1 == (MemView { stat: Stat { mode_flag: mode2, ..m0.stat }, ..m_mid })
            &&& g1.vblank == g0.vblank
            &&& g1.buffer@ == g0.buffer@
        }
    } else {
        &&& !r
        &&& g1.vblank
        &&& g1.buffer@ == g0.buffer@
        &&& (if m0.stat.mode_flag != 1 {
            m1 == (MemView {
                stat: Stat { mode_flag: 1, ..m0.stat },
                iflag: Ei { vblank: true, ..m0.iflag },
                ..m_mid
            })
        } else {
            m1 == m_mid
        })
    })
}

impl Gpu {
}

/// The pixel processor and memory just after the mode clock has
/// absorbed the elapsed cycles and the scanline register has stepped if
/// the clock rolled over.
pub open spec fn gpu_rolled(g0: Gpu, m0: MemView, ticks: usize, g_mid: Gpu, m_mid: MemView) -> bool {
    let mc1 = g0.mode_clock + ticks;
    let rolled = mc1 > 456;
    let ly1 = if rolled { ((m0.ly + 1) % 154) as u8 } else { m0.ly };
    let mc2: usize = if rolled { 0 } else { mc1 as usize };
    &&& g_mid.buffer@ == g0.buffer@
    &&& g_mid.vblank == g0.vblank
    &&& g_mid.mode_clock == mc2
    &&& m_mid == (MemView { ly: ly1, ..m0 })
}

impl Gpu {
    /// Advance the scanline state machine by elapsed cycles. Past 456
    /// accumulated cycles the scanline register steps (wrapping at 154)
    /// and the accumulator clears. On visible scanlines the mode field
    /// walks through its phases, and entering the object-scan phase
    /// draws the scanline into the buffer and reports true; past the
    /// visible area the machine enters vertical blank once, raising the
    /// vertical-blank interrupt request and latching the blank flag.
    pub fn cycle(&mut self, mem: &mut Memory, ticks: usize) -> (r: bool)
        requires
            old(self).wf(),
            old(mem)@.wf(),
            old(self).mode_clock + ticks <= usize::MAX,
        ensures
            final(self).wf(),
            final(mem)@.wf(),
            final(self).mode_clock <= 456,
            gpu_step(*old(self), old(mem)@, ticks, *final(self), final(mem)@, r),
            final(mem)@.tima == old(mem)@.tima,
            final(mem)@.tma == old(mem)@.tma,
            final(mem)@.tac == old(mem)@.tac,
            final(mem)@.div == old(mem)@.div,
            final(mem)@.halted == old(mem)@.halted,
            final(mem)@.stopped == old(mem)@.stopped,
    {
        let ghost g0 = *self;
        let ghost m0 = mem@;
        self.mode_clock = self.mode_clock + ticks;
        if self.mode_clock > 456 {
            mem.ly = (((mem.ly as u16) + 1) % 154) as u8;
            self.mode_clock = 0;
        }
        if mem.ly < 144 {
            if self.mode_clock <= 80 {
                self.scan_phase(mem, Ghost(g0), Ghost(m0), Ghost(ticks))
            } else {
                self.raster_phase(mem, Ghost(g0), Ghost(m0), Ghost(ticks));
                false
            }
        } else {
            self.blank_phase(mem, Ghost(g0), Ghost(m0), Ghost(ticks));
            false
        }
    }

    /// The object-scan entry phase of the scanline state machine.
    fn scan_phase(
        &mut self,
        mem: &mut Memory,
        Ghost(g0): Ghost<Gpu>,
        Ghost(m0): Ghost<MemView>,
        Ghost(ticks): Ghost<usize>,
    ) -> (r: bool)
        requires
            old(self).wf(),
            old(mem)@.wf(),
            gpu_rolled(g0, m0, ticks, *old(self), old(mem)@),
            old(mem)@.ly < 144,
            old(self).mode_clock <= 80,
        ensures
            final(self).wf(),
            final(mem)@.wf(),
            final(self).mode_clock <= 456,
            gpu_step(g0, m0, ticks, *final(self), final(mem)@, r),
            final(mem)@.tima == old(mem)@.tima,
            final(mem)@.tma == old(mem)@.tma,
            final(mem)@.tac == old(mem)@.tac,
            final(mem)@.div == old(mem)@.div,
            final(mem)@.halted == old(mem)@.halted,
            final(mem)@.stopped == old(mem)@.stopped,
    {
        if mem.stat.mode_flag != 2 {
            mem.stat.mode_flag = 2;
            self.draw_line(mem);
            proof {
                let ghost ly1 = mem@.ly;
                assert(drew_row(g0, *self, mem@, ly1)) by {
                    reveal(crate::gpu::drew_row);
                }
                assert(gpu_step(g0, m0, ticks, *self, mem@, true)) by {
                    reveal(crate::gpu::gpu_step);
                }
            }
            return true;
        }
        proof {
            assert(gpu_step(g0, m0, ticks, *self, mem@, false)) by {
                reveal(crate::gpu::gpu_step);
            }
        }
        false
    }

    /// The pixel-transfer and horizontal-blank phases of the scanline
    /// state machine.
    fn raster_phase(
        &mut self,
        mem: &mut Memory,
        Ghost(g0): Ghost<Gpu>,
        Ghost(m0): Ghost<MemView>,
        Ghost(ticks): Ghost<usize>,
    )
        requires
            old(self).wf(),
            old(mem)@.wf(),
            gpu_rolled(g0, m0, ticks, *old(self), old(mem)@),
            old(mem)@.ly < 144,
            old(self).mode_clock > 80,
        ensures
            final(self).wf(),
            final(mem)@.wf(),
            *final(self) == *old(self),
            gpu_step(g0, m0, ticks, *final(self), final(mem)@, false),
            final(mem)@.tima == old(mem)@.tima,
            final(mem)@.tma == old(mem)@.tma,
            final(mem)@.tac == old(mem)@.tac,
            final(mem)@.div == old(mem)@.div,
            final(mem)@.halted == old(mem)@.halted,
            final(mem)@.stopped == old(mem)@.stopped,
    {
        if self.mode_clock <= 80 + 172 {
            mem.stat.mode_flag = 3;
            proof {
                assert(gpu_step(g0, m0, ticks, *self, mem@, false)) by {
                    reveal(crate::gpu::gpu_step);
                }
            }
        } else {
            mem.stat.mode_flag = 0;
            proof {
                assert(gpu_step(g0, m0, ticks, *self, mem@, false)) by {
                    reveal(crate::gpu::gpu_step);
                }
            }
        }
    }

    /// The vertical-blank phase of the scanline state machine.
    fn blank_phase(
        &mut self,
        mem: &mut Memory,
        Ghost(g0): Ghost<Gpu>,
        Ghost(m0): Ghost<MemView>,
        Ghost(ticks): Ghost<usize>,
    )
        requires
            old(self).wf(),
            old(mem)@.wf(),
            gpu_rolled(g0, m0, ticks, *old(self), old(mem)@),
            old(mem)@.ly >= 144,
        ensures
            final(self).wf(),
            final(mem)@.wf(),
            final(self).mode_clock == old(self).mode_clock,
            gpu_step(g0, m0, ticks, *final(self), final(mem)@, false),
            final(mem)@.tima == old(mem)@.tima,
            final(mem)@.tma == old(mem)@.tma,
            final(mem)@.tac == old(mem)@.tac,
            final(mem)@.div == old(mem)@.div,
            final(mem)@.halted == old(mem)@.halted,
            final(mem)@.stopped == old(mem)@.stopped,
    {
        if mem.stat.mode_flag != 1 {
            mem.stat.mode_flag = 1;
            mem.iflag.vblank = true;
        }
        self.vblank = true;
        proof {
            assert(gpu_step(g0, m0, ticks, *self, mem@, false)) by {
                reveal(crate::gpu::gpu_step);
            }
        }
    }

}

} // verus!
