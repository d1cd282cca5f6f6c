//! The timer unit: a free-running divider and a configurable-rate
//! counter that reports overflow to the interrupt layer.

use vstd::prelude::*;
use crate::memory::{MemView, Memory};

verus! {

/// Cycles per divider increment.
pub const DIVIDER_PERIOD: usize = 256;

/// The cycles-per-tick rate selected by the low two bits of the timer
/// control register.
pub open spec fn clock_divider_of(tac: u8) -> usize {
    if tac & 0x3 == 0 {
        1024
    } else if tac & 0x3 == 1 {
        16
    } else if tac & 0x3 == 2 {
        64
    } else {
        256
    }
}

/// True when the counter-enable bit of the timer control register is set.
pub open spec fn timer_enabled(tac: u8) -> bool {
    tac & 0x4 != 0
}

/// The timer unit's own state: the cycle accumulator feeding the
/// divider register.
pub struct Timer {
    pub internal_divider: usize,
}

impl Timer {
    /// A fresh timer with an empty accumulator.
    pub fn new() -> (r: Self)
        ensures
            r.internal_divider == 0,
    {
        Timer { internal_divider: 0 }
    }

    /// Feed elapsed cycles to the divider: once the accumulator reaches
    /// the divider period, the period is subtracted (the residue carries
    /// forward) and the memory-mapped divider register increments with
    /// 8-bit wraparound. Nothing else in memory changes.
    pub fn increment_div(&mut self, mem_map: &mut Memory, clock_cycles: usize)
        requires
            old(self).internal_divider + clock_cycles <= usize::MAX,
        ensures
            old(self).internal_divider + clock_cycles >= DIVIDER_PERIOD ==> {
                &&& final(self).internal_divider
                    == old(self).internal_divider + clock_cycles - DIVIDER_PERIOD
                &&& final(mem_map)@ == (MemView {
                    div: crate::bin_utils::wrap_add8(old(mem_map)@.div, 1),
                    ..old(mem_map)@
                })
            },
            old(self).internal_divider + clock_cycles < DIVIDER_PERIOD ==> {
                &&& final(self).internal_divider == old(self).internal_divider + clock_cycles
                &&& final(mem_map)@ == old(mem_map)@
            },
    {
        self.internal_divider = self.internal_divider + clock_cycles;
        if self.internal_divider >= DIVIDER_PERIOD {
            self.internal_divider = self.internal_divider - DIVIDER_PERIOD;
            mem_map.div = mem_map.div.wrapping_add(1);
        }
    }

    /// Feed elapsed cycles to the configurable counter. Disabled: memory
    /// is untouched and no overflow is reported. Enabled: the counter
    /// register grows by the elapsed cycles divided by the selected rate;
    /// past 0xFF it reloads from the modulus register and overflow is
    /// reported (the caller raises the interrupt request).
    pub fn increment_tima(&mut self, mem_map: &mut Memory, clock_cycles: usize) -> (overflowed:
        bool)
        requires
            old(mem_map)@.tima + clock_cycles <= usize::MAX,
        ensures
            *final(self) == *old(self),
            !timer_enabled(old(mem_map)@.tac) ==> {
                &&& !overflowed
                &&& final(mem_map)@ == old(mem_map)@
            },
            timer_enabled(old(mem_map)@.tac) ==> {
                let grown = old(mem_map)@.tima + clock_cycles / clock_divider_of(
                    old(mem_map)@.tac,
                );
                if grown > 0xFF {
                    &&& overflowed
                    &&& final(mem_map)@ == (MemView {
                        tima: old(mem_map)@.tma as usize,
                        ..old(mem_map)@
                    })
                } else {
                    &&& !overflowed
                    &&& final(mem_map)@ == (MemView { tima: grown as usize, ..old(mem_map)@ })
                }
            },
    {
        let enabled: bool = mem_map.tac & 0x4 != 0;
        if !enabled {
            return false;
        }
        let select: u8 = mem_map.tac & 0x3;
        let clock_divider: usize = if select == 0 {
            1024
        } else if select == 1 {
            16
        } else if select == 2 {
            64
        } else {
            256
        };
        proof {
            assert(clock_divider == clock_divider_of(mem_map@.tac));
        }
        mem_map.tima = mem_map.tima + clock_cycles / clock_divider;
        if mem_map.tima > 0xFF {
            mem_map.tima = mem_map.tma as usize;
            return true;
        }
        false
    }
}

} // verus!
