//! Mnemonic tables for the on-screen instruction trace.

use vstd::prelude::*;
use std::collections::HashMap;

verus! {

/// Human-readable names for the opcodes the trace can display, one
/// table for the base opcodes and one for the extended table.
pub struct Debugger {
    pub translation_table: HashMap<i8, String>,
    pub translation_table_extended: HashMap<i8, String>,
}

impl Debugger {
    /// Build the mnemonic tables.
    pub fn new() -> (r: Debugger)
        ensures
            r.translation_table@.contains_key(0i8),
            r.translation_table_extended@.contains_key(0i8),
    {
        let mut translation_table: HashMap<i8, String> = HashMap::new();
        translation_table.insert(0x0, "NOP".to_string());
        translation_table.insert(0x1, "LD BC, d16".to_string());
        translation_table.insert(0x2, "LD (BC), A".to_string());
        translation_table.insert(0x3, "INC BC".to_string());
        translation_table.insert(0x4, "INC B".to_string());
        translation_table.insert(0x5, "DEC B".to_string());
        translation_table.insert(0x6, "LD B, d8".to_string());
        translation_table.insert(0x7, "RLCA".to_string());
        translation_table.insert(0x8, "LD (a16), SP".to_string());
        translation_table.insert(0x9, "ADD HL, BC".to_string());
        translation_table.insert(0xA, "LD A, (BC)".to_string());
        translation_table.insert(0xB, "DEC BC".to_string());
        translation_table.insert(0xC, "INC C".to_string());
        translation_table.insert(0xD, "DEC C".to_string());
        translation_table.insert(0xE, "LD C, d8".to_string());
        translation_table.insert(0xF, "RRCA".to_string());
        translation_table.insert(0x10, "STOP 0".to_string());
        let mut translation_table_extended: HashMap<i8, String> = HashMap::new();
        translation_table_extended.insert(0x0, "RLC B".to_string());
        Debugger { translation_table, translation_table_extended }
    }
}

} // verus!
