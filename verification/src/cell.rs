use vstd::prelude::*;
use crate::config::{CellColor, CellMeta, CellsTemplate};

verus! {

/// Index of a material in the catalog.
pub type CellId = u32;

/// Number of general-purpose registers on every cell.
pub const CELL_REGISTERS_COUNT: usize = 14;

/// Register that stores cell system state (brightness cache and flags):
/// `CELL_REGISTERS_COUNT - 1`. Rules should not touch it.
pub const CELL_REGISTER_SYSTEM: usize = 13;

/// Byte of the system register that holds the system flags.
pub const CELL_REGISTER_SYSTEM_FLAGS: usize = 0;
/// Byte of the system register that caches the brightness jitter.
pub const CELL_REGISTER_SYSTEM_BRIGHTNESS_VALUE: usize = 1;
/// Flag bit: the brightness jitter has been drawn and cached.
pub const CELL_REGISTER_SYSTEM_FLAG_IS_BRIGHTNESS_SET: u8 = 1;

/// Register that counts a cell's age when the material asks for it:
/// `CELL_REGISTERS_COUNT - 2`.
pub const CELL_REGISTER_AGE: usize = 12;

/// One grid slot: a material id, the tick at which it was last written,
/// and a small bank of mutable registers.
#[derive(Debug, Clone, Copy, Eq)]
pub struct Cell {
    pub id: CellId,
    /// Tick at which this cell was last written.
    pub last_update: u32,
    pub registers: [u32; CELL_REGISTERS_COUNT],
}

impl PartialEq for Cell {
    fn eq(&self, other: &Cell) -> (r: bool)
        ensures
            r == (*self == *other),
    {
        if self.id != other.id || self.last_update != other.last_update {
            return false;
        }
        let mut i: usize = 0;
        while i < CELL_REGISTERS_COUNT
            invariant
                i <= CELL_REGISTERS_COUNT,
                self.id == other.id,
                self.last_update == other.last_update,
                forall|j: int| 0 <= j < i ==> self.registers@[j] == other.registers@[j],
            decreases CELL_REGISTERS_COUNT - i,
        {
            if self.registers[i] != other.registers[i] {
                assert(*self != *other) by {
                    assert(self.registers@[i as int] != other.registers@[i as int]);
                }
                return false;
            }
            i += 1;
        }
        proof {
            vstd::array::axiom_array_ext_equal::<u32, CELL_REGISTERS_COUNT>(
                self.registers,
                other.registers,
            );
            assert(self.registers =~= other.registers);
        }
        true
    }
}

impl vstd::std_specs::cmp::PartialEqSpecImpl for Cell {
    open spec fn obeys_eq_spec() -> bool {
        true
    }

    open spec fn eq_spec(&self, other: &Cell) -> bool {
        *self == *other
    }
}

impl Cell {
    /// A freshly initialized cell of material `id`, per the catalog.
    pub fn new(cells_template: &CellsTemplate, id: CellId) -> (r: Cell)
        requires
            id < cells_template.cells@.len(),
        ensures
            r == cells_template.cells@[id as int].spec_init(),
    {
        cells_template.get_cell_meta(id).init()
    }

    pub fn color(&self, cells_template: &CellsTemplate) -> (r: CellColor)
        requires
            self.id < cells_template.cells@.len(),
        ensures
            r == cells_template.cells@[self.id as int].color,
    {
        cells_template.get_cell_meta(self.id).color
    }

    pub fn meta<'a>(&self, config: &'a CellsTemplate) -> (r: &'a CellMeta)
        requires
            self.id < config.cells@.len(),
        ensures
            r == &config.cells@[self.id as int],
    {
        config.get_cell_meta(self.id)
    }
}

} // verus!
