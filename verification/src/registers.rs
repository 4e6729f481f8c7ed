//! The register file: sixteen 8-bit general registers, the 16-bit program
//! counter and the 16-bit index register.

use vstd::prelude::*;

verus! {

#[derive(Debug)]
pub struct RegisterFile {
    /// The general registers `v0` to `vF`; `vF` doubles as the flag register.
    pub v: Vec<u8>,
    /// Program counter; only 12 bits address memory.
    pub pc: u16,
    /// Index register.
    pub i: u16,
}

impl RegisterFile {
    /// Execution starts at the ROM load offset.
    pub const DEFAULT_PC_VALUE: u16 = 0x200;

    pub open spec fn wf(&self) -> bool {
        self.v@.len() == 16
    }

    pub fn new() -> (r: RegisterFile)
        ensures
            r.wf(),
            forall|j: int| 0 <= j < 16 ==> r.v@[j] == 0u8,
            r.pc == 0x200,
            r.i == 0,
    {
        let mut v: Vec<u8> = Vec::new();
        while v.len() < 16
            invariant
                v@.len() <= 16,
                forall|j: int| 0 <= j < v@.len() ==> v@[j] == 0u8,
            decreases 16 - v@.len(),
        {
            v.push(0);
        }
        RegisterFile { v, pc: Self::DEFAULT_PC_VALUE, i: 0 }
    }
}

impl Default for RegisterFile {
    fn default() -> (r: RegisterFile)
        ensures
            r.wf(),
            forall|j: int| 0 <= j < 16 ==> r.v@[j] == 0u8,
            r.pc == 0x200,
            r.i == 0,
    {
        RegisterFile::new()
    }
}

} // verus!
