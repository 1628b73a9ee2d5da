//! The state of the 32 emulated cores that translated code works on

use crate::evex::Zmm;
use crate::host::{entry_lane, host_run, HostState};
use crate::register::Register;
use vstd::prelude::*;

verus! {

/// Number of emulated cores: the 16-bit lanes of a 512-bit vector
pub const LANES: u8 = 32;

/// Number of bytes between the vectors of two registers in the context that
/// the entry stub loads and stores.
pub const VECTOR_SIZE: usize = 64;

/// A vectorized emulator state of 32 simulated 8086 processors: for each
/// register the values of the 32 cores. The entry stub loads the vector
/// registers from these vectors, which follow one another in this order, each
/// aligned to 64 bytes, and stores them back.
#[derive(Debug, Clone, Copy, PartialEq, Eq)]
pub struct JitEmulatorState {
    pub ax: [u16; 32],
    pub bx: [u16; 32],
    pub cx: [u16; 32],
    pub dx: [u16; 32],
    pub si: [u16; 32],
    pub di: [u16; 32],
    pub bp: [u16; 32],
    pub sp: [u16; 32],
    pub ip: [u16; 32],
    pub flags: [u16; 32],
}

/// A single lane's CPU state
#[derive(Debug, Clone, Copy, PartialEq, Eq)]
pub struct CpuState {
    pub ax: u16,
    pub bx: u16,
    pub cx: u16,
    pub dx: u16,
    pub si: u16,
    pub di: u16,
    pub bp: u16,
    pub sp: u16,
    pub ip: u16,
    pub flags: u16,
}

/// The number of an emulated core, below 32
#[derive(Debug, Clone, Copy, PartialEq, Eq, Structural)]
pub struct Core(pub u8);

impl View for CpuState {
    type V = Seq<u16>;

    /// The registers in the order of the register file.
    open spec fn view(&self) -> Seq<u16> {
        seq![
            self.ax,
            self.bx,
            self.cx,
            self.dx,
            self.si,
            self.di,
            self.bp,
            self.sp,
            self.ip,
            self.flags,
        ]
    }
}

impl JitEmulatorState {
    /// The values of a 16-bit register in the 32 cores.
    pub open spec fn vector(&self, reg: Register) -> Seq<u16> {
        match reg.parts().0 {
            Register::Ax => self.ax@,
            Register::Bx => self.bx@,
            Register::Cx => self.cx@,
            Register::Dx => self.dx@,
            Register::Si => self.si@,
            Register::Di => self.di@,
            Register::Bp => self.bp@,
            Register::Sp => self.sp@,
            Register::Ip => self.ip@,
            _ => self.flags@,
        }
    }

    /// The registers of one core, in the order of the register file.
    pub open spec fn lane(&self, core: int) -> Seq<u16> {
        seq![
            self.ax@[core],
            self.bx@[core],
            self.cx@[core],
            self.dx@[core],
            self.si@[core],
            self.di@[core],
            self.bp@[core],
            self.sp@[core],
            self.ip@[core],
            self.flags@[core],
        ]
    }

    /// A state in which every register of every core is zero
    pub fn new() -> (res: Self)
        ensures
            forall|core: int| 0 <= core < 32 ==> res.lane(core) == Seq::new(10, |i: int| 0u16),
    {
        let zero: [u16; 32] = [
            0,
            0,
            0,
            0,
            0,
            0,
            0,
            0,
            0,
            0,
            0,
            0,
            0,
            0,
            0,
            0,
            0,
            0,
            0,
            0,
            0,
            0,
            0,
            0,
            0,
            0,
            0,
            0,
            0,
            0,
            0,
            0,
        ];
        let res = JitEmulatorState {
            ax: zero,
            bx: zero,
            cx: zero,
            dx: zero,
            si: zero,
            di: zero,
            bp: zero,
            sp: zero,
            ip: zero,
            flags: zero,
        };
        assert forall|core: int| 0 <= core < 32 implies res.lane(core) == Seq::new(
            10,
            |i: int| 0u16,
        ) by {
            assert(res.lane(core) =~= Seq::new(10, |i: int| 0u16));
        }
        res
    }

    /// Where the vector of a 16-bit register starts in the context that the
    /// entry stub loads and stores, in bytes
    pub fn context_offset(reg: Register) -> (res: usize)
        requires
            reg.is_main(),
        ensures
            res == reg.slot() * VECTOR_SIZE,
    {
        reg.index() * VECTOR_SIZE
    }

    /// Get the state for a single core
    pub fn get_cpu_state(&self, cpu: Core) -> (res: CpuState)
        requires
            cpu.0 < LANES,
        ensures
            res@ == self.lane(cpu.0 as int),
    {
        let cpu = cpu.0 as usize;
        CpuState {
            ax: self.ax[cpu],
            bx: self.bx[cpu],
            cx: self.cx[cpu],
            dx: self.dx[cpu],
            si: self.si[cpu],
            di: self.di[cpu],
            bp: self.bp[cpu],
            sp: self.sp[cpu],
            ip: self.ip[cpu],
            flags: self.flags[cpu],
        }
    }

    /// The values of a 16-bit register in the 32 cores
    pub fn get(&self, reg: Register) -> (res: [u16; 32])
        requires
            reg.is_main(),
        ensures
            res@ == self.vector(reg),
    {
        match reg {
            Register::Ax => self.ax,
            Register::Bx => self.bx,
            Register::Cx => self.cx,
            Register::Dx => self.dx,
            Register::Si => self.si,
            Register::Di => self.di,
            Register::Bp => self.bp,
            Register::Sp => self.sp,
            Register::Ip => self.ip,
            _ => self.flags,
        }
    }

    /// Set the values of a 16-bit register in the 32 cores
    pub fn put(&mut self, reg: Register, values: [u16; 32])
        requires
            reg.is_main(),
        ensures
            final(self).vector(reg) == values@,
            forall|other: Register|
                other.is_main() && other != reg ==> final(self).vector(other) == old(self).vector(
                    other,
                ),
    {
        match reg {
            Register::Ax => self.ax = values,
            Register::Bx => self.bx = values,
            Register::Cx => self.cx = values,
            Register::Dx => self.dx = values,
            Register::Si => self.si = values,
            Register::Di => self.di = values,
            Register::Bp => self.bp = values,
            Register::Sp => self.sp = values,
            Register::Ip => self.ip = values,
            _ => self.flags = values,
        }
    }

    /// Set a 16-bit register of every core to the value
    pub fn set(&mut self, reg: Register, val: u16)
        requires
            reg.is_main(),
        ensures
            final(self).vector(reg) == Seq::new(32, |i: int| val),
            forall|other: Register|
                other.is_main() && other != reg ==> final(self).vector(other) == old(self).vector(
                    other,
                ),
    {
        let mut values = self.get(reg);
        let mut i: usize = 0;
        while i < 32
            invariant
                i <= 32,
                forall|k: int| 0 <= k < i ==> values@[k] == val,
            decreases 32 - i,
        {
            values[i] = val;
            i += 1;
        }
        assert(values@ =~= Seq::new(32, |i: int| val));
        self.put(reg, values);
    }

    /// Set a 16-bit register of one core to the value
    pub fn set_in(&mut self, reg: Register, cpu: Core, val: u16)
        requires
            reg.is_main(),
            cpu.0 < LANES,
        ensures
            final(self).vector(reg) == old(self).vector(reg).update(cpu.0 as int, val),
            forall|other: Register|
                other.is_main() && other != reg ==> final(self).vector(other) == old(self).vector(
                    other,
                ),
    {
        let mut values = self.get(reg);
        values[cpu.0 as usize] = val;
        self.put(reg, values);
    }
}

impl JitEmulatorState {
    /// The values of AX in the 32 cores
    pub fn ax(&self) -> (res: [u16; 32])
        ensures
            res@ == self.vector(Register::Ax),
    {
        self.get(Register::Ax)
    }

    /// Set AX of every core to the value
    pub fn set_ax(&mut self, val: u16)
        ensures
            final(self).vector(Register::Ax) == Seq::new(32, |i: int| val),
            forall|other: Register|
                other.is_main() && other != Register::Ax ==> final(self).vector(other) == old(
                    self,
                ).vector(other),
    {
        self.set(Register::Ax, val);
    }

    /// Set AX of one core to the value
    pub fn set_ax_in(&mut self, cpu: Core, val: u16)
        requires
            cpu.0 < LANES,
        ensures
            final(self).vector(Register::Ax) == old(self).vector(Register::Ax).update(
                cpu.0 as int,
                val,
            ),
            forall|other: Register|
                other.is_main() && other != Register::Ax ==> final(self).vector(other) == old(
                    self,
                ).vector(other),
    {
        self.set_in(Register::Ax, cpu, val);
    }

    /// The values of BX in the 32 cores
    pub fn bx(&self) -> (res: [u16; 32])
        ensures
            res@ == self.vector(Register::Bx),
    {
        self.get(Register::Bx)
    }

    /// Set BX of every core to the value
    pub fn set_bx(&mut self, val: u16)
        ensures
            final(self).vector(Register::Bx) == Seq::new(32, |i: int| val),
            forall|other: Register|
                other.is_main() && other != Register::Bx ==> final(self).vector(other) == old(
                    self,
                ).vector(other),
    {
        self.set(Register::Bx, val);
    }

    /// Set BX of one core to the value
    pub fn set_bx_in(&mut self, cpu: Core, val: u16)
        requires
            cpu.0 < LANES,
        ensures
            final(self).vector(Register::Bx) == old(self).vector(Register::Bx).update(
                cpu.0 as int,
                val,
            ),
            forall|other: Register|
                other.is_main() && other != Register::Bx ==> final(self).vector(other) == old(
                    self,
                ).vector(other),
    {
        self.set_in(Register::Bx, cpu, val);
    }

    /// The values of CX in the 32 cores
    pub fn cx(&self) -> (res: [u16; 32])
        ensures
            res@ == self.vector(Register::Cx),
    {
        self.get(Register::Cx)
    }

    /// Set CX of every core to the value
    pub fn set_cx(&mut self, val: u16)
        ensures
            final(self).vector(Register::Cx) == Seq::new(32, |i: int| val),
            forall|other: Register|
                other.is_main() && other != Register::Cx ==> final(self).vector(other) == old(
                    self,
                ).vector(other),
    {
        self.set(Register::Cx, val);
    }

    /// Set CX of one core to the value
    pub fn set_cx_in(&mut self, cpu: Core, val: u16)
        requires
            cpu.0 < LANES,
        ensures
            final(self).vector(Register::Cx) == old(self).vector(Register::Cx).update(
                cpu.0 as int,
                val,
            ),
            forall|other: Register|
                other.is_main() && other != Register::Cx ==> final(self).vector(other) == old(
                    self,
                ).vector(other),
    {
        self.set_in(Register::Cx, cpu, val);
    }

    /// The values of DX in the 32 cores
    pub fn dx(&self) -> (res: [u16; 32])
        ensures
            res@ == self.vector(Register::Dx),
    {
        self.get(Register::Dx)
    }

    /// Set DX of every core to the value
    pub fn set_dx(&mut self, val: u16)
        ensures
            final(self).vector(Register::Dx) == Seq::new(32, |i: int| val),
            forall|other: Register|
                other.is_main() && other != Register::Dx ==> final(self).vector(other) == old(
                    self,
                ).vector(other),
    {
        self.set(Register::Dx, val);
    }

    /// Set DX of one core to the value
    pub fn set_dx_in(&mut self, cpu: Core, val: u16)
        requires
            cpu.0 < LANES,
        ensures
            final(self).vector(Register::Dx) == old(self).vector(Register::Dx).update(
                cpu.0 as int,
                val,
            ),
            forall|other: Register|
                other.is_main() && other != Register::Dx ==> final(self).vector(other) == old(
                    self,
                ).vector(other),
    {
        self.set_in(Register::Dx, cpu, val);
    }

    /// The values of SI in the 32 cores
    pub fn si(&self) -> (res: [u16; 32])
        ensures
            res@ == self.vector(Register::Si),
    {
        self.get(Register::Si)
    }

    /// Set SI of every core to the value
    pub fn set_si(&mut self, val: u16)
        ensures
            final(self).vector(Register::Si) == Seq::new(32, |i: int| val),
            forall|other: Register|
                other.is_main() && other != Register::Si ==> final(self).vector(other) == old(
                    self,
                ).vector(other),
    {
        self.set(Register::Si, val);
    }

    /// Set SI of one core to the value
    pub fn set_si_in(&mut self, cpu: Core, val: u16)
        requires
            cpu.0 < LANES,
        ensures
            final(self).vector(Register::Si) == old(self).vector(Register::Si).update(
                cpu.0 as int,
                val,
            ),
            forall|other: Register|
                other.is_main() && other != Register::Si ==> final(self).vector(other) == old(
                    self,
                ).vector(other),
    {
        self.set_in(Register::Si, cpu, val);
    }

    /// The values of DI in the 32 cores
    pub fn di(&self) -> (res: [u16; 32])
        ensures
            res@ == self.vector(Register::Di),
    {
        self.get(Register::Di)
    }

    /// Set DI of every core to the value
    pub fn set_di(&mut self, val: u16)
        ensures
            final(self).vector(Register::Di) == Seq::new(32, |i: int| val),
            forall|other: Register|
                other.is_main() && other != Register::Di ==> final(self).vector(other) == old(
                    self,
                ).vector(other),
    {
        self.set(Register::Di, val);
    }

    /// Set DI of one core to the value
    pub fn set_di_in(&mut self, cpu: Core, val: u16)
        requires
            cpu.0 < LANES,
        ensures
            final(self).vector(Register::Di) == old(self).vector(Register::Di).update(
                cpu.0 as int,
                val,
            ),
            forall|other: Register|
                other.is_main() && other != Register::Di ==> final(self).vector(other) == old(
                    self,
                ).vector(other),
    {
        self.set_in(Register::Di, cpu, val);
    }

    /// The values of BP in the 32 cores
    pub fn bp(&self) -> (res: [u16; 32])
        ensures
            res@ == self.vector(Register::Bp),
    {
        self.get(Register::Bp)
    }

    /// Set BP of every core to the value
    pub fn set_bp(&mut self, val: u16)
        ensures
            final(self).vector(Register::Bp) == Seq::new(32, |i: int| val),
            forall|other: Register|
                other.is_main() && other != Register::Bp ==> final(self).vector(other) == old(
                    self,
                ).vector(other),
    {
        self.set(Register::Bp, val);
    }

    /// Set BP of one core to the value
    pub fn set_bp_in(&mut self, cpu: Core, val: u16)
        requires
            cpu.0 < LANES,
        ensures
            final(self).vector(Register::Bp) == old(self).vector(Register::Bp).update(
                cpu.0 as int,
                val,
            ),
            forall|other: Register|
                other.is_main() && other != Register::Bp ==> final(self).vector(other) == old(
                    self,
                ).vector(other),
    {
        self.set_in(Register::Bp, cpu, val);
    }

    /// The values of SP in the 32 cores
    pub fn sp(&self) -> (res: [u16; 32])
        ensures
            res@ == self.vector(Register::Sp),
    {
        self.get(Register::Sp)
    }

    /// Set SP of every core to the value
    pub fn set_sp(&mut self, val: u16)
        ensures
            final(self).vector(Register::Sp) == Seq::new(32, |i: int| val),
            forall|other: Register|
                other.is_main() && other != Register::Sp ==> final(self).vector(other) == old(
                    self,
                ).vector(other),
    {
        self.set(Register::Sp, val);
    }

    /// Set SP of one core to the value
    pub fn set_sp_in(&mut self, cpu: Core, val: u16)
        requires
            cpu.0 < LANES,
        ensures
            final(self).vector(Register::Sp) == old(self).vector(Register::Sp).update(
                cpu.0 as int,
                val,
            ),
            forall|other: Register|
                other.is_main() && other != Register::Sp ==> final(self).vector(other) == old(
                    self,
                ).vector(other),
    {
        self.set_in(Register::Sp, cpu, val);
    }
}

impl JitEmulatorState {
    /// Run translated code on the 32 cores, as the entry stub does on the
    /// host: the vector registers 1 to 10 are loaded with the registers of the
    /// cores, the code runs from the given position up to its first `ret`, and
    /// the vector registers are stored back. Returns whether the code could be
    /// run; if not, nothing is stored.
    pub fn call(&mut self, code: &[u8], start: usize) -> (res: bool)
        ensures
            forall|j: int|
                #![trigger old(self).lane(j)]
                0 <= j < 32 ==> match host_run(
                    entry_lane(old(self).lane(j)),
                    code@,
                    start as int,
                ) {
                    Some(lane) => res && final(self).lane(j) == lane.regs(),
                    None => !res && final(self).lane(j) == old(self).lane(j),
                },
    {
        let mut host = HostState::new();
        host.load(Zmm(1), self.ax);
        host.load(Zmm(2), self.bx);
        host.load(Zmm(3), self.cx);
        host.load(Zmm(4), self.dx);
        host.load(Zmm(5), self.si);
        host.load(Zmm(6), self.di);
        host.load(Zmm(7), self.bp);
        host.load(Zmm(8), self.sp);
        host.load(Zmm(9), self.ip);
        host.load(Zmm(10), self.flags);
        assert forall|j: int| 0 <= j < 32 implies #[trigger] host.lane(j) == entry_lane(
            self.lane(j),
        ) by {
            assert(host.lane(j).zmm =~= entry_lane(self.lane(j)).zmm);
        }
        let ghost loaded = host;
        if !host.run(code, start) {
            assert forall|j: int| 0 <= j < 32 implies host_run(
                entry_lane(#[trigger] old(self).lane(j)),
                code@,
                start as int,
            ).is_none() by {
                assert(loaded.lane(j) == entry_lane(self.lane(j)));
            }
            return false;
        }
        self.ax = host.read(Zmm(1));
        self.bx = host.read(Zmm(2));
        self.cx = host.read(Zmm(3));
        self.dx = host.read(Zmm(4));
        self.si = host.read(Zmm(5));
        self.di = host.read(Zmm(6));
        self.bp = host.read(Zmm(7));
        self.sp = host.read(Zmm(8));
        self.ip = host.read(Zmm(9));
        self.flags = host.read(Zmm(10));
        assert forall|j: int| 0 <= j < 32 implies (match host_run(
            entry_lane(#[trigger] old(self).lane(j)),
            code@,
            start as int,
        ) {
            Some(lane) => self.lane(j) == lane.regs(),
            None => false,
        }) by {
            assert(loaded.lane(j) == entry_lane(old(self).lane(j)));
            let lane = host.lane(j);
            assert(self.ax@[j] == lane.get(Zmm(1)) && lane.get(Zmm(1)) == lane.zmm[1]);
            assert(self.bx@[j] == lane.get(Zmm(2)) && lane.get(Zmm(2)) == lane.zmm[2]);
            assert(self.cx@[j] == lane.get(Zmm(3)) && lane.get(Zmm(3)) == lane.zmm[3]);
            assert(self.dx@[j] == lane.get(Zmm(4)) && lane.get(Zmm(4)) == lane.zmm[4]);
            assert(self.si@[j] == lane.get(Zmm(5)) && lane.get(Zmm(5)) == lane.zmm[5]);
            assert(self.di@[j] == lane.get(Zmm(6)) && lane.get(Zmm(6)) == lane.zmm[6]);
            assert(self.bp@[j] == lane.get(Zmm(7)) && lane.get(Zmm(7)) == lane.zmm[7]);
            assert(self.sp@[j] == lane.get(Zmm(8)) && lane.get(Zmm(8)) == lane.zmm[8]);
            assert(self.ip@[j] == lane.get(Zmm(9)) && lane.get(Zmm(9)) == lane.zmm[9]);
            assert(self.flags@[j] == lane.get(Zmm(10)) && lane.get(Zmm(10)) == lane.zmm[10]);
            assert(self.lane(j) =~= lane.regs());
        }
        true
    }
}

impl Default for JitEmulatorState {
    fn default() -> (res: Self)
        ensures
            forall|core: int| 0 <= core < 32 ==> res.lane(core) == Seq::new(10, |i: int| 0u16),
    {
        JitEmulatorState::new()
    }
}

} // verus!
