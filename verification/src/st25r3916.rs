//! ST25R3916 NFC transceiver: register and command maps, the I2C driver
//! and its initiator (reader) sequences, target (card emulation) set-up,
//! passive target memory, and the target-side tag framing (NDEF, Type 2,
//! Type 4).

use vstd::prelude::*;
use crate::bus::{I2cBus, I2cDevice, I2cLog, I2cRequest, Event, Step, on_track, ran, completed, stopped};
use crate::st25r3916::commands::spec_register_read_cmd;

pub mod commands;
pub mod error;
pub mod initiator;
pub mod memory;
pub mod ndef;
pub mod registers;
pub mod type2;
pub mod type4;
pub mod target;

pub use commands::{
    register_read_cmd, CMD_GOTO_SENSE, CMD_GOTO_SLEEP, CMD_NFC_INITIAL_FIELD_ON,
    CMD_NFC_RESPONSE_FIELD_ON, CMD_READ_IC_IDENTITY, CMD_RESET_RX_GAIN, CMD_SET_DEFAULT,
    CMD_STOP_ALL, CMD_TRANSMIT_REQA, CMD_TRANSMIT_WITH_CRC, CMD_TRANSMIT_WITHOUT_CRC,
    CMD_TRANSMIT_WUPA, MODE_PT_MEM_A_CONFIG, MODE_PT_MEM_F_CONFIG, MODE_PT_MEM_READ,
    MODE_PT_MEM_TSN,
};
pub use error::Error;
pub use memory::{NfcFParams, PtMemory};
pub use target::{
    NfcATargetConfig, NfcATargetKind, NfcFBitRate, NfcFTargetConfig, Nfcip1CommunicationMode,
    Nfcip1TargetConfig, TargetInterrupts, TargetModulation,
};
pub use registers::{
    PtaState, IC_TYPE_ST25R3916, REG_AUX_DISPLAY, REG_BIT_RATE, REG_FIFO_STATUS1,
    REG_FIFO_STATUS2, REG_IC_IDENTITY, REG_IO_CONF1, REG_IO_CONF2, REG_ISO14443A_SETTINGS,
    REG_MAIN_IRQ, REG_MODE_DEFINITION, REG_NFCIP1_PASSIVE_TARGET, REG_OP_CONTROL,
    REG_RECEIVER_CONF1, REG_RECEIVER_CONF2, REG_RECEIVER_CONF3, REG_RECEIVER_CONF4,
    REG_TARGET_DISPLAY, REG_TARGET_IRQ,
};

verus! {

/// Decoded IC identity (register `0x3F`): bits 7:3 are the IC type
/// (`5` for ST25R3916), bits 2:0 the silicon revision.
#[derive(Debug, Clone, Copy, PartialEq, Eq, Structural)]
pub struct IcIdentity {
    /// IC type code (bits 7:3).
    pub ic_type: u8,
    /// Silicon revision (bits 2:0).
    pub ic_rev: u8,
}

/// Identity of a raw register byte.
pub open spec fn spec_ic_identity(b: u8) -> IcIdentity {
    IcIdentity { ic_type: b / 8, ic_rev: b % 8 }
}

impl IcIdentity {
    /// Decodes an IC identity from a raw register `0x3F` byte.
    pub fn from_byte(b: u8) -> (id: IcIdentity)
        ensures
            id == spec_ic_identity(b),
    {
        IcIdentity { ic_type: b / 8, ic_rev: b % 8 }
    }

    /// Whether this identity is the ST25R3916 (`ic_type == 5`).
    pub fn is_st25r3916(&self) -> (b: bool)
        ensures
            b <==> self.ic_type == registers::IC_TYPE_ST25R3916,
    {
        self.ic_type == registers::IC_TYPE_ST25R3916
    }
}

/// Register write: the register address (low six bits) and the value.
pub open spec fn reg_write_req(address: u8, reg: u8, val: u8) -> I2cRequest {
    I2cRequest::Write(address, seq![(reg % 64) as u8, val])
}

/// Direct command: the command byte alone.
pub open spec fn cmd_req(address: u8, cmd: u8) -> I2cRequest {
    I2cRequest::Write(address, seq![cmd])
}

/// Register read: the read command byte, then one byte back.
pub open spec fn reg_read_req(address: u8, reg: u8) -> I2cRequest {
    I2cRequest::WriteRead(address, seq![spec_register_read_cmd(reg)], 1)
}

/// The single event a one-transfer operation appends: `log` is `old`
/// plus one event for `req` whose success is `ok`.
pub open spec fn one_event(old: I2cLog, log: I2cLog, req: I2cRequest, ok: bool) -> bool {
    &&& log.len() == old.len() + 1
    &&& log.drop_last() == old
    &&& log.last().request == req
    &&& log.last().ok == ok
}

/// Value a masked register update writes: bits in `mask` from `val`,
/// the others from `current`.
pub open spec fn masked(current: u8, mask: u8, val: u8) -> u8 {
    (current & !mask) | (val & mask)
}

/// ST25R3916 NFC transceiver driver over an I2C bus.
pub struct St25r3916<B> {
    dev: I2cDevice<B>,
}

impl<B: I2cBus> St25r3916<B> {
    /// The bus the driver holds.
    pub closed spec fn spec_bus(&self) -> B {
        self.dev.spec_bus()
    }

    /// I2C traffic issued so far, oldest first.
    pub closed spec fn events(&self) -> I2cLog {
        self.dev.events()
    }

    /// The 7-bit address the driver talks to.
    pub closed spec fn spec_address(&self) -> u8 {
        self.dev.spec_address()
    }

    /// Creates a driver over the bus at `address`; nothing is sent.
    pub fn new(i2c: B, address: u8) -> (d: Self)
        ensures
            d.events() == Seq::<Event<I2cRequest>>::empty(),
            d.spec_address() == address,
            d.spec_bus() == i2c,
    {
        St25r3916 { dev: I2cDevice::new(i2c, address) }
    }

    /// Destroys the driver and returns the bus it holds.
    pub fn release(self) -> (b: B)
        ensures
            b == self.spec_bus(),
    {
        self.dev.release()
    }

    /// The active 7-bit I2C address.
    pub fn address(&self) -> (a: u8)
        ensures
            a == self.spec_address(),
    {
        self.dev.address()
    }

    /// Reads one register: a register-read command, one byte back.
    pub fn read_reg(&mut self, reg: u8) -> (r: Result<u8, B::Error>)
        ensures
            final(self).spec_address() == old(self).spec_address(),
            one_event(old(self).events(), final(self).events(), reg_read_req(old(self).spec_address(), reg), r is Ok),
            r matches Ok(v) ==> final(self).events().last().data == seq![v],
    {
        let cmd = commands::register_read_cmd(reg);
        let mut buf = [0u8; 1];
        let ghost log = self.events();
        let bytes = [cmd];
        assert(bytes@ =~= seq![cmd]);
        let res = self.dev.write_read(&bytes, &mut buf);
        proof {
            assert(self.events().drop_last() =~= log);
        }
        match res {
            Ok(()) => {
                assert(buf@ =~= seq![buf[0]]);
                Ok(buf[0])
            },
            Err(e) => Err(e),
        }
    }

    /// Writes one register: the address (low six bits) and the value.
    pub fn write_reg(&mut self, reg: u8, val: u8) -> (r: Result<(), B::Error>)
        ensures
            final(self).spec_address() == old(self).spec_address(),
            one_event(old(self).events(), final(self).events(), reg_write_req(old(self).spec_address(), reg, val), r is Ok),
    {
        let ghost log = self.events();
        let r = self.dev.write(&[reg % 64, val]);
        proof {
            assert(self.events().drop_last() =~= log);
        }
        r
    }

    /// Masked register update: reads the register, then writes the bits
    /// in `mask` from `val` and keeps the others; a failed read writes
    /// nothing.
    pub fn modify_reg(&mut self, reg: u8, mask: u8, val: u8) -> (r: Result<(), B::Error>)
        ensures
            final(self).spec_address() == old(self).spec_address(),
            ran(old(self).events(), final(self).events(), seq![
                (reg_read_req(old(self).spec_address(), reg), true),
                (reg_write_req(old(self).spec_address(), reg, masked(final(self).events()[old(self).events().len() as int].data[0], mask, val)), true),
            ]),
            r is Ok <==> completed(old(self).events(), final(self).events(), seq![
                (reg_read_req(old(self).spec_address(), reg), true),
                (reg_write_req(old(self).spec_address(), reg, masked(final(self).events()[old(self).events().len() as int].data[0], mask, val)), true),
            ]),
    {
        let ghost base = self.events();
        let ghost addr = self.spec_address();
        let current = match self.read_reg(reg) {
            Ok(v) => v,
            Err(e) => {
                assert(stopped(base, self.events(), seq![
                    (reg_read_req(addr, reg), true),
                    (reg_write_req(addr, reg, masked(self.events()[base.len() as int].data[0], mask, val)), true),
                ]));
                return Err(e);
            },
        };
        let new_val = (current & !mask) | (val & mask);
        let ghost mid = self.events();
        let r = self.write_reg(reg, new_val);
        proof {
            let plan = seq![
                (reg_read_req(addr, reg), true),
                (reg_write_req(addr, reg, masked(self.events()[base.len() as int].data[0], mask, val)), true),
            ];
            assert(self.events()[base.len() as int] == mid[base.len() as int]);
            assert(on_track(base, mid, plan)) by {
                assert(base.is_prefix_of(mid)) by {
                    assert(base =~= mid.subrange(0, base.len() as int));
                }
            }
            crate::bus::lemma_step(base, mid, plan, self.events().last());
            assert(mid.push(self.events().last()) =~= self.events());
        }
        r
    }

    /// Executes a direct command (one command byte).
    pub fn direct_cmd(&mut self, cmd: u8) -> (r: Result<(), B::Error>)
        ensures
            final(self).spec_address() == old(self).spec_address(),
            one_event(old(self).events(), final(self).events(), cmd_req(old(self).spec_address(), cmd), r is Ok),
    {
        let ghost log = self.events();
        let bytes = [cmd];
        assert(bytes@ =~= seq![cmd]);
        let r = self.dev.write(&bytes);
        proof {
            assert(self.events().drop_last() =~= log);
        }
        r
    }

    /// Reads and decodes the IC identity register (`0x3F`).
    pub fn read_identity(&mut self) -> (r: Result<IcIdentity, B::Error>)
        ensures
            final(self).spec_address() == old(self).spec_address(),
            one_event(old(self).events(), final(self).events(), reg_read_req(old(self).spec_address(), registers::REG_IC_IDENTITY), r is Ok),
            r matches Ok(id) ==> final(self).events().last().data.len() == 1
                && id == spec_ic_identity(final(self).events().last().data[0]),
    {
        match self.read_reg(registers::REG_IC_IDENTITY) {
            Ok(b) => Ok(IcIdentity::from_byte(b)),
            Err(e) => Err(e),
        }
    }

    /// Number of bytes waiting in the FIFO (`FIFO_STATUS1`).
    pub fn fifo_bytes(&mut self) -> (r: Result<u8, B::Error>)
        ensures
            final(self).spec_address() == old(self).spec_address(),
            one_event(old(self).events(), final(self).events(), reg_read_req(old(self).spec_address(), registers::REG_FIFO_STATUS1), r is Ok),
            r matches Ok(v) ==> final(self).events().last().data == seq![v],
    {
        self.read_reg(registers::REG_FIFO_STATUS1)
    }

    /// Reads `buf.len()` bytes out of the FIFO (FIFO read mode).
    pub fn read_fifo(&mut self, buf: &mut [u8]) -> (r: Result<(), B::Error>)
        ensures
            final(self).spec_address() == old(self).spec_address(),
            final(buf)@.len() == old(buf)@.len(),
            one_event(old(self).events(), final(self).events(), fifo_read_req(old(self).spec_address(), old(buf)@.len()), r is Ok),
            final(self).events().last().data == final(buf)@,
    {
        let bytes = [commands::MODE_FIFO_READ];
        assert(bytes@ =~= seq![commands::MODE_FIFO_READ]);
        let ghost log = self.events();
        let r = self.dev.write_read(&bytes, buf);
        proof {
            assert(self.events().drop_last() =~= log);
        }
        r
    }

    /// Loads `data` into the FIFO (FIFO load mode byte, then the data).
    pub fn write_fifo(&mut self, data: &[u8]) -> (r: Result<(), B::Error>)
        requires
            data@.len() < usize::MAX,
        ensures
            final(self).spec_address() == old(self).spec_address(),
            one_event(old(self).events(), final(self).events(), fifo_load_req(old(self).spec_address(), data@), r is Ok),
    {
        let mut buf: Vec<u8> = Vec::new();
        buf.push(commands::MODE_FIFO_LOAD);
        let mut i: usize = 0;
        while i < data.len()
            invariant
                i <= data@.len(),
                buf@ == seq![commands::MODE_FIFO_LOAD] + data@.subrange(0, i as int),
            decreases data@.len() - i,
        {
            buf.push(data[i]);
            i += 1;
            assert(buf@ =~= seq![commands::MODE_FIFO_LOAD] + data@.subrange(0, i as int));
        }
        assert(data@.subrange(0, data@.len() as int) =~= data@);
        let ghost log = self.events();
        let r = self.dev.write(buf.as_slice());
        proof {
            assert(self.events().drop_last() =~= log);
        }
        r
    }

    /// Register write as the next planned step.
    fn reg_write_step(&mut self, reg: u8, val: u8, Ghost(base): Ghost<I2cLog>, Ghost(plan): Ghost<Seq<Step<I2cRequest>>>) -> (r: Result<(), B::Error>)
        requires
            on_track(base, old(self).events(), plan),
            old(self).events().len() < base.len() + plan.len(),
            plan[old(self).events().len() - base.len()].0 == reg_write_req(old(self).spec_address(), reg, val),
        ensures
            final(self).spec_address() == old(self).spec_address(),
            final(self).events().len() == old(self).events().len() + 1,
            final(self).events().drop_last() == old(self).events(),
            (r is Ok || !plan[old(self).events().len() - base.len()].1) ==> on_track(base, final(self).events(), plan),
            (r is Err && plan[old(self).events().len() - base.len()].1) ==> stopped(base, final(self).events(), plan),
    {
        let bytes = [reg % 64, val];
        assert(bytes@ =~= seq![(reg % 64) as u8, val]);
        self.dev.write_step(&bytes, Ghost(base), Ghost(plan))
    }

    /// Direct command as the next planned step.
    fn cmd_step(&mut self, cmd: u8, Ghost(base): Ghost<I2cLog>, Ghost(plan): Ghost<Seq<Step<I2cRequest>>>) -> (r: Result<(), B::Error>)
        requires
            on_track(base, old(self).events(), plan),
            old(self).events().len() < base.len() + plan.len(),
            plan[old(self).events().len() - base.len()].0 == cmd_req(old(self).spec_address(), cmd),
        ensures
            final(self).spec_address() == old(self).spec_address(),
            final(self).events().len() == old(self).events().len() + 1,
            final(self).events().drop_last() == old(self).events(),
            (r is Ok || !plan[old(self).events().len() - base.len()].1) ==> on_track(base, final(self).events(), plan),
            (r is Err && plan[old(self).events().len() - base.len()].1) ==> stopped(base, final(self).events(), plan),
    {
        let bytes = [cmd];
        assert(bytes@ =~= seq![cmd]);
        self.dev.write_step(&bytes, Ghost(base), Ghost(plan))
    }

    /// Register read as the next planned step; on success the value is
    /// the byte the event recorded.
    fn reg_read_step(&mut self, reg: u8, Ghost(base): Ghost<I2cLog>, Ghost(plan): Ghost<Seq<Step<I2cRequest>>>) -> (r: Result<u8, B::Error>)
        requires
            on_track(base, old(self).events(), plan),
            old(self).events().len() < base.len() + plan.len(),
            plan[old(self).events().len() - base.len()].0 == reg_read_req(old(self).spec_address(), reg),
        ensures
            final(self).spec_address() == old(self).spec_address(),
            final(self).events().len() == old(self).events().len() + 1,
            final(self).events().drop_last() == old(self).events(),
            final(self).events().last().data.len() == 1,
            r matches Ok(v) ==> final(self).events().last().data[0] == v,
            (r is Ok || !plan[old(self).events().len() - base.len()].1) ==> on_track(base, final(self).events(), plan),
            (r is Err && plan[old(self).events().len() - base.len()].1) ==> stopped(base, final(self).events(), plan),
    {
        let cmd = commands::register_read_cmd(reg);
        let bytes = [cmd];
        assert(bytes@ =~= seq![cmd]);
        let mut buf = [0u8; 1];
        match self.dev.write_read_step(&bytes, &mut buf, Ghost(base), Ghost(plan)) {
            Ok(()) => Ok(buf[0]),
            Err(e) => Err(e),
        }
    }

    /// FIFO read as the next planned step.
    fn fifo_read_step(&mut self, buf: &mut [u8], Ghost(base): Ghost<I2cLog>, Ghost(plan): Ghost<Seq<Step<I2cRequest>>>) -> (r: Result<(), B::Error>)
        requires
            on_track(base, old(self).events(), plan),
            old(self).events().len() < base.len() + plan.len(),
            plan[old(self).events().len() - base.len()].0 == fifo_read_req(old(self).spec_address(), old(buf)@.len()),
        ensures
            final(self).spec_address() == old(self).spec_address(),
            final(buf)@.len() == old(buf)@.len(),
            final(self).events().len() == old(self).events().len() + 1,
            final(self).events().drop_last() == old(self).events(),
            final(self).events().last().data == final(buf)@,
            (r is Ok || !plan[old(self).events().len() - base.len()].1) ==> on_track(base, final(self).events(), plan),
            (r is Err && plan[old(self).events().len() - base.len()].1) ==> stopped(base, final(self).events(), plan),
    {
        let bytes = [commands::MODE_FIFO_READ];
        assert(bytes@ =~= seq![commands::MODE_FIFO_READ]);
        self.dev.write_read_step(&bytes, buf, Ghost(base), Ghost(plan))
    }

    /// FIFO load as the next planned step.
    fn fifo_load_step(&mut self, data: &[u8], Ghost(base): Ghost<I2cLog>, Ghost(plan): Ghost<Seq<Step<I2cRequest>>>) -> (r: Result<(), B::Error>)
        requires
            data@.len() < 16,
            on_track(base, old(self).events(), plan),
            old(self).events().len() < base.len() + plan.len(),
            plan[old(self).events().len() - base.len()].0 == fifo_load_req(old(self).spec_address(), data@),
        ensures
            final(self).spec_address() == old(self).spec_address(),
            final(self).events().len() == old(self).events().len() + 1,
            final(self).events().drop_last() == old(self).events(),
            (r is Ok || !plan[old(self).events().len() - base.len()].1) ==> on_track(base, final(self).events(), plan),
            (r is Err && plan[old(self).events().len() - base.len()].1) ==> stopped(base, final(self).events(), plan),
    {
        let mut buf: Vec<u8> = Vec::new();
        buf.push(commands::MODE_FIFO_LOAD);
        let mut i: usize = 0;
        while i < data.len()
            invariant
                i <= data@.len(),
                buf@ == seq![commands::MODE_FIFO_LOAD] + data@.subrange(0, i as int),
            decreases data@.len() - i,
        {
            buf.push(data[i]);
            i += 1;
            assert(buf@ =~= seq![commands::MODE_FIFO_LOAD] + data@.subrange(0, i as int));
        }
        assert(data@.subrange(0, data@.len() as int) =~= data@);
        self.dev.write_step(buf.as_slice(), Ghost(base), Ghost(plan))
    }

    /// Writes a mode byte followed by `data` in one transfer.
    fn write_mode(&mut self, mode: u8, data: &[u8]) -> (r: Result<(), B::Error>)
        requires
            data@.len() < usize::MAX,
        ensures
            final(self).spec_address() == old(self).spec_address(),
            one_event(old(self).events(), final(self).events(), I2cRequest::Write(old(self).spec_address(), seq![mode] + data@), r is Ok),
    {
        let mut buf: Vec<u8> = Vec::new();
        buf.push(mode);
        let mut i: usize = 0;
        while i < data.len()
            invariant
                i <= data@.len(),
                buf@ == seq![mode] + data@.subrange(0, i as int),
            decreases data@.len() - i,
        {
            buf.push(data[i]);
            i += 1;
            assert(buf@ =~= seq![mode] + data@.subrange(0, i as int));
        }
        assert(data@.subrange(0, data@.len() as int) =~= data@);
        let ghost log = self.events();
        let r = self.dev.write(buf.as_slice());
        proof {
            assert(self.events().drop_last() =~= log);
        }
        r
    }

    /// Loads the NFC-A area (bytes 0..15) of passive-target memory: mode
    /// byte `0xA0`, then the 15 bytes.
    pub fn load_pt_memory_a(&mut self, mem: &PtMemory) -> (r: Result<(), B::Error>)
        ensures
            final(self).spec_address() == old(self).spec_address(),
            one_event(old(self).events(), final(self).events(), I2cRequest::Write(old(self).spec_address(), seq![commands::MODE_PT_MEM_A_CONFIG] + mem@.subrange(0, 15)), r is Ok),
    {
        proof {
            mem.lemma_len();
        }
        self.write_mode(commands::MODE_PT_MEM_A_CONFIG, mem.a_config())
    }

    /// Loads the NFC-F area (bytes 15..36) of passive-target memory: mode
    /// byte `0xA8`, then the 21 bytes.
    pub fn load_pt_memory_f(&mut self, mem: &PtMemory) -> (r: Result<(), B::Error>)
        ensures
            final(self).spec_address() == old(self).spec_address(),
            one_event(old(self).events(), final(self).events(), I2cRequest::Write(old(self).spec_address(), seq![commands::MODE_PT_MEM_F_CONFIG] + mem@.subrange(15, 36)), r is Ok),
    {
        proof {
            mem.lemma_len();
        }
        self.write_mode(commands::MODE_PT_MEM_F_CONFIG, mem.f_config())
    }

    /// Loads the TSN area (bytes 36..48) of passive-target memory: mode
    /// byte `0xAC`, then the 12 bytes.
    pub fn load_pt_memory_tsn(&mut self, mem: &PtMemory) -> (r: Result<(), B::Error>)
        ensures
            final(self).spec_address() == old(self).spec_address(),
            one_event(old(self).events(), final(self).events(), I2cRequest::Write(old(self).spec_address(), seq![commands::MODE_PT_MEM_TSN] + mem@.subrange(36, 48)), r is Ok),
    {
        proof {
            mem.lemma_len();
        }
        self.write_mode(commands::MODE_PT_MEM_TSN, mem.tsn())
    }

    /// Reads all 48 bytes of passive-target memory (mode byte `0xBF`, then
    /// 48 bytes back) into `buf`.
    pub fn read_pt_memory(&mut self, buf: &mut [u8; 48]) -> (r: Result<(), B::Error>)
        ensures
            final(self).spec_address() == old(self).spec_address(),
            one_event(old(self).events(), final(self).events(), I2cRequest::WriteRead(old(self).spec_address(), seq![commands::MODE_PT_MEM_READ], 48), r is Ok),
            final(self).events().last().data == final(buf)@,
    {
        let bytes = [commands::MODE_PT_MEM_READ];
        assert(bytes@ =~= seq![commands::MODE_PT_MEM_READ]);
        let ghost log = self.events();
        let r = self.dev.write_read(&bytes, buf);
        proof {
            assert(self.events().drop_last() =~= log);
        }
        r
    }

    /// Clears the FIFO and its status flags (one direct command).
    pub fn clear_fifo(&mut self) -> (r: Result<(), B::Error>)
        ensures
            final(self).spec_address() == old(self).spec_address(),
            one_event(old(self).events(), final(self).events(), cmd_req(old(self).spec_address(), commands::CMD_CLEAR_FIFO), r is Ok),
    {
        self.direct_cmd(commands::CMD_CLEAR_FIFO)
    }
}

/// FIFO read: the FIFO read mode byte, then `len` bytes back.
pub open spec fn fifo_read_req(address: u8, len: nat) -> I2cRequest {
    I2cRequest::WriteRead(address, seq![commands::MODE_FIFO_READ], len)
}

/// FIFO load: the FIFO load mode byte followed by the data.
pub open spec fn fifo_load_req(address: u8, data: Seq<u8>) -> I2cRequest {
    I2cRequest::Write(address, seq![commands::MODE_FIFO_LOAD] + data)
}

} // verus!
