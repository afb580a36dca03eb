//! Registers of 32-bit ARM.
#![allow(non_camel_case_types)]

use vstd::prelude::*;

use super::{with_mode, CallStyle, Registers};

verus! {

/// `struct user_regs_struct` of 32-bit ARM.
#[derive(Clone, Copy)]
pub struct user_regs_struct {
    pub uregs: [u32; 18],
}

impl Registers for user_regs_struct {
    open spec fn words(&self) -> Seq<u64> {
        Seq::new(18, |i: int| self.uregs@[i] as u64)
    }

    open spec fn count() -> nat {
        18
    }

    open spec fn sp_index() -> int {
        13
    }

    open spec fn ip_index() -> int {
        15
    }

    open spec fn ret_index() -> int {
        0
    }

    open spec fn arg_index(i: int) -> Option<int> {
        if 0 <= i < 13 {
            Some(i)
        } else {
            None
        }
    }

    open spec fn lr_index() -> Option<int> {
        Some(14)
    }

    open spec fn mode_index() -> Option<int> {
        Some(16)
    }

    open spec fn word() -> nat {
        4
    }

    open spec fn fit(v: u64) -> u64 {
        v as u32 as u64
    }

    open spec fn style() -> CallStyle {
        CallStyle::LinkRegister { register_args: 4 }
    }

    proof fn layout(&self) {
    }

    fn reg_sp(&self) -> (r: u64) {
        self.uregs[13] as u64
    }

    fn set_reg_sp(&mut self, v: u64) {
        self.uregs[13] = v as u32;
        assert(self.words() =~= old(self).words().update(13, v as u32 as u64));
    }

    fn reg_ip(&self) -> (r: u64) {
        self.uregs[15] as u64
    }

    fn set_reg_ip(&mut self, v: u64) {
        self.uregs[15] = v as u32;
        assert(self.words() =~= old(self).words().update(15, v as u32 as u64));
    }

    fn reg_ret(&self) -> (r: u64) {
        self.uregs[0] as u64
    }

    fn set_regs_arg(&mut self, i: usize, v: u64) {
        if i < 13 {
            self.uregs[i] = v as u32;
            assert(self.words() =~= old(self).words().update(i as int, v as u32 as u64));
        }
    }

    fn set_lr(&mut self, v: u64) {
        self.uregs[14] = v as u32;
        assert(self.words() =~= old(self).words().update(14, v as u32 as u64));
    }

    fn set_mode(&mut self, short: bool) {
        let mode: u32 = self.uregs[16];
        self.uregs[16] = if short {
            mode | 0x20
        } else {
            mode & 0xffff_ffdf
        };
        assert(self.words() =~= old(self).words().update(16, with_mode(mode as u64, short)));
    }

    fn has_mode() -> (r: bool) {
        true
    }

    fn word_size() -> (r: u64) {
        4
    }

    fn call_style() -> (r: CallStyle) {
        CallStyle::LinkRegister { register_args: 4 }
    }
}

/// Functions find their first four arguments in the first four registers and return
/// in the first; the stack pointer is register 13, the address to return to stands
/// in register 14, the instruction pointer is register 15, and register 16 tells
/// the instruction set. All have four bytes.
pub proof fn law_registers_by_number(regs: user_regs_struct, i: int, v: u64)
    ensures
        ({
            let w = regs.words();
            &&& w.len() == 18
            &&& w[user_regs_struct::sp_index()] == regs.uregs@[13]
            &&& w[user_regs_struct::lr_index().unwrap()] == regs.uregs@[14]
            &&& w[user_regs_struct::ip_index()] == regs.uregs@[15]
            &&& w[user_regs_struct::mode_index().unwrap()] == regs.uregs@[16]
            &&& w[user_regs_struct::ret_index()] == regs.uregs@[0]
            &&& 0 <= i < 4 ==> w[user_regs_struct::arg_index(i).unwrap()] == regs.uregs@[i]
        }),
        user_regs_struct::style() == (CallStyle::LinkRegister { register_args: 4 }),
        user_regs_struct::word() == 4,
        user_regs_struct::fit(v) == v % 0x1_0000_0000,
{
    assert(v as u32 as u64 == v % 0x1_0000_0000) by (bit_vector);
}

} // verus!
