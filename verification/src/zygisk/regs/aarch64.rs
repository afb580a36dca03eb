//! Registers of 64-bit ARM.
#![allow(non_camel_case_types)]

use vstd::prelude::*;

use super::{CallStyle, Registers};

verus! {

/// `struct user_regs_struct` of 64-bit ARM.
#[derive(Clone, Copy)]
pub struct user_regs_struct {
    pub regs: [u64; 31],
    pub sp: u64,
    pub pc: u64,
    pub pstate: u64,
}

impl Registers for user_regs_struct {
    open spec fn words(&self) -> Seq<u64> {
        self.regs@ + seq![self.sp, self.pc, self.pstate]
    }

    open spec fn count() -> nat {
        34
    }

    open spec fn sp_index() -> int {
        31
    }

    open spec fn ip_index() -> int {
        32
    }

    open spec fn ret_index() -> int {
        0
    }

    open spec fn arg_index(i: int) -> Option<int> {
        if 0 <= i < 31 {
            Some(i)
        } else {
            None
        }
    }

    open spec fn lr_index() -> Option<int> {
        Some(30)
    }

    open spec fn mode_index() -> Option<int> {
        None
    }

    open spec fn word() -> nat {
        8
    }

    open spec fn fit(v: u64) -> u64 {
        v
    }

    open spec fn style() -> CallStyle {
        CallStyle::LinkRegister { register_args: 8 }
    }

    proof fn layout(&self) {
    }

    fn reg_sp(&self) -> (r: u64) {
        self.sp
    }

    fn set_reg_sp(&mut self, v: u64) {
        self.sp = v;
        assert(self.words() =~= old(self).words().update(31, v));
    }

    fn reg_ip(&self) -> (r: u64) {
        self.pc
    }

    fn set_reg_ip(&mut self, v: u64) {
        self.pc = v;
        assert(self.words() =~= old(self).words().update(32, v));
    }

    fn reg_ret(&self) -> (r: u64) {
        self.regs[0]
    }

    fn set_regs_arg(&mut self, i: usize, v: u64) {
        if i < 31 {
            self.regs[i] = v;
            assert(self.words() =~= old(self).words().update(i as int, v));
        }
    }

    fn set_lr(&mut self, v: u64) {
        self.regs[30] = v;
        assert(self.words() =~= old(self).words().update(30, v));
    }

    fn set_mode(&mut self, short: bool) {
    }

    fn has_mode() -> (r: bool) {
        false
    }

    fn word_size() -> (r: u64) {
        8
    }

    fn call_style() -> (r: CallStyle) {
        CallStyle::LinkRegister { register_args: 8 }
    }
}

/// Functions find their first eight arguments in the first eight registers and
/// return in the first; the address to return to stands in register 30. All have
/// eight bytes, and there is one instruction set.
pub proof fn law_registers_by_number(regs: user_regs_struct, i: int, v: u64)
    ensures
        ({
            let w = regs.words();
            &&& w.len() == 34
            &&& w[user_regs_struct::sp_index()] == regs.sp
            &&& w[user_regs_struct::ip_index()] == regs.pc
            &&& w[user_regs_struct::lr_index().unwrap()] == regs.regs@[30]
            &&& w[user_regs_struct::ret_index()] == regs.regs@[0]
            &&& 0 <= i < 8 ==> w[user_regs_struct::arg_index(i).unwrap()] == regs.regs@[i]
        }),
        user_regs_struct::mode_index() is None,
        user_regs_struct::style() == (CallStyle::LinkRegister { register_args: 8 }),
        user_regs_struct::word() == 8,
        user_regs_struct::fit(v) == v,
{
}

} // verus!
