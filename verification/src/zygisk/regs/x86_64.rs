//! Registers of 64-bit x86.
#![allow(non_camel_case_types)]

use vstd::prelude::*;

use super::{CallStyle, Registers};

verus! {

/// `struct user_regs_struct` of 64-bit x86.
#[derive(Clone, Copy)]
pub struct user_regs_struct {
    pub r15: u64,
    pub r14: u64,
    pub r13: u64,
    pub r12: u64,
    pub rbp: u64,
    pub rbx: u64,
    pub r11: u64,
    pub r10: u64,
    pub r9: u64,
    pub r8: u64,
    pub rax: u64,
    pub rcx: u64,
    pub rdx: u64,
    pub rsi: u64,
    pub rdi: u64,
    pub orig_rax: u64,
    pub rip: u64,
    pub cs: u64,
    pub eflags: u64,
    pub rsp: u64,
    pub ss: u64,
    pub fs_base: u64,
    pub gs_base: u64,
    pub ds: u64,
    pub es: u64,
    pub fs: u64,
    pub gs: u64,
}

impl Registers for user_regs_struct {
    open spec fn words(&self) -> Seq<u64> {
        seq![
            self.r15,
            self.r14,
            self.r13,
            self.r12,
            self.rbp,
            self.rbx,
            self.r11,
            self.r10,
            self.r9,
            self.r8,
            self.rax,
            self.rcx,
            self.rdx,
            self.rsi,
            self.rdi,
            self.orig_rax,
            self.rip,
            self.cs,
            self.eflags,
            self.rsp,
            self.ss,
            self.fs_base,
            self.gs_base,
            self.ds,
            self.es,
            self.fs,
            self.gs,
        ]
    }

    open spec fn count() -> nat {
        27
    }

    open spec fn sp_index() -> int {
        19
    }

    open spec fn ip_index() -> int {
        16
    }

    open spec fn ret_index() -> int {
        10
    }

    open spec fn arg_index(i: int) -> Option<int> {
        if i == 0 {
            Some(14)
        } else if i == 1 {
            Some(13)
        } else if i == 2 {
            Some(12)
        } else if i == 3 {
            Some(11)
        } else if i == 4 {
            Some(9)
        } else if i == 5 {
            Some(8)
        } else {
            None
        }
    }

    open spec fn lr_index() -> Option<int> {
        None
    }

    open spec fn mode_index() -> Option<int> {
        None
    }

    open spec fn word() -> nat {
        8
    }

    open spec fn fit(v: u64) -> u64 {
        v
    }

    open spec fn style() -> CallStyle {
        CallStyle::PushedReturn { register_args: 6 }
    }

    proof fn layout(&self) {
    }

    fn reg_sp(&self) -> (r: u64) {
        self.rsp
    }

    fn set_reg_sp(&mut self, v: u64) {
        self.rsp = v;
        assert(self.words() =~= old(self).words().update(19, v));
    }

    fn reg_ip(&self) -> (r: u64) {
        self.rip
    }

    fn set_reg_ip(&mut self, v: u64) {
        self.rip = v;
        assert(self.words() =~= old(self).words().update(16, v));
    }

    fn reg_ret(&self) -> (r: u64) {
        self.rax
    }

    fn set_regs_arg(&mut self, i: usize, v: u64) {
        match i {
            0 => {
                self.rdi = v;
                assert(self.words() =~= old(self).words().update(14, v));
            },
            1 => {
                self.rsi = v;
                assert(self.words() =~= old(self).words().update(13, v));
            },
            2 => {
                self.rdx = v;
                assert(self.words() =~= old(self).words().update(12, v));
            },
            3 => {
                self.rcx = v;
                assert(self.words() =~= old(self).words().update(11, v));
            },
            4 => {
                self.r8 = v;
                assert(self.words() =~= old(self).words().update(9, v));
            },
            5 => {
                self.r9 = v;
                assert(self.words() =~= old(self).words().update(8, v));
            },
            _ => {},
        }
    }

    fn set_lr(&mut self, v: u64) {
    }

    fn set_mode(&mut self, short: bool) {
    }

    fn has_mode() -> (r: bool) {
        false
    }

    fn word_size() -> (r: u64) {
        8
    }

    fn call_style() -> (r: CallStyle) {
        CallStyle::PushedReturn { register_args: 6 }
    }
}

/// Functions find their first six arguments in `rdi`, `rsi`, `rdx`, `rcx`, `r8` and
/// `r9`, and return in `rax`; the stack pointer is `rsp` and the instruction pointer
/// `rip`, all of eight bytes.
pub proof fn law_registers_by_name(regs: user_regs_struct, v: u64)
    ensures
        ({
            let w = regs.words();
            &&& w[user_regs_struct::sp_index()] == regs.rsp
            &&& w[user_regs_struct::ip_index()] == regs.rip
            &&& w[user_regs_struct::ret_index()] == regs.rax
            &&& w[user_regs_struct::arg_index(0).unwrap()] == regs.rdi
            &&& w[user_regs_struct::arg_index(1).unwrap()] == regs.rsi
            &&& w[user_regs_struct::arg_index(2).unwrap()] == regs.rdx
            &&& w[user_regs_struct::arg_index(3).unwrap()] == regs.rcx
            &&& w[user_regs_struct::arg_index(4).unwrap()] == regs.r8
            &&& w[user_regs_struct::arg_index(5).unwrap()] == regs.r9
        }),
        user_regs_struct::arg_index(6) is None,
        user_regs_struct::lr_index() is None,
        user_regs_struct::mode_index() is None,
        user_regs_struct::style() == (CallStyle::PushedReturn { register_args: 6 }),
        user_regs_struct::word() == 8,
        user_regs_struct::fit(v) == v,
{
}

} // verus!
