//! Registers of 32-bit x86.
#![allow(non_camel_case_types)]

use vstd::prelude::*;

use super::{CallStyle, Registers};

verus! {

/// `struct user_regs_struct` of 32-bit x86.
#[derive(Clone, Copy)]
pub struct user_regs_struct {
    pub ebx: u32,
    pub ecx: u32,
    pub edx: u32,
    pub esi: u32,
    pub edi: u32,
    pub ebp: u32,
    pub eax: u32,
    pub xds: u32,
    pub xes: u32,
    pub xfs: u32,
    pub xgs: u32,
    pub orig_eax: u32,
    pub eip: u32,
    pub xcs: u32,
    pub eflags: u32,
    pub esp: u32,
    pub xss: u32,
}

impl Registers for user_regs_struct {
    open spec fn words(&self) -> Seq<u64> {
        seq![
            self.ebx as u64,
            self.ecx as u64,
            self.edx as u64,
            self.esi as u64,
            self.edi as u64,
            self.ebp as u64,
            self.eax as u64,
            self.xds as u64,
            self.xes as u64,
            self.xfs as u64,
            self.xgs as u64,
            self.orig_eax as u64,
            self.eip as u64,
            self.xcs as u64,
            self.eflags as u64,
            self.esp as u64,
            self.xss as u64,
        ]
    }

    open spec fn count() -> nat {
        17
    }

    open spec fn sp_index() -> int {
        15
    }

    open spec fn ip_index() -> int {
        12
    }

    open spec fn ret_index() -> int {
        6
    }

    open spec fn arg_index(i: int) -> Option<int> {
        if i == 0 {
            Some(0)
        } else if i == 1 {
            Some(1)
        } else if i == 2 {
            Some(2)
        } else if i == 3 {
            Some(3)
        } else if i == 4 {
            Some(4)
        } else if i == 5 {
            Some(5)
        } else {
            None
        }
    }

    open spec fn lr_index() -> Option<int> {
        None
    }

    open spec fn mode_index() -> Option<int> {
        None
    }

    open spec fn word() -> nat {
        4
    }

    open spec fn fit(v: u64) -> u64 {
        v as u32 as u64
    }

    open spec fn style() -> CallStyle {
        CallStyle::PushedReturn { register_args: 0 }
    }

    proof fn layout(&self) {
    }

    fn reg_sp(&self) -> (r: u64) {
        self.esp as u64
    }

    fn set_reg_sp(&mut self, v: u64) {
        self.esp = v as u32;
        assert(self.words() =~= old(self).words().update(15, v as u32 as u64));
    }

    fn reg_ip(&self) -> (r: u64) {
        self.eip as u64
    }

    fn set_reg_ip(&mut self, v: u64) {
        self.eip = v as u32;
        assert(self.words() =~= old(self).words().update(12, v as u32 as u64));
    }

    fn reg_ret(&self) -> (r: u64) {
        self.eax as u64
    }

    fn set_regs_arg(&mut self, i: usize, v: u64) {
        match i {
            0 => {
                self.ebx = v as u32;
                assert(self.words() =~= old(self).words().update(0, v as u32 as u64));
            },
            1 => {
                self.ecx = v as u32;
                assert(self.words() =~= old(self).words().update(1, v as u32 as u64));
            },
            2 => {
                self.edx = v as u32;
                assert(self.words() =~= old(self).words().update(2, v as u32 as u64));
            },
            3 => {
                self.esi = v as u32;
                assert(self.words() =~= old(self).words().update(3, v as u32 as u64));
            },
            4 => {
                self.edi = v as u32;
                assert(self.words() =~= old(self).words().update(4, v as u32 as u64));
            },
            5 => {
                self.ebp = v as u32;
                assert(self.words() =~= old(self).words().update(5, v as u32 as u64));
            },
            _ => {},
        }
    }

    fn set_lr(&mut self, v: u64) {
    }

    fn set_mode(&mut self, short: bool) {
    }

    fn has_mode() -> (r: bool) {
        false
    }

    fn word_size() -> (r: u64) {
        4
    }

    fn call_style() -> (r: CallStyle) {
        CallStyle::PushedReturn { register_args: 0 }
    }
}

/// Functions find all arguments on the stack and return in `eax`; the stack pointer
/// is `esp` and the instruction pointer `eip`, all of four bytes. Six registers can
/// be set as arguments of a system call.
pub proof fn law_registers_by_name(regs: user_regs_struct, v: u64)
    ensures
        ({
            let w = regs.words();
            &&& w[user_regs_struct::sp_index()] == regs.esp
            &&& w[user_regs_struct::ip_index()] == regs.eip
            &&& w[user_regs_struct::ret_index()] == regs.eax
            &&& w[user_regs_struct::arg_index(0).unwrap()] == regs.ebx
            &&& w[user_regs_struct::arg_index(1).unwrap()] == regs.ecx
            &&& w[user_regs_struct::arg_index(2).unwrap()] == regs.edx
            &&& w[user_regs_struct::arg_index(3).unwrap()] == regs.esi
            &&& w[user_regs_struct::arg_index(4).unwrap()] == regs.edi
            &&& w[user_regs_struct::arg_index(5).unwrap()] == regs.ebp
        }),
        user_regs_struct::arg_index(6) is None,
        user_regs_struct::lr_index() is None,
        user_regs_struct::mode_index() is None,
        user_regs_struct::style() == (CallStyle::PushedReturn { register_args: 0 }),
        user_regs_struct::word() == 4,
        user_regs_struct::fit(v) == v % 0x1_0000_0000,
{
    assert(v as u32 as u64 == v % 0x1_0000_0000) by (bit_vector);
}

} // verus!
