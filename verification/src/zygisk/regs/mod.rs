//! The register files that `ptrace(2)` reads and writes, one per architecture.

use vstd::prelude::*;

pub mod aarch64;
pub mod arm;
pub mod x86;
pub mod x86_64;

verus! {

/// How a called function finds its arguments and the address to return to.
#[derive(Clone, Copy, PartialEq, Eq, Structural)]
pub enum CallStyle {
    /// The first arguments go to registers, the others to the stack, and the
    /// return address to the link register.
    LinkRegister { register_args: usize },
    /// The first arguments go to registers, the others to the stack, and the
    /// return address on top of them.
    PushedReturn { register_args: usize },
}

/// The bit of a mode register that is set while short instructions are run.
pub const SHORT_MODE: u64 = 0x20;

/// A mode register of `mode`, set for short instructions or cleared.
pub open spec fn with_mode(mode: u64, short: bool) -> u64 {
    if short {
        mode | SHORT_MODE
    } else {
        mode & 0xffff_ffdf
    }
}

/// How many arguments go to registers.
pub open spec fn register_args(style: CallStyle) -> nat {
    match style {
        CallStyle::LinkRegister { register_args } => register_args as nat,
        CallStyle::PushedReturn { register_args } => register_args as nat,
    }
}

/// A register file.
///
/// Its model is the sequence of its registers in the order in which the kernel
/// lays them out. A register narrower than 64 bits keeps the low bits of what
/// it is set to.
pub trait Registers: Sized {
    /// The registers, in layout order.
    spec fn words(&self) -> Seq<u64>;

    /// How many registers there are.
    spec fn count() -> nat;

    /// Where the stack pointer stands.
    spec fn sp_index() -> int;

    /// Where the instruction pointer stands.
    spec fn ip_index() -> int;

    /// Where the return value stands.
    spec fn ret_index() -> int;

    /// Where argument `i` stands, where it has a register.
    spec fn arg_index(i: int) -> Option<int>;

    /// Where the link register stands, where there is one.
    spec fn lr_index() -> Option<int>;

    /// Where the register stands that tells short instructions from long ones,
    /// where there are both. The lowest bit of a function's address is then set
    /// for one of short instructions.
    spec fn mode_index() -> Option<int>;

    /// Bytes in a word.
    spec fn word() -> nat;

    /// What a register keeps of `v`.
    spec fn fit(v: u64) -> u64;

    /// How functions are called.
    spec fn style() -> CallStyle;

    /// The named registers are registers of the file, and the stack pointer,
    /// the instruction pointer and the arguments are distinct. The link register
    /// takes no argument's place, and the mode register none of any other. A word
    /// has four or eight bytes.
    proof fn layout(&self)
        ensures
            self.words().len() == Self::count(),
            0 <= Self::sp_index() < Self::count(),
            0 <= Self::ip_index() < Self::count(),
            0 <= Self::ret_index() < Self::count(),
            Self::sp_index() != Self::ip_index(),
            Self::sp_index() != Self::ret_index(),
            Self::ip_index() != Self::ret_index(),
            forall|i: int|
                (#[trigger] Self::arg_index(i) matches Some(k) ==> 0 <= k < Self::count() && k
                    != Self::sp_index() && k != Self::ip_index()),
            forall|i: int, j: int|
                #![trigger Self::arg_index(i), Self::arg_index(j)]
                i != j && Self::arg_index(i) is Some ==> Self::arg_index(i) != Self::arg_index(j),
            (Self::lr_index() matches Some(k) ==> 0 <= k < Self::count() && k != Self::sp_index()
                && k != Self::ip_index()),
            forall|i: int|
                0 <= i < register_args(Self::style()) ==> (#[trigger] Self::arg_index(i)) is Some
                    && Self::arg_index(i) != Self::lr_index(),
            (Self::mode_index() matches Some(k) ==> 0 <= k < Self::count() && k != Self::sp_index()
                && k != Self::ip_index() && k != Self::ret_index() && Self::lr_index() != Some(k)),
            forall|i: int|
                (#[trigger] Self::arg_index(i)) is Some ==> Self::arg_index(i)
                    != Self::mode_index(),
            Self::style() is LinkRegister ==> Self::lr_index() is Some,
            Self::word() == 4 || Self::word() == 8,
    ;

    /// Reads the stack pointer.
    fn reg_sp(&self) -> (r: u64)
        ensures
            r == self.words()[Self::sp_index()],
    ;

    /// Sets the stack pointer.
    fn set_reg_sp(&mut self, v: u64)
        ensures
            final(self).words() == old(self).words().update(Self::sp_index(), Self::fit(v)),
    ;

    /// Reads the instruction pointer.
    fn reg_ip(&self) -> (r: u64)
        ensures
            r == self.words()[Self::ip_index()],
    ;

    /// Sets the instruction pointer.
    fn set_reg_ip(&mut self, v: u64)
        ensures
            final(self).words() == old(self).words().update(Self::ip_index(), Self::fit(v)),
    ;

    /// Reads the return value.
    fn reg_ret(&self) -> (r: u64)
        ensures
            r == self.words()[Self::ret_index()],
    ;

    /// Sets argument `i`, where it has a register.
    fn set_regs_arg(&mut self, i: usize, v: u64)
        ensures
            final(self).words() == match Self::arg_index(i as int) {
                Some(k) => old(self).words().update(k, Self::fit(v)),
                None => old(self).words(),
            },
    ;

    /// Sets the link register, where there is one.
    fn set_lr(&mut self, v: u64)
        ensures
            final(self).words() == match Self::lr_index() {
                Some(k) => old(self).words().update(k, Self::fit(v)),
                None => old(self).words(),
            },
    ;

    /// Sets the mode register for short instructions or long ones, where there is
    /// one.
    fn set_mode(&mut self, short: bool)
        ensures
            final(self).words() == match Self::mode_index() {
                Some(k) => old(self).words().update(k, with_mode(old(self).words()[k], short)),
                None => old(self).words(),
            },
    ;

    /// Tells whether there is a mode register.
    fn has_mode() -> (r: bool)
        ensures
            r == (Self::mode_index() is Some),
    ;

    /// Tells how many bytes a word has.
    fn word_size() -> (r: u64)
        ensures
            r == Self::word(),
            r == 4 || r == 8,
    ;

    /// Tells how functions are called.
    fn call_style() -> (r: CallStyle)
        ensures
            r == Self::style(),
    ;
}

} // verus!
