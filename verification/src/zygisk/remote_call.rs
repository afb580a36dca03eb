//! Calling a function in a traced process.

use vstd::prelude::*;
use vstd::slice::slice_subrange;
use vstd::string::*;
use vstd::utf8::encode_utf8;

use super::regs::{register_args, with_mode, CallStyle, Registers, SHORT_MODE};
use crate::bytes::{append_bytes, le_encode, write_le};

verus! {

/// `SIGSEGV`.
pub const SIGSEGV: i32 = 11;

/// `v` rounded down to a multiple of sixteen.
pub open spec fn align16(v: u64) -> u64 {
    v & !0xfu64
}

/// Rounding down loses less than sixteen and leaves a multiple of sixteen.
pub proof fn law_align16(v: u64)
    ensures
        align16(v) % 16 == 0,
        align16(v) <= v < align16(v) + 16,
{
    assert((v & !0xfu64) % 16 == 0 && (v & !0xfu64) <= v && v - (v & !0xfu64) < 16) by (bit_vector);
}

/// The registers after the stack pointer was moved down by `preserve` bytes and
/// rounded down to a multiple of sixteen.
pub open spec fn aligned_regs<R: Registers>(w: Seq<u64>, preserve: u64) -> Seq<u64> {
    w.update(R::sp_index(), R::fit(align16(w[R::sp_index()].wrapping_sub(preserve))))
}

/// Moves the stack pointer down by `preserve` bytes and rounds it down to a
/// multiple of sixteen.
pub fn align_stack<R: Registers>(regs: &mut R, preserve: u64)
    ensures
        final(regs).words() == aligned_regs::<R>(old(regs).words(), preserve),
{
    let sp: u64 = regs.reg_sp();
    let aligned: u64 = sp.wrapping_sub(preserve) & !0xfu64;
    regs.set_reg_sp(aligned);
}

/// Bytes to be written to the traced process.
pub struct MemWrite {
    pub addr: u64,
    pub bytes: Vec<u8>,
}

impl View for MemWrite {
    type V = (u64, Seq<u8>);

    open spec fn view(&self) -> (u64, Seq<u8>) {
        (self.addr, self.bytes@)
    }
}

/// The models of a list of writes.
pub open spec fn write_views(v: Seq<MemWrite>) -> Seq<(u64, Seq<u8>)> {
    Seq::new(v.len(), |i: int| v[i]@)
}

/// A string as C sees it: its bytes and a zero.
pub open spec fn c_string(s: Seq<char>) -> Seq<u8> {
    encode_utf8(s).push(0)
}

/// The registers after room for `len` bytes was made on the stack.
pub open spec fn pushed_regs<R: Registers>(w: Seq<u64>, len: nat) -> Seq<u64> {
    aligned_regs::<R>(
        w.update(R::sp_index(), R::fit(w[R::sp_index()].wrapping_sub(len as u64))),
        0,
    )
}

/// Makes room for a string on the stack; the result is what to write there.
pub fn push_string<R: Registers>(regs: &mut R, s: &str) -> (r: MemWrite)
    requires
        forall|i: int| 0 <= i < s@.len() ==> s@[i] != '\0',
    ensures
        r@.1 == c_string(s@),
        final(regs).words() == pushed_regs::<R>(old(regs).words(), c_string(s@).len()),
        r@.0 == final(regs).words()[R::sp_index()],
{
    let mut bytes: Vec<u8> = Vec::new();
    append_bytes(&mut bytes, s.as_bytes());
    bytes.push(0);
    assert(bytes@ =~= c_string(s@));
    let len: u64 = bytes.len() as u64;
    let sp: u64 = regs.reg_sp();
    regs.set_reg_sp(sp.wrapping_sub(len));
    align_stack(regs, 0);
    MemWrite { addr: regs.reg_sp(), bytes }
}

/// The registers after the first `n` arguments were put where they belong.
pub open spec fn with_args<R: Registers>(w: Seq<u64>, args: Seq<u64>, n: nat) -> Seq<u64>
    decreases n,
{
    if n == 0 {
        w
    } else {
        let before = with_args::<R>(w, args, (n - 1) as nat);
        match R::arg_index(n - 1) {
            Some(k) => before.update(k, R::fit(args[n - 1])),
            None => before,
        }
    }
}

/// The words of `args`, each as the `word` low bytes of it, the lowest first.
pub open spec fn words_bytes(args: Seq<u64>, word: nat) -> Seq<u8>
    decreases args.len(),
{
    if args.len() == 0 {
        Seq::empty()
    } else {
        words_bytes(args.drop_last(), word) + le_encode(args.last() as nat, word)
    }
}

/// The registers and the memory writes once the arguments are in place, the
/// first `limit` of them in registers and the others on the stack.
pub open spec fn args_layout<R: Registers>(w: Seq<u64>, args: Seq<u64>, limit: nat) -> (
    Seq<u64>,
    Seq<(u64, Seq<u8>)>,
) {
    if args.len() > limit {
        let v = aligned_regs::<R>(
            with_args::<R>(w, args, limit),
            ((args.len() - limit) * R::word()) as u64,
        );
        (v, seq![(v[R::sp_index()], words_bytes(args.skip(limit as int), R::word()))])
    } else {
        (with_args::<R>(w, args, args.len()), Seq::empty())
    }
}

/// The registers after a jump to the code at `addr`. Where there are short
/// instructions, the lowest bit of the address tells whether the code is of these,
/// and is not part of where it stands.
pub open spec fn entered<R: Registers>(w: Seq<u64>, addr: u64) -> Seq<u64> {
    match R::mode_index() {
        Some(k) => w.update(k, with_mode(w[k], addr & 1 != 0)).update(
            R::ip_index(),
            R::fit(addr & !1u64),
        ),
        None => w.update(R::ip_index(), R::fit(addr)),
    }
}

fn enter<R: Registers>(regs: &mut R, addr: u64)
    ensures
        final(regs).words() == entered::<R>(old(regs).words(), addr),
{
    if R::has_mode() {
        regs.set_mode(addr & 1 != 0);
        regs.set_reg_ip(addr & !1u64);
    } else {
        regs.set_reg_ip(addr);
    }
}

/// The registers and the memory writes with which the process calls `func` and
/// returns to `ret`.
pub open spec fn call_layout<R: Registers>(
    w: Seq<u64>,
    func: u64,
    ret: u64,
    args: Seq<u64>,
) -> (Seq<u64>, Seq<(u64, Seq<u8>)>) {
    let start = aligned_regs::<R>(w, 0);
    let (v, writes) = match R::style() {
        CallStyle::LinkRegister { register_args } => {
            let (v, writes) = args_layout::<R>(start, args, register_args as nat);
            match R::lr_index() {
                Some(k) => (v.update(k, R::fit(ret)), writes),
                None => (v, writes),
            }
        },
        CallStyle::PushedReturn { register_args } => {
            let (v, writes) = args_layout::<R>(start, args, register_args as nat);
            let sp = R::fit(v[R::sp_index()].wrapping_sub(R::word() as u64));
            (
                v.update(R::sp_index(), sp),
                writes.push((sp, le_encode(ret as nat, R::word()))),
            )
        },
    };
    (entered::<R>(v, func), writes)
}

fn word_bytes_of(args: &[u64], word: u64) -> (r: Vec<u8>)
    requires
        word == 4 || word == 8,
    ensures
        r@ == words_bytes(args@, word as nat),
{
    let mut out: Vec<u8> = Vec::new();
    for i in 0..args.len()
        invariant
            word == 4 || word == 8,
            out@ == words_bytes(args@.take(i as int), word as nat),
    {
        assert(args@.take(i + 1).drop_last() =~= args@.take(i as int));
        let bytes = write_le(args[i], word as usize);
        append_bytes(&mut out, bytes.as_slice());
    }
    assert(args@.take(args@.len() as int) =~= args@);
    out
}

fn place_args<R: Registers>(regs: &mut R, args: &[u64], limit: usize) -> (r: Vec<MemWrite>)
    requires
        args@.len() <= 0x1fff_ffff_ffff_ffff,
    ensures
        (final(regs).words(), write_views(r@)) == args_layout::<R>(
            old(regs).words(),
            args@,
            limit as nat,
        ),
{
    let n: usize = if args.len() > limit {
        limit
    } else {
        args.len()
    };
    let ghost w = regs.words();
    for i in 0..n
        invariant
            n <= args@.len(),
            regs.words() == with_args::<R>(w, args@, i as nat),
    {
        regs.set_regs_arg(i, args[i]);
    }
    let mut writes: Vec<MemWrite> = Vec::new();
    if args.len() > limit {
        let rest = slice_subrange(args, limit, args.len());
        assert(rest@ =~= args@.skip(limit as int));
        let word: u64 = R::word_size();
        assert(rest.len() * word <= 0x1fff_ffff_ffff_ffff * 8) by (nonlinear_arith)
            requires
                rest.len() <= 0x1fff_ffff_ffff_ffff,
                word <= 8,
        ;
        align_stack(regs, rest.len() as u64 * word);
        writes.push(MemWrite { addr: regs.reg_sp(), bytes: word_bytes_of(rest, word) });
        assert(write_views(writes@) =~= seq![
            (regs.words()[R::sp_index()], words_bytes(args@.skip(limit as int), R::word())),
        ]);
    } else {
        assert(write_views(writes@) =~= Seq::empty());
    }
    writes
}

/// Sets the registers up for a call of `func` that returns to `ret`; the result
/// is what to write to the process.
pub fn prepare_call<R: Registers>(regs: &mut R, func: u64, ret: u64, args: &[u64]) -> (r: Vec<
    MemWrite,
>)
    requires
        args@.len() <= 0x1fff_ffff_ffff_ffff,
    ensures
        (final(regs).words(), write_views(r@)) == call_layout::<R>(
            old(regs).words(),
            func,
            ret,
            args@,
        ),
{
    align_stack(regs, 0);
    let mut writes: Vec<MemWrite>;
    match R::call_style() {
        CallStyle::LinkRegister { register_args } => {
            writes = place_args(regs, args, register_args);
            regs.set_lr(ret);
        },
        CallStyle::PushedReturn { register_args } => {
            writes = place_args(regs, args, register_args);
            let ghost before = write_views(writes@);
            let word: u64 = R::word_size();
            let sp: u64 = regs.reg_sp().wrapping_sub(word);
            proof {
                regs.layout();
            }
            regs.set_reg_sp(sp);
            let bytes = write_le(ret, word as usize);
            writes.push(MemWrite { addr: regs.reg_sp(), bytes });
            assert(write_views(writes@) =~= before.push(
                (R::fit(sp), le_encode(ret as nat, R::word())),
            ));
        },
    }
    enter(regs, func);
    writes
}

/// How the process fared after it was let run.
pub enum CallOutcome<R> {
    /// Its registers could not be set.
    NotStarted,
    /// It stopped on a signal; with its registers as they were then, where they
    /// could be read.
    Stopped { signal: i32, regs: Option<R> },
    /// It came to some other state, or waiting failed.
    Lost,
}

/// What the call returned: the return register, where the process faulted at the
/// address that it was to return to, and 0 otherwise.
pub open spec fn call_value<R: Registers>(outcome: CallOutcome<R>, ret: u64) -> u64 {
    match outcome {
        CallOutcome::Stopped { signal, regs: Some(r) } => if signal == SIGSEGV
            && r.words()[R::ip_index()] == ret {
            r.words()[R::ret_index()]
        } else {
            0
        },
        _ => 0,
    }
}

/// Tells what a call returned.
pub fn finish_call<R: Registers>(outcome: &CallOutcome<R>, ret: u64) -> (r: u64)
    ensures
        r == call_value::<R>(*outcome, ret),
{
    match outcome {
        CallOutcome::Stopped { signal, regs: Some(r) } => {
            if *signal == SIGSEGV && r.reg_ip() == ret {
                r.reg_ret()
            } else {
                0
            }
        },
        _ => 0,
    }
}

/// The registers with which the process goes on where it was meant to start.
pub fn resume_at<R: Registers>(regs: &mut R, entry: u64)
    ensures
        final(regs).words() == old(regs).words().update(R::ip_index(), R::fit(entry)),
{
    regs.set_reg_ip(entry);
}

/// A prepared call starts at the function, with each argument that goes to a
/// register in its register.
pub proof fn law_call_enters_function<R: Registers>(
    regs: R,
    func: u64,
    ret: u64,
    args: Seq<u64>,
)
    ensures
        ({
            let w = call_layout::<R>(regs.words(), func, ret, args).0;
            &&& w.len() == R::count()
            &&& R::mode_index() is None ==> w[R::ip_index()] == R::fit(func)
            &&& R::mode_index() matches Some(k) ==> {
                &&& w[R::ip_index()] == R::fit(func & !1u64)
                &&& w[k] & SHORT_MODE != 0 <==> func & 1 != 0
            }
            &&& forall|i: int|
                0 <= i < args.len() && i < register_args(R::style()) ==> w[(
                #[trigger] R::arg_index(i)).unwrap()] == R::fit(args[i])
        }),
{
    regs.layout();
    let n = register_args(R::style());
    let start = aligned_regs::<R>(regs.words(), 0);
    lemma_with_args::<R>(regs, start, args, n);
    if args.len() < n {
        lemma_with_args::<R>(regs, start, args, args.len());
    }
    assert(forall|m: u64| #[trigger] (m | 0x20) & 0x20 != 0) by (bit_vector);
    assert(forall|m: u64| #[trigger] (m & 0xffff_ffdf) & 0x20 == 0) by (bit_vector);
}

/// A function that was called finds the arguments that have no register at the
/// stack pointer, in their order, and the address to return to in the link
/// register, or at the stack pointer with the arguments behind it.
pub proof fn law_call_passes_the_rest<R: Registers>(
    regs: R,
    func: u64,
    ret: u64,
    args: Seq<u64>,
)
    ensures
        ({
            let (w, writes) = call_layout::<R>(regs.words(), func, ret, args);
            let sp = w[R::sp_index()];
            let n = register_args(R::style()) as int;
            let rest = words_bytes(args.skip(n), R::word());
            match R::style() {
                CallStyle::LinkRegister { .. } => {
                    &&& w[R::lr_index().unwrap()] == R::fit(ret)
                    &&& args.len() > n ==> writes == seq![(sp, rest)]
                    &&& args.len() <= n ==> writes.len() == 0
                },
                CallStyle::PushedReturn { .. } => {
                    &&& writes.last() == (sp, le_encode(ret as nat, R::word()))
                    &&& args.len() > n ==> writes.len() == 2 && writes[0].1 == rest && sp == R::fit(
                        writes[0].0.wrapping_sub(R::word() as u64),
                    )
                    &&& args.len() <= n ==> writes.len() == 1
                },
            }
        }),
{
    regs.layout();
    let n = register_args(R::style());
    let start = aligned_regs::<R>(regs.words(), 0);
    lemma_with_args::<R>(regs, start, args, n);
    if args.len() < n {
        lemma_with_args::<R>(regs, start, args, args.len());
    }
}

proof fn lemma_with_args<R: Registers>(regs: R, w: Seq<u64>, args: Seq<u64>, n: nat)
    requires
        w.len() == R::count(),
        n <= register_args(R::style()),
    ensures
        with_args::<R>(w, args, n).len() == w.len(),
        forall|i: int|
            0 <= i < n ==> with_args::<R>(w, args, n)[(#[trigger] R::arg_index(i)).unwrap()]
                == R::fit(args[i]),
    decreases n,
{
    regs.layout();
    if n > 0 {
        lemma_with_args::<R>(regs, w, args, (n - 1) as nat);
        assert(R::arg_index(n - 1) is Some);
    }
}

/// Moving the stack pointer down by some bytes and aligning it gives the highest
/// multiple of sixteen that leaves them room; no other register changes.
pub proof fn law_stack_is_aligned<R: Registers>(regs: R, preserve: u64)
    requires
        preserve <= regs.words()[R::sp_index()],
        forall|v: u64| v <= regs.words()[R::sp_index()] ==> #[trigger] R::fit(v) == v,
    ensures
        ({
            let w = regs.words();
            let v = aligned_regs::<R>(w, preserve);
            let sp = R::sp_index();
            &&& v[sp] % 16 == 0
            &&& v[sp] + preserve <= w[sp] < v[sp] + preserve + 16
            &&& v.len() == w.len()
            &&& forall|i: int| 0 <= i < w.len() && i != sp ==> v[i] == w[i]
        }),
{
    regs.layout();
    let w = regs.words();
    let sp = w[R::sp_index()];
    law_align16((sp - preserve) as u64);
    assert(R::fit(align16((sp - preserve) as u64)) == align16((sp - preserve) as u64));
}

/// A string that is pushed gets room of its own below the stack pointer, less than
/// sixteen bytes more than it needs, from an aligned address on; it is written
/// there with a zero at its end.
pub proof fn law_string_is_pushed<R: Registers>(regs: R, s: Seq<char>)
    requires
        c_string(s).len() <= regs.words()[R::sp_index()],
        forall|v: u64| v <= regs.words()[R::sp_index()] ==> #[trigger] R::fit(v) == v,
    ensures
        ({
            let w = regs.words();
            let n = c_string(s).len();
            let v = pushed_regs::<R>(w, n);
            let sp = R::sp_index();
            &&& v[sp] % 16 == 0
            &&& v[sp] + n <= w[sp] < v[sp] + n + 16
            &&& forall|i: int| 0 <= i < w.len() && i != sp ==> v[i] == w[i]
        }),
        c_string(s).len() == encode_utf8(s).len() + 1,
        c_string(s).last() == 0,
        c_string(s).drop_last() == encode_utf8(s),
{
    regs.layout();
    let w = regs.words();
    let n = c_string(s).len();
    let sp = w[R::sp_index()];
    let lower = (sp - n) as u64;
    assert(R::fit(lower) == lower);
    law_align16(lower);
    assert(R::fit(align16(lower)) == align16(lower));
    assert(c_string(s).drop_last() =~= encode_utf8(s));
}

/// Arguments stand on the stack one behind the other, each in a word of its own.
pub proof fn law_arguments_on_the_stack(args: Seq<u64>, arg: u64, word: nat)
    ensures
        words_bytes(Seq::empty(), word).len() == 0,
        words_bytes(args.push(arg), word) == words_bytes(args, word) + le_encode(arg as nat, word),
{
    assert(args.push(arg).drop_last() =~= args);
}

/// A call returned where the process stopped on signal 11 at the address that it
/// was to return to, and gives its return register then; however else it fared, it
/// gives 0.
pub proof fn law_call_gives_its_result<R: Registers>(signal: i32, regs: R, ret: u64)
    ensures
        call_value::<R>(CallOutcome::Stopped { signal, regs: Some(regs) }, ret) == (if signal == 11
            && regs.words()[R::ip_index()] == ret {
            regs.words()[R::ret_index()]
        } else {
            0
        }),
        call_value::<R>(CallOutcome::Stopped { signal, regs: None }, ret) == 0,
        call_value::<R>(CallOutcome::NotStarted, ret) == 0,
        call_value::<R>(CallOutcome::Lost, ret) == 0,
{
}

} // verus!
