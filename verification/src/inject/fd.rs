//! Sets of file descriptors.

use vstd::prelude::*;

verus! {

/// One more than the highest descriptor that a set can hold.
pub const MAX_FD_SIZE: usize = 1024;

/// Bit `k` of `b` is set.
pub open spec fn bit_set(b: u64, k: u64) -> bool {
    b & (1u64 << k) != 0
}

/// A set of descriptors below [`MAX_FD_SIZE`].
pub struct FdSet {
    bits: [u64; 16],
}

/// `fd` is a descriptor that a set can hold.
pub open spec fn in_range(fd: int) -> bool {
    0 <= fd < MAX_FD_SIZE
}

/// The descriptors whose bits are set.
pub closed spec fn members(bits: Seq<u64>) -> Set<i32> {
    Set::new(|fd: i32| in_range(fd as int) && bit_set(bits[fd as int / 64], (fd as int % 64) as u64))
}

impl View for FdSet {
    type V = Set<i32>;

    closed spec fn view(&self) -> Set<i32> {
        members(self.bits@)
    }
}

proof fn lemma_bit_ops(b: u64, j: u64, k: u64)
    requires
        j < 64,
        k < 64,
    ensures
        bit_set(b | (1u64 << k), j) == (j == k || bit_set(b, j)),
        bit_set(b & !(1u64 << k), j) == (j != k && bit_set(b, j)),
        !bit_set(0, j),
{
    assert(((b | (1u64 << k)) & (1u64 << j) != 0) == (j == k || b & (1u64 << j) != 0))
        by (bit_vector)
        requires
            j < 64,
            k < 64,
    ;
    assert(((b & !(1u64 << k)) & (1u64 << j) != 0) == (j != k && b & (1u64 << j) != 0))
        by (bit_vector)
        requires
            j < 64,
            k < 64,
    ;
    assert(0u64 & (1u64 << j) == 0) by (bit_vector);
}

impl FdSet {
    /// The empty set.
    pub fn new() -> (r: FdSet)
        ensures
            r@ == Set::<i32>::empty(),
    {
        let r = FdSet { bits: [0;16] };
        proof {
            assert forall|fd: i32| !r@.contains(fd) by {
                if in_range(fd as int) {
                    lemma_bit_ops(0, (fd as int % 64) as u64, 0);
                }
            }
            assert(r@ =~= Set::empty());
        }
        r
    }

    /// Adds a descriptor; one that is out of range is passed over.
    pub fn add(&mut self, fd: i32)
        ensures
            final(self)@ == (if in_range(fd as int) {
                old(self)@.insert(fd)
            } else {
                old(self)@
            }),
    {
        if fd < 0 || fd as usize >= MAX_FD_SIZE {
            return;
        }
        let idx: usize = fd as usize / 64;
        let bit: u64 = fd as u64 % 64;
        let ghost before = self.bits@;
        self.bits[idx] = self.bits[idx] | (1u64 << bit);
        proof {
            assert forall|g: i32| self@.contains(g) == (old(self)@.contains(g) || g == fd) by {
                if in_range(g as int) {
                    lemma_bit_ops(before[g as int / 64], (g as int % 64) as u64, bit);
                }
            }
            assert(self@ =~= old(self)@.insert(fd));
        }
    }

    /// Tells whether a descriptor is in the set.
    pub fn contains(&self, fd: i32) -> (r: bool)
        ensures
            r == self@.contains(fd),
    {
        if fd < 0 || fd as usize >= MAX_FD_SIZE {
            return false;
        }
        let idx: usize = fd as usize / 64;
        let bit: u64 = fd as u64 % 64;
        (self.bits[idx] & (1u64 << bit)) != 0
    }

    /// Takes a descriptor out.
    pub fn remove(&mut self, fd: i32)
        ensures
            final(self)@ == old(self)@.remove(fd),
    {
        if fd < 0 || fd as usize >= MAX_FD_SIZE {
            assert(self@ =~= old(self)@.remove(fd));
            return;
        }
        let idx: usize = fd as usize / 64;
        let bit: u64 = fd as u64 % 64;
        let ghost before = self.bits@;
        self.bits[idx] = self.bits[idx] & !(1u64 << bit);
        proof {
            assert forall|g: i32| self@.contains(g) == (old(self)@.contains(g) && g != fd) by {
                if in_range(g as int) {
                    lemma_bit_ops(before[g as int / 64], (g as int % 64) as u64, bit);
                }
            }
            assert(self@ =~= old(self)@.remove(fd));
        }
    }

    /// Walks the set from the lowest descriptor on.
    pub fn iter(&self) -> (r: FdIter<'_>)
        ensures
            r.set() == self@,
            r.position() == 0,
    {
        FdIter { bits: &self.bits, current: 0 }
    }

    /// Empties the set.
    pub fn clear(&mut self)
        ensures
            final(self)@ == Set::<i32>::empty(),
    {
        let empty = FdSet::new();
        self.bits = empty.bits;
    }
}

/// Every descriptor of a set is in range.
pub proof fn law_members_in_range(s: FdSet, fd: i32)
    ensures
        s@.contains(fd) ==> in_range(fd as int),
{
}

/// A walk through a set of descriptors.
pub struct FdIter<'a> {
    bits: &'a [u64; 16],
    current: usize,
}

impl<'a> FdIter<'a> {
    /// The set that is walked.
    pub closed spec fn set(&self) -> Set<i32> {
        members(self.bits@)
    }

    /// The descriptors below this one were walked.
    pub closed spec fn position(&self) -> nat {
        self.current as nat
    }

    /// The next descriptor: the lowest that was not walked yet; `None` where none
    /// is left.
    pub fn next(&mut self) -> (r: Option<i32>)
        ensures
            final(self).set() == old(self).set(),
            match r {
                Some(fd) => old(self).set().contains(fd) && old(self).position() <= fd
                    && final(self).position() == fd + 1 && forall|g: i32|
                    old(self).position() <= g < fd ==> !old(self).set().contains(g),
                None => final(self).position() >= old(self).position() && forall|g: i32|
                    old(self).position() <= g ==> !old(self).set().contains(g),
            },
    {
        while self.current < MAX_FD_SIZE
            invariant
                self.bits == old(self).bits,
                old(self).current <= self.current,
                forall|g: i32|
                    old(self).current <= g < self.current ==> !old(self).set().contains(g),
            decreases MAX_FD_SIZE - self.current,
        {
            let idx: usize = self.current / 64;
            let bit: u64 = self.current as u64 % 64;
            if (self.bits[idx] & (1u64 << bit)) != 0 {
                let fd: i32 = self.current as i32;
                self.current = self.current + 1;
                return Some(fd);
            }
            self.current = self.current + 1;
        }
        None
    }
}

/// The number that the digits of a name write; `None` where something else
/// stands in it. An empty name writes zero.
pub open spec fn name_value(name: Seq<u8>) -> Option<nat>
    decreases name.len(),
{
    if name.len() == 0 {
        Some(0)
    } else {
        match name_value(name.drop_last()) {
            Some(v) => if 48 <= name.last() <= 57 {
                Some((v * 10 + (name.last() - 48)) as nat)
            } else {
                None
            },
            None => None,
        }
    }
}

/// However many bytes of a name are read, the number so far can be counted.
pub open spec fn name_fits(name: Seq<u8>) -> bool {
    forall|n: int|
        0 <= n <= name.len() ==> (#[trigger] name_value(name.take(n)) matches Some(v) ==> v
            <= i32::MAX)
}

proof fn lemma_name_stuck(name: Seq<u8>, n: int)
    requires
        0 <= n <= name.len(),
        name_value(name.take(n)) is None,
    ensures
        name_value(name) is None,
    decreases name.len() - n,
{
    if n < name.len() {
        assert(name.take(n + 1).drop_last() =~= name.take(n));
        lemma_name_stuck(name, n + 1);
    } else {
        assert(name.take(n) =~= name);
    }
}

/// Tells whether the number that a name writes can be counted.
pub fn check_name(name: &[u8]) -> (r: bool)
    ensures
        r == name_fits(name@),
{
    let mut v: u64 = 0;
    let mut i: usize = 0;
    assert(name@.take(0) =~= Seq::empty());
    while i < name.len()
        invariant
            i <= name@.len(),
            v <= i32::MAX,
            name_value(name@.take(i as int)) == Some(v as nat),
            forall|n: int|
                0 <= n <= i ==> (#[trigger] name_value(name@.take(n)) matches Some(w) ==> w
                    <= i32::MAX),
        decreases name@.len() - i,
    {
        assert(name@.take(i + 1).drop_last() =~= name@.take(i as int));
        let c: u8 = name[i];
        if c < 48 || c > 57 {
            proof {
                assert(name_value(name@.take(i + 1)) is None);
                assert forall|n: int| 0 <= n <= name@.len() implies (#[trigger] name_value(
                    name@.take(n),
                ) matches Some(w) ==> w <= i32::MAX) by {
                    if n > i {
                        let t = name@.take(n);
                        assert(t.take(i + 1) =~= name@.take(i + 1));
                        lemma_name_stuck(t, i + 1);
                    }
                }
            }
            return true;
        }
        v = v * 10 + (c - 48) as u64;
        if v > 0x7fff_ffff {
            assert(name_value(name@.take(i + 1)) == Some(v as nat));
            return false;
        }
        i = i + 1;
    }
    true
}

/// Reads the number that a name writes.
fn parse_name(name: &[u8]) -> (r: Option<i32>)
    requires
        name_fits(name@),
    ensures
        match r {
            Some(v) => v >= 0 && name_value(name@) == Some(v as nat),
            None => name_value(name@) is None,
        },
{
    let mut v: i32 = 0;
    assert(name@.take(0) =~= Seq::empty());
    for i in 0..name.len()
        invariant
            name_fits(name@),
            v >= 0,
            name_value(name@.take(i as int)) == Some(v as nat),
    {
        assert(name@.take(i + 1).drop_last() =~= name@.take(i as int));
        let c: u8 = name[i];
        if c < 48 || c > 57 {
            proof {
                lemma_name_stuck(name@, i + 1);
            }
            return None;
        }
        assert(name_value(name@.take(i + 1)) == Some((v * 10 + (c - 48)) as nat));
        v = v * 10 + (c - 48) as i32;
    }
    assert(name@.take(name@.len() as int) =~= name@);
    Some(v)
}

/// The contents of a list of names.
pub open spec fn names(v: Seq<Vec<u8>>) -> Seq<Seq<u8>> {
    Seq::new(v.len(), |i: int| v[i]@)
}

/// The descriptors that names write, as far as a set can hold them.
pub open spec fn named_fds(names: Seq<Seq<u8>>) -> Set<i32> {
    Set::new(
        |fd: i32|
            in_range(fd as int) && exists|i: int|
                0 <= i < names.len() && #[trigger] name_value(names[i]) == Some(fd as nat),
    )
}

/// Makes a set hold the descriptors that are open: `entries` are the names in the
/// directory that lists them.
pub fn record_open_fds(fds: &mut FdSet, entries: &[Vec<u8>])
    requires
        forall|i: int| 0 <= i < entries@.len() ==> name_fits(#[trigger] entries@[i]@),
    ensures
        final(fds)@ == named_fds(names(entries@)),
{
    fds.clear();
    assert(fds@ =~= named_fds(names(entries@).take(0)));
    for i in 0..entries.len()
        invariant
            forall|k: int| 0 <= k < entries@.len() ==> name_fits(#[trigger] entries@[k]@),
            fds@ == named_fds(names(entries@).take(i as int)),
    {
        let ghost before = fds@;
        let ghost all = names(entries@);
        assert(all[i as int] == entries@[i as int]@);
        let value = parse_name(entries[i].as_slice());
        match value {
            Some(v) => {
                if (v as usize) < MAX_FD_SIZE {
                    fds.add(v);
                }
            },
            None => {},
        }
        proof {
            let a = all.take(i as int);
            let b = all.take(i + 1);
            assert forall|fd: i32| fds@.contains(fd) == named_fds(b).contains(fd) by {
                if named_fds(a).contains(fd) {
                    let k = choose|k: int|
                        0 <= k < a.len() && #[trigger] name_value(a[k]) == Some(fd as nat);
                    assert(b[k] == a[k]);
                }
                if named_fds(b).contains(fd) {
                    let k = choose|k: int|
                        0 <= k < b.len() && #[trigger] name_value(b[k]) == Some(fd as nat);
                    if k < i {
                        assert(a[k] == b[k]);
                    }
                }
                if value == Some(fd) && in_range(fd as int) {
                    assert(name_value(b[i as int]) == Some(fd as nat));
                }
            }
            assert(fds@ =~= named_fds(b));
        }
    }
    assert(names(entries@).take(entries@.len() as int) =~= names(entries@));
}

fn listed(v: &[i32], fd: i32) -> (r: bool)
    ensures
        r == v@.contains(fd),
{
    for i in 0..v.len()
        invariant
            forall|k: int| 0 <= k < i ==> v@[k] != fd,
    {
        if v[i] == fd {
            return true;
        }
    }
    false
}

/// A descriptor is to be closed: it is open, but neither allowed nor exempted.
pub open spec fn is_closed(actual: Set<i32>, allowed: Set<i32>, exempted: Seq<i32>, fd: i32) -> bool {
    actual.contains(fd) && !allowed.contains(fd) && !exempted.contains(fd)
}

/// Lists the descriptors that are to be closed, the lowest first.
pub fn sanitize_fds(allowed: &FdSet, exempted: &[i32], actual: &FdSet) -> (r: Vec<i32>)
    ensures
        forall|fd: i32|
            r@.contains(fd) <==> is_closed(actual@, allowed@, exempted@, fd),
        forall|i: int, j: int| 0 <= i < j < r@.len() ==> r@[i] < r@[j],
{
    let mut out: Vec<i32> = Vec::new();
    let mut it = actual.iter();
    loop
        invariant_except_break
            it.set() == actual@,
            forall|i: int| 0 <= i < out@.len() ==> out@[i] < it.position(),
            forall|i: int, j: int| 0 <= i < j < out@.len() ==> out@[i] < out@[j],
            forall|fd: i32|
                out@.contains(fd) <==> is_closed(actual@, allowed@, exempted@, fd) && fd
                    < it.position(),
            it.position() <= MAX_FD_SIZE,
        ensures
            forall|fd: i32|
                out@.contains(fd) <==> is_closed(actual@, allowed@, exempted@, fd),
            forall|i: int, j: int| 0 <= i < j < out@.len() ==> out@[i] < out@[j],
        decreases MAX_FD_SIZE - it.position(),
    {
        let ghost start = it.position();
        let ghost before = out@;
        match it.next() {
            Some(fd) => {
                let close = !allowed.contains(fd) && !listed(exempted, fd);
                proof {
                    law_members_in_range(*actual, fd);
                }
                if close {
                    out.push(fd);
                    proof {
                        assert(out@.last() == fd);
                        assert forall|g: i32| out@.contains(g) == (before.contains(g) || g == fd) by {
                            if before.contains(g) {
                                let k = choose|k: int| 0 <= k < before.len() && before[k] == g;
                                assert(out@[k] == g);
                            }
                            if g == fd {
                                assert(out@[before.len() as int] == fd);
                            }
                        }
                    }
                }
                proof {
                    assert forall|g: i32| out@.contains(g) <==> is_closed(
                        actual@,
                        allowed@,
                        exempted@,
                        g,
                    ) && g < it.position() by {
                        assert(before.contains(g) == (is_closed(actual@, allowed@, exempted@, g)
                            && g < start));
                        if start <= g < fd {
                            assert(!actual@.contains(g));
                        }
                    }
                }
            },
            None => {
                proof {
                    assert forall|fd: i32| out@.contains(fd) <==> is_closed(
                        actual@,
                        allowed@,
                        exempted@,
                        fd,
                    ) by {
                        if start <= fd {
                            assert(!actual@.contains(fd));
                        }
                    }
                }
                break;
            },
        }
    }
    out
}

/// Descriptors that are allowed or exempted stay open.
pub proof fn law_allowed_fds_stay_open(
    actual: Set<i32>,
    allowed: Set<i32>,
    exempted: Seq<i32>,
    fd: i32,
)
    requires
        allowed.contains(fd) || exempted.contains(fd),
    ensures
        !is_closed(actual, allowed, exempted, fd),
{
}

/// A set holds the descriptors from 0 to 1023.
pub proof fn law_descriptor_range(fd: int)
    ensures
        in_range(fd) <==> 0 <= fd && fd <= 1023,
{
}

/// A name writes a number digit by digit: one more digit makes it ten times as
/// large, and adds the digit; with anything else in it, or behind it, a name
/// writes no number.
pub proof fn law_name_is_a_number(name: Seq<u8>, more: Seq<u8>, c: u8)
    ensures
        name_value(Seq::empty()) == Some(0nat),
        48 <= c <= 57 ==> (match name_value(name) {
            Some(v) => name_value(name.push(c)) == Some((v * 10 + (c - 48)) as nat),
            None => name_value(name.push(c)) is None,
        }),
        c < 48 || c > 57 ==> name_value(name.push(c)) is None,
        c < 48 || c > 57 ==> name_value(name.push(c) + more) is None,
{
    assert(name.push(c).drop_last() =~= name);
    if c < 48 || c > 57 {
        let all = name.push(c) + more;
        assert(all.take(name.len() as int + 1) =~= name.push(c));
        lemma_name_stuck(all, name.len() as int + 1);
    }
}

/// One name more adds the descriptor that it writes, where a set can hold it, and
/// nothing else.
pub proof fn law_one_name_more(names: Seq<Seq<u8>>, name: Seq<u8>, fd: i32)
    ensures
        named_fds(Seq::empty()) == Set::<i32>::empty(),
        named_fds(names.push(name)).contains(fd) <==> named_fds(names).contains(fd) || (0 <= fd
            && fd < 1024 && name_value(name) == Some(fd as nat)),
{
    assert(named_fds(Seq::empty()) =~= Set::<i32>::empty());
    let more = names.push(name);
    if named_fds(names).contains(fd) {
        let k = choose|k: int|
            0 <= k < names.len() && #[trigger] name_value(names[k]) == Some(fd as nat);
        assert(more[k] == names[k]);
    }
    if named_fds(more).contains(fd) {
        let k = choose|k: int|
            0 <= k < more.len() && #[trigger] name_value(more[k]) == Some(fd as nat);
        if k < names.len() {
            assert(names[k] == more[k]);
        }
    }
    if 0 <= fd && fd < 1024 && name_value(name) == Some(fd as nat) {
        assert(name_value(more[names.len() as int]) == Some(fd as nat));
    }
}

/// An open descriptor is closed unless it is allowed or exempted, and one that is
/// not open is left alone.
pub proof fn law_other_fds_are_closed(
    actual: Set<i32>,
    allowed: Set<i32>,
    exempted: Seq<i32>,
    fd: i32,
)
    ensures
        actual.contains(fd) ==> is_closed(actual, allowed, exempted, fd) || allowed.contains(fd)
            || exempted.contains(fd),
        is_closed(actual, allowed, exempted, fd) ==> actual.contains(fd),
{
}

} // verus!
