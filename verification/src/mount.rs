//! Choosing the partition that is available before `init` runs.

use vstd::prelude::*;
use vstd::string::*;

use crate::text::{
    contains_text, eq_ignore_ascii_case, has_piece, has_prefix, is_text, law_occurs, law_pieces,
    law_pieces_of_both, law_prefix_is_stripped, law_same_letters, lines, lines_spec, occurs,
    same_letters, same_text, split_char, split_spec, starts_with_text, strip_prefix,
    strip_prefix_spec, to_chars, to_text, trim, trim_spec, views,
};

verus! {

/// The lowest major number that is given out at run time.
pub const DYNAMIC_MAJOR_MIN: u32 = 240;

/// The highest major number that is given out at run time.
pub const DYNAMIC_MAJOR_MAX: u32 = 254;

/// The bits of a file mode that tell the file type.
pub const S_IFMT: u32 = 0xf000;

/// The file type of a block device.
pub const S_IFBLK: u32 = 0x6000;

/// A line of `/proc/<pid>/mountinfo`.
pub struct MountInfo {
    pub device: u64,
    pub root: String,
    pub target: String,
    pub fs_type: String,
    pub source: String,
    pub fs_option: String,
}

/// Partitions, the more preferable first.
///
/// Data has sufficient space and can be safely written. Cache is limited, but
/// can still be safely written. Klogdump is there on some devices and can be
/// safely written. Metadata is limited, and writing to it might have unexpected
/// effects. Persist is the last resort, as it is dangerous to write to it.
#[derive(Clone, Copy, PartialEq, Eq, Structural)]
pub enum PartId {
    Data,
    Cache,
    Klogdump,
    Metadata,
    Persist,
}

/// How the data partition is encrypted.
#[derive(Clone, Copy, PartialEq, Eq, Structural)]
pub enum EncryptType {
    Unencrypted,
    Block,
    File,
    Metadata,
}

/// The place of a partition in the order of preference.
pub open spec fn rank_spec(p: PartId) -> nat {
    match p {
        PartId::Data => 0,
        PartId::Cache => 1,
        PartId::Klogdump => 2,
        PartId::Metadata => 3,
        PartId::Persist => 4,
    }
}

impl PartId {
    /// The place of a partition in the order of preference.
    pub fn rank(&self) -> (r: u8)
        ensures
            r == rank_spec(*self),
    {
        match self {
            PartId::Data => 0,
            PartId::Cache => 1,
            PartId::Klogdump => 2,
            PartId::Metadata => 3,
            PartId::Persist => 4,
        }
    }
}

/// The encryption that three properties tell: the state, the type, and whether
/// metadata is encrypted.
pub open spec fn encrypt_type_spec(
    state: Seq<char>,
    kind: Seq<char>,
    metadata: Seq<char>,
) -> EncryptType {
    if state != "encrypted"@ {
        EncryptType::Unencrypted
    } else if kind == "block"@ {
        EncryptType::Block
    } else if metadata == "true"@ {
        EncryptType::Metadata
    } else {
        EncryptType::File
    }
}

/// Tells the encryption from three properties.
pub fn encrypt_type(state: &str, kind: &str, metadata: &str) -> (r: EncryptType)
    ensures
        r == encrypt_type_spec(state@, kind@, metadata@),
{
    if !same_text(state, "encrypted") {
        EncryptType::Unencrypted
    } else if same_text(kind, "block") {
        EncryptType::Block
    } else if same_text(metadata, "true") {
        EncryptType::Metadata
    } else {
        EncryptType::File
    }
}

/// A file mode is that of a block device.
pub open spec fn is_block_spec(mode: u32) -> bool {
    mode & S_IFMT == S_IFBLK
}

/// Tells whether a file mode is that of a block device.
pub fn is_block_device(mode: u32) -> (r: bool)
    ensures
        r == (mode & S_IFMT == S_IFBLK),
        r == is_block_spec(mode),
{
    mode & S_IFMT == S_IFBLK
}

/// The major number in a device number of the kernel: bits 8 to 19.
pub open spec fn major_spec(dev: u64) -> u64 {
    (dev >> 8u64) & 0xfff
}

/// Calls `libc::major`. Of a device number that fits in 32 bits, its result is
/// claimed to be bits 8 to 19. Of the bits above nothing is said: `libc` drops
/// them for Android and not for Linux.
#[verifier::external_body]
fn major(dev: u64) -> (r: u32)
    requires
        dev <= 0xffff_ffff,
    ensures
        r == major_spec(dev),
{
    libc::major(dev as libc::dev_t) as u32
}

/// Tells the major number in a device number.
pub fn device_major(dev: u64) -> (r: u32)
    ensures
        r == major_spec(dev),
{
    assert(dev & 0xf_ffff <= 0xffff_ffff && ((dev & 0xf_ffff) >> 8u64) & 0xfff == (dev >> 8u64)
        & 0xfff) by (bit_vector);
    major(dev & 0xf_ffff)
}

/// A mount is writable.
pub open spec fn is_rw(info: MountInfo) -> bool {
    split_spec(info.fs_option@, ',').contains("rw"@)
}

fn writable(info: &MountInfo) -> (r: bool)
    ensures
        r == is_rw(*info),
{
    let option = to_chars(info.fs_option.as_str());
    has_piece(option.as_slice(), ',', "rw")
}

/// A piece of a path names something.
pub open spec fn is_component(piece: Seq<char>) -> bool {
    piece != Seq::<char>::empty() && piece != "."@
}

/// The components of an absolute path: its pieces between slashes, without those
/// that are empty or a single dot.
pub open spec fn components(path: Seq<char>) -> Seq<Seq<char>> {
    split_spec(path, '/').filter(|p: Seq<char>| is_component(p))
}

fn path_components<'a>(path: &'a [char]) -> (r: Vec<&'a [char]>)
    ensures
        views(r@) == components(path@),
{
    let pieces = split_char(path, '/');
    let mut out: Vec<&'a [char]> = Vec::new();
    let ghost all = views(pieces@);
    let ghost keep = |p: Seq<char>| is_component(p);
    for i in 0..pieces.len()
        invariant
            all == views(pieces@),
            keep == (|p: Seq<char>| is_component(p)),
            views(out@) == all.take(i as int).filter(keep),
    {
        let ghost before = out@;
        let piece = pieces[i];
        assert(all[i as int] == piece@);
        assert(all.take(i + 1) =~= all.take(i as int).push(piece@));
        proof {
            lemma_filter_push(all.take(i as int), piece@, keep);
        }
        if piece.len() > 0 && !is_text(piece, ".") {
            out.push(piece);
            assert(views(out@) =~= views(before).push(piece@));
        } else if piece.len() == 0 {
            assert(piece@ =~= Seq::empty());
        }
    }
    assert(all.take(all.len() as int) =~= all);
    out
}

proof fn lemma_filter_push(s: Seq<Seq<char>>, x: Seq<char>, keep: spec_fn(Seq<char>) -> bool)
    ensures
        s.push(x).filter(keep) == (if keep(x) {
            s.filter(keep).push(x)
        } else {
            s.filter(keep)
        }),
{
    reveal(Seq::filter);
    assert(s.push(x).drop_last() =~= s);
}

/// A path stands in a directory named `by-name` or `block`.
pub open spec fn in_block_dir(path: Seq<char>) -> bool {
    let c = components(path);
    c.len() >= 2 && (c[c.len() - 2] == "by-name"@ || c[c.len() - 2] == "block"@)
}

/// The last component of a path; empty where there is none, or where it leads
/// back up.
pub open spec fn file_name_spec(path: Seq<char>) -> Seq<char> {
    let c = components(path);
    if c.len() == 0 || c.last() == ".."@ {
        Seq::empty()
    } else {
        c.last()
    }
}

fn stands_in_block_dir(path: &[char]) -> (r: bool)
    ensures
        r == in_block_dir(path@),
{
    let c = path_components(path);
    assert(views(c@).len() == c@.len());
    if c.len() < 2 {
        return false;
    }
    let dir = c[c.len() - 2];
    assert(components(path@)[c@.len() - 2] == dir@);
    is_text(dir, "by-name") || is_text(dir, "block")
}

/// Names the partition that an absolute path leads to.
pub fn file_name(path: &str) -> (r: String)
    ensures
        r@ == file_name_spec(path@),
{
    let chars = to_chars(path);
    let c = path_components(chars.as_slice());
    assert(views(c@).len() == c@.len());
    if c.len() == 0 {
        return String::new();
    }
    let last = c[c.len() - 1];
    assert(components(path@).last() == last@);
    if is_text(last, "..") {
        String::new()
    } else {
        to_text(last)
    }
}

/// The partition that is mounted on `target`. Data counts only where it is not
/// encrypted, or encrypted by file without metadata.
pub open spec fn part_of(target: Seq<char>, encrypt: EncryptType) -> Option<PartId> {
    if target == "/persist"@ || target == "/mnt/vendor/persist"@ {
        Some(PartId::Persist)
    } else if target == "/metadata"@ {
        Some(PartId::Metadata)
    } else if target == "/klogdump"@ {
        Some(PartId::Klogdump)
    } else if target == "/cache"@ {
        Some(PartId::Cache)
    } else if target == "/data"@ && (encrypt is Unencrypted || encrypt is File) {
        Some(PartId::Data)
    } else {
        None
    }
}

/// A mount is that of a whole partition that can be used before `init` runs: an
/// `ext4` or `f2fs` file system, writable, on a device that is listed by name
/// or as a block device, and not one of the device mapper.
pub open spec fn usable(info: MountInfo) -> bool {
    let maj = major_spec(info.device);
    &&& info.root@ == "/"@
    &&& has_prefix(info.source@, "/"@)
    &&& !occurs(info.source@, "/dm-"@)
    &&& info.fs_type@ == "ext4"@ || info.fs_type@ == "f2fs"@
    &&& is_rw(info)
    &&& in_block_dir(info.source@)
    &&& !(DYNAMIC_MAJOR_MIN <= maj <= DYNAMIC_MAJOR_MAX) || occurs(info.source@, "/vd"@) || occurs(
        info.source@,
        "/by-name/"@,
    )
}

/// The partition that a mount offers.
pub open spec fn candidate(info: MountInfo, encrypt: EncryptType) -> Option<PartId> {
    if usable(info) {
        part_of(info.target@, encrypt)
    } else {
        None
    }
}

fn part_id(target: &str, encrypt: EncryptType) -> (r: Option<PartId>)
    ensures
        r == part_of(target@, encrypt),
{
    if same_text(target, "/persist") || same_text(target, "/mnt/vendor/persist") {
        Some(PartId::Persist)
    } else if same_text(target, "/metadata") {
        Some(PartId::Metadata)
    } else if same_text(target, "/klogdump") {
        Some(PartId::Klogdump)
    } else if same_text(target, "/cache") {
        Some(PartId::Cache)
    } else if same_text(target, "/data") {
        match encrypt {
            EncryptType::Unencrypted => Some(PartId::Data),
            EncryptType::File => Some(PartId::Data),
            _ => None,
        }
    } else {
        None
    }
}

/// Tells which partition a mount offers.
pub fn preinit_candidate(info: &MountInfo, encrypt: EncryptType) -> (r: Option<PartId>)
    ensures
        r == candidate(*info, encrypt),
{
    let source = to_chars(info.source.as_str());
    if !same_text(info.root.as_str(), "/") || !starts_with_text(source.as_slice(), "/")
        || contains_text(source.as_slice(), "/dm-") {
        return None;
    }
    if !same_text(info.fs_type.as_str(), "ext4") && !same_text(info.fs_type.as_str(), "f2fs") {
        return None;
    }
    if !writable(info) {
        return None;
    }
    if !stands_in_block_dir(source.as_slice()) {
        return None;
    }
    let maj: u32 = device_major(info.device);
    if DYNAMIC_MAJOR_MIN <= maj && maj <= DYNAMIC_MAJOR_MAX && !contains_text(
        source.as_slice(),
        "/vd",
    ) && !contains_text(source.as_slice(), "/by-name/") {
        return None;
    }
    part_id(info.target.as_str(), encrypt)
}

/// What a candidate is chosen by: the partition, and whether it holds `ext4`.
pub struct Rating {
    pub part: PartId,
    pub ext4: bool,
}

/// Candidate `a` is better than candidate `b`. An `ext4` partition is better
/// than another, as `f2fs` has a kernel bug that crashes the kernel; metadata is
/// not affected by the bug. Otherwise the order of the partitions decides.
pub open spec fn better(a: Rating, b: Rating) -> bool {
    if (a.part is Metadata && b.ext4) || (b.part is Metadata && a.ext4) || a.ext4 == b.ext4 {
        rank_spec(a.part) < rank_spec(b.part)
    } else {
        a.ext4
    }
}

/// How a mount that offers a partition is rated.
pub open spec fn rating(info: MountInfo, encrypt: EncryptType) -> Rating {
    Rating { part: candidate(info, encrypt).unwrap(), ext4: info.fs_type@ == "ext4"@ }
}

/// The mount that is chosen among the first `n`: each candidate takes the place
/// of the one chosen so far where it is better.
pub open spec fn chosen(infos: Seq<MountInfo>, encrypt: EncryptType, n: nat) -> Option<int>
    decreases n,
{
    if n == 0 {
        None
    } else {
        let before = chosen(infos, encrypt, (n - 1) as nat);
        if candidate(infos[n - 1], encrypt) is None {
            before
        } else {
            match before {
                None => Some(n - 1),
                Some(k) => if better(rating(infos[n - 1], encrypt), rating(infos[k], encrypt)) {
                    Some(n - 1)
                } else {
                    Some(k)
                },
            }
        }
    }
}

fn is_better(a: &Rating, b: &Rating) -> (r: bool)
    ensures
        r == better(*a, *b),
{
    if (a.part == PartId::Metadata && b.ext4) || (b.part == PartId::Metadata && a.ext4) || a.ext4
        == b.ext4 {
        a.part.rank() < b.part.rank()
    } else {
        a.ext4
    }
}

/// Chooses the mount of the partition that is to be available before `init`
/// runs; `None` where no mount offers one.
pub fn find_preinit_device(infos: &[MountInfo], encrypt: EncryptType) -> (r: Option<usize>)
    ensures
        match r {
            Some(i) => chosen(infos@, encrypt, infos@.len()) == Some(i as int) && i < infos@.len(),
            None => chosen(infos@, encrypt, infos@.len()) is None,
        },
{
    let mut best: Option<usize> = None;
    let mut best_rating = Rating { part: PartId::Persist, ext4: false };
    for i in 0..infos.len()
        invariant
            match best {
                Some(k) => chosen(infos@, encrypt, i as nat) == Some(k as int) && k < i
                    && best_rating == rating(infos@[k as int], encrypt),
                None => chosen(infos@, encrypt, i as nat) is None,
            },
    {
        let info = &infos[i];
        match preinit_candidate(info, encrypt) {
            Some(part) => {
                let this = Rating { part, ext4: same_text(info.fs_type.as_str(), "ext4") };
                if best.is_none() || is_better(&this, &best_rating) {
                    best = Some(i);
                    best_rating = this;
                }
            },
            None => {},
        }
    }
    best
}

/// The mounts among `infos` that are mounts of the whole device `dev`, writable,
/// by their targets.
pub open spec fn device_targets(infos: Seq<MountInfo>, dev: u64) -> Seq<Seq<char>>
    decreases infos.len(),
{
    if infos.len() == 0 {
        Seq::empty()
    } else {
        let before = device_targets(infos.drop_last(), dev);
        let info = infos.last();
        if info.root@ == "/"@ && info.device == dev && is_rw(info) {
            before.push(info.target@)
        } else {
            before
        }
    }
}

/// Lists where device `dev` is mounted as a whole and writable, in order; the
/// first that works becomes the directory that is available before `init` runs.
pub fn setup_preinit_dir(infos: &[MountInfo], dev: u64) -> (r: Vec<String>)
    ensures
        crate::text::texts(r@) == device_targets(infos@, dev),
{
    let mut out: Vec<String> = Vec::new();
    for i in 0..infos.len()
        invariant
            crate::text::texts(out@) == device_targets(infos@.take(i as int), dev),
    {
        let ghost before = out@;
        assert(infos@.take(i + 1).drop_last() =~= infos@.take(i as int));
        let info = &infos[i];
        if same_text(info.root.as_str(), "/") && info.device == dev && writable(info) {
            out.push(info.target.clone());
            assert(crate::text::texts(out@) =~= crate::text::texts(before).push(info.target@));
        }
    }
    assert(infos@.take(infos@.len() as int) =~= infos@);
    out
}

/// The next of `count` targets to be tried, after `tried` were: none where the last
/// one worked, or all were tried.
pub open spec fn next_target_spec(count: nat, tried: nat, worked: bool) -> Option<nat> {
    if worked || tried >= count {
        None
    } else {
        Some(tried)
    }
}

/// Tells which of `count` targets to try next, after `tried` were tried, where
/// `worked` tells of the last of these.
pub fn next_target(count: usize, tried: usize, worked: bool) -> (r: Option<usize>)
    ensures
        match r {
            Some(i) => next_target_spec(count as nat, tried as nat, worked) == Some(i as nat),
            None => next_target_spec(count as nat, tried as nat, worked) is None,
        },
{
    if worked || tried >= count {
        None
    } else {
        Some(tried)
    }
}

/// The target that is used in the end, after `tried` were tried and the last of
/// these worked or not, where `works` tells of each whether it works when it is
/// tried.
pub open spec fn used_target(works: Seq<bool>, tried: nat, worked: bool) -> Option<nat>
    decreases works.len() - tried,
{
    match next_target_spec(works.len(), tried, worked) {
        Some(i) => used_target(works, i + 1, works[i as int]),
        None => if worked {
            Some((tried - 1) as nat)
        } else {
            None
        },
    }
}

/// The first target that works is used, and none where none works.
pub proof fn law_first_working_target_is_used(works: Seq<bool>)
    ensures
        match used_target(works, 0, false) {
            Some(i) => i < works.len() && works[i as int] && forall|k: int|
                0 <= k < i ==> !#[trigger] works[k],
            None => forall|k: int| 0 <= k < works.len() ==> !#[trigger] works[k],
        },
{
    lemma_used_target(works, 0);
}

proof fn lemma_used_target(works: Seq<bool>, tried: nat)
    ensures
        match used_target(works, tried, false) {
            Some(i) => tried <= i < works.len() && works[i as int] && forall|k: int|
                tried <= k < i ==> !#[trigger] works[k],
            None => forall|k: int| tried <= k < works.len() ==> !#[trigger] works[k],
        },
    decreases works.len() - tried,
{
    if tried < works.len() {
        reveal_with_fuel(used_target, 2);
        if !works[tried as int] {
            lemma_used_target(works, tried + 1);
        }
    }
}

/// What is to be linked for the tools that patch the boot image.
#[derive(Clone, Copy, PartialEq, Eq, Structural)]
pub struct MirrorPlan {
    /// Link the directory that is available before `init` runs.
    pub link: bool,
    /// Make a node for its device.
    pub node: bool,
}

/// What is to be linked.
pub open spec fn mirror_plan_spec(uid: u32, tmp: Option<Seq<char>>, makedev: bool) -> MirrorPlan {
    let link = uid == 0 && tmp is Some && tmp.unwrap().len() > 0;
    MirrorPlan { link, node: link && makedev }
}

/// Tells what is to be linked: only root links, and only into a directory that
/// was named.
pub fn mirror_plan(uid: u32, tmp: Option<&str>, makedev: bool) -> (r: MirrorPlan)
    ensures
        r.link == (uid == 0 && tmp is Some && tmp.unwrap()@.len() > 0),
        r.node == (r.link && makedev),
        r == mirror_plan_spec(
            uid,
            match tmp {
                Some(t) => Some(t@),
                None => None,
            },
            makedev,
        ),
{
    let named = match tmp {
        Some(t) => {
            let chars = to_chars(t);
            chars.len() > 0
        },
        None => false,
    };
    let link = uid == 0 && named;
    MirrorPlan { link, node: link && makedev }
}

/// What is chosen is a candidate, and no candidate behind it is better.
pub proof fn law_chosen_is_candidate(infos: Seq<MountInfo>, encrypt: EncryptType, n: nat)
    requires
        n <= infos.len(),
    ensures
        match chosen(infos, encrypt, n) {
            Some(k) => 0 <= k < n && candidate(infos[k], encrypt) is Some && forall|j: int|
                k < j < n && (#[trigger] candidate(infos[j], encrypt)) is Some ==> !better(
                    rating(infos[j], encrypt),
                    rating(infos[k], encrypt),
                ),
            None => forall|j: int| 0 <= j < n ==> (#[trigger] candidate(infos[j], encrypt)) is None,
        },
    decreases n,
{
    if n > 0 {
        law_chosen_is_candidate(infos, encrypt, (n - 1) as nat);
    }
}

/// A candidate that is better than every other is chosen.
pub proof fn law_best_candidate_is_chosen(
    infos: Seq<MountInfo>,
    encrypt: EncryptType,
    n: nat,
    best: int,
)
    requires
        n <= infos.len(),
        0 <= best < n,
        candidate(infos[best], encrypt) is Some,
        forall|j: int|
            0 <= j < n && j != best && (#[trigger] candidate(infos[j], encrypt)) is Some ==> better(
                rating(infos[best], encrypt),
                rating(infos[j], encrypt),
            ),
    ensures
        chosen(infos, encrypt, n) == Some(best),
    decreases n,
{
    law_chosen_is_candidate(infos, encrypt, (n - 1) as nat);
    if best < n - 1 {
        law_best_candidate_is_chosen(infos, encrypt, (n - 1) as nat, best);
    }
}

/// Where no candidate is metadata, an `ext4` candidate is chosen if there is
/// one, and among candidates of the same kind the most preferable partition.
pub proof fn law_preference_order(infos: Seq<MountInfo>, encrypt: EncryptType, n: nat)
    requires
        n <= infos.len(),
        forall|j: int|
            0 <= j < n ==> (#[trigger] candidate(infos[j], encrypt)) != Some(PartId::Metadata),
    ensures
        match chosen(infos, encrypt, n) {
            Some(k) => 0 <= k < n && candidate(infos[k], encrypt) is Some && forall|j: int|
                0 <= j < n && (#[trigger] candidate(infos[j], encrypt)) is Some ==> {
                    let c = rating(infos[k], encrypt);
                    let o = rating(infos[j], encrypt);
                    &&& o.ext4 ==> c.ext4
                    &&& o.ext4 == c.ext4 ==> rank_spec(c.part) <= rank_spec(o.part)
                },
            None => true,
        },
    decreases n,
{
    if n > 0 {
        law_preference_order(infos, encrypt, (n - 1) as nat);
        law_chosen_is_candidate(infos, encrypt, (n - 1) as nat);
        assert(candidate(infos[n - 1], encrypt) != Some(PartId::Metadata));
        match chosen(infos, encrypt, (n - 1) as nat) {
            Some(k) => {
                assert(candidate(infos[k], encrypt) != Some(PartId::Metadata));
            },
            None => {},
        }
    }
}

/// Where every candidate holds the same kind of file system, the most preferable
/// partition is chosen.
pub proof fn law_same_file_system(
    infos: Seq<MountInfo>,
    encrypt: EncryptType,
    n: nat,
    ext4: bool,
)
    requires
        n <= infos.len(),
        forall|j: int|
            0 <= j < n && (#[trigger] candidate(infos[j], encrypt)) is Some ==> rating(
                infos[j],
                encrypt,
            ).ext4 == ext4,
    ensures
        match chosen(infos, encrypt, n) {
            Some(k) => 0 <= k < n && candidate(infos[k], encrypt) is Some && forall|j: int|
                0 <= j < n && (#[trigger] candidate(infos[j], encrypt)) is Some ==> rank_spec(
                    rating(infos[k], encrypt).part,
                ) <= rank_spec(rating(infos[j], encrypt).part),
            None => forall|j: int| 0 <= j < n ==> (#[trigger] candidate(infos[j], encrypt)) is None,
        },
    decreases n,
{
    if n > 0 {
        law_same_file_system(infos, encrypt, (n - 1) as nat, ext4);
        law_chosen_is_candidate(infos, encrypt, (n - 1) as nat);
    }
}

/// An encrypted data partition is never chosen, unless it is encrypted by file
/// without metadata.
pub proof fn law_encrypted_data_is_not_chosen(
    infos: Seq<MountInfo>,
    encrypt: EncryptType,
    n: nat,
)
    requires
        n <= infos.len(),
        encrypt is Block || encrypt is Metadata,
    ensures
        chosen(infos, encrypt, n) matches Some(k) ==> candidate(infos[k], encrypt) != Some(
            PartId::Data,
        ),
{
    law_chosen_is_candidate(infos, encrypt, n);
}

/// What `/sys/dev/block` shows of one device.
pub struct BlockEntry {
    /// The contents of `uevent`, where they could be read.
    pub uevent: Option<String>,
    /// The contents of `dm/name`, where they could be read.
    pub dm_name: Option<String>,
}

/// The value of the first line that starts with `PARTNAME=`, empty where there
/// is none.
pub open spec fn partname_line(lines: Seq<Seq<char>>) -> Seq<char>
    decreases lines.len(),
{
    if lines.len() == 0 {
        Seq::empty()
    } else {
        match strip_prefix_spec(lines[0], "PARTNAME="@) {
            Some(name) => name,
            None => partname_line(lines.skip(1)),
        }
    }
}

/// The name of the partition on a device: what `uevent` says, or else the name
/// that the device mapper gives; empty where there is none.
pub open spec fn partname_spec(e: BlockEntry) -> Seq<char> {
    let listed = match e.uevent {
        Some(u) => partname_line(lines_spec(u@)),
        None => Seq::empty(),
    };
    if listed.len() > 0 {
        listed
    } else {
        match e.dm_name {
            Some(d) => trim_spec(d@),
            None => Seq::empty(),
        }
    }
}

/// How preferable a partition is by its name, 0 the most; 4 for one that cannot be
/// used before `init` runs.
pub open spec fn name_rank(name: Seq<char>) -> nat {
    if same_letters(name, "data"@) {
        0
    } else if same_letters(name, "metadata"@) {
        1
    } else if same_letters(name, "cache"@) {
        2
    } else if same_letters(name, "persist"@) {
        3
    } else {
        4
    }
}

/// A partition that can be used before `init` runs goes by this name.
pub open spec fn is_preinit_name(name: Seq<char>) -> bool {
    name_rank(name) < 4
}

/// The names of the partitions among `entries` that can be used, in order.
pub open spec fn preinit_names(entries: Seq<BlockEntry>) -> Seq<Seq<char>>
    decreases entries.len(),
{
    if entries.len() == 0 {
        Seq::empty()
    } else {
        let before = preinit_names(entries.drop_last());
        let name = partname_spec(entries.last());
        if name.len() > 0 && is_preinit_name(name) {
            before.push(name)
        } else {
            before
        }
    }
}

/// The name at `i` is the first of the most preferable ones.
pub open spec fn is_first_best(names: Seq<Seq<char>>, i: int) -> bool {
    &&& 0 <= i < names.len()
    &&& forall|j: int| 0 <= j < names.len() ==> name_rank(names[i]) <= name_rank(#[trigger] names[j])
    &&& forall|j: int| 0 <= j < i ==> name_rank(names[i]) < name_rank(#[trigger] names[j])
}

/// The first of the most preferable names; empty where there is none.
pub open spec fn pick_name(names: Seq<Seq<char>>) -> Seq<char> {
    if names.len() > 0 {
        names[choose|i: int| is_first_best(names, i)]
    } else {
        Seq::empty()
    }
}

proof fn lemma_first_best(names: Seq<Seq<char>>, i: int)
    requires
        is_first_best(names, i),
    ensures
        pick_name(names) == names[i],
{
    let k = choose|k: int| is_first_best(names, k);
    if k < i {
        assert(name_rank(names[i]) < name_rank(names[k]));
    } else if i < k {
        assert(name_rank(names[k]) < name_rank(names[i]));
    }
}

fn listed_partname(uevent: &str) -> (r: Vec<char>)
    ensures
        r@ == partname_line(lines_spec(uevent@)),
{
    let chars = to_chars(uevent);
    let all = lines(chars.as_slice());
    let ghost full = views(all@);
    assert(full.skip(0) =~= full);
    for i in 0..all.len()
        invariant
            full == views(all@),
            partname_line(full) == partname_line(full.skip(i as int)),
            full == lines_spec(uevent@),
    {
        assert(full.skip(i as int)[0] == all@[i as int]@);
        assert(full.skip(i as int).skip(1) =~= full.skip(i + 1));
        match strip_prefix(all[i], "PARTNAME=") {
            Some(name) => {
                let mut out: Vec<char> = Vec::new();
                for k in 0..name.len()
                    invariant
                        out@ == name@.take(k as int),
                {
                    out.push(name[k]);
                    assert(name@.take(k + 1) =~= name@.take(k as int).push(name@[k as int]));
                }
                assert(name@.take(name@.len() as int) =~= name@);
                return out;
            },
            None => {},
        }
    }
    assert(full.skip(full.len() as int) =~= Seq::empty());
    Vec::new()
}

/// Tells the name of the partition on a device.
pub fn partname(e: &BlockEntry) -> (r: String)
    ensures
        r@ == partname_spec(*e),
{
    let listed = match &e.uevent {
        Some(u) => listed_partname(u.as_str()),
        None => Vec::new(),
    };
    if listed.len() > 0 {
        return to_text(listed.as_slice());
    }
    match &e.dm_name {
        Some(d) => {
            let chars = to_chars(d.as_str());
            to_text(trim(chars.as_slice()))
        },
        None => String::new(),
    }
}

fn same_letters_text(name: &[char], lit: &str) -> (r: bool)
    ensures
        r == same_letters(name@, lit@),
{
    let l = to_chars(lit);
    eq_ignore_ascii_case(name, l.as_slice())
}

fn rank_of_name(name: &[char]) -> (r: u8)
    ensures
        r == name_rank(name@),
{
    if same_letters_text(name, "data") {
        0
    } else if same_letters_text(name, "metadata") {
        1
    } else if same_letters_text(name, "cache") {
        2
    } else if same_letters_text(name, "persist") {
        3
    } else {
        4
    }
}

/// Chooses a partition by its name among the block devices: the first of the most
/// preferable, which are data, metadata, cache and persist in this order; empty
/// where none can be used.
pub fn find_preinit_device_sysfs(entries: &[BlockEntry]) -> (r: String)
    ensures
        r@ == pick_name(preinit_names(entries@)),
{
    let mut best = String::new();
    let mut best_rank: u8 = 4;
    let ghost mut names: Seq<Seq<char>> = Seq::empty();
    let ghost mut at: int = 0;
    for i in 0..entries.len()
        invariant
            names == preinit_names(entries@.take(i as int)),
            names.len() == 0 ==> best_rank == 4 && best@ == Seq::<char>::empty(),
            names.len() > 0 ==> is_first_best(names, at) && best@ == names[at] && best_rank
                == name_rank(names[at]) && best_rank < 4,
    {
        assert(entries@.take(i + 1).drop_last() =~= entries@.take(i as int));
        let name = partname(&entries[i]);
        let chars = to_chars(name.as_str());
        if chars.len() > 0 {
            let rank: u8 = rank_of_name(chars.as_slice());
            if rank < 4 {
                let ghost before = names;
                proof {
                    names = names.push(name@);
                    assert(forall|j: int| 0 <= j < before.len() ==> #[trigger] names[j] == before[j]);
                    if rank < best_rank {
                        at = before.len() as int;
                        assert forall|j: int| 0 <= j < before.len() implies name_rank(names[at])
                            < name_rank(#[trigger] names[j]) by {
                            assert(names[j] == before[j]);
                        }
                    } else {
                        assert(names[at] == before[at]);
                    }
                }
                if rank < best_rank {
                    best = name;
                    best_rank = rank;
                }
            }
        }
    }
    assert(entries@.take(entries@.len() as int) =~= entries@);
    proof {
        if names.len() > 0 {
            lemma_first_best(names, at);
        }
    }
    best
}

proof fn lemma_best_exists(names: Seq<Seq<char>>) -> (i: int)
    requires
        names.len() > 0,
    ensures
        is_first_best(names, i),
    decreases names.len(),
{
    if names.len() == 1 {
        0
    } else {
        let rest = names.drop_last();
        let k = lemma_best_exists(rest);
        assert(forall|j: int| 0 <= j < rest.len() ==> #[trigger] names[j] == rest[j]);
        if name_rank(names.last()) < name_rank(rest[k]) {
            assert forall|j: int| 0 <= j < rest.len() implies name_rank(names.last()) < name_rank(
                #[trigger] names[j],
            ) by {
                assert(names[j] == rest[j]);
            }
            names.len() - 1
        } else {
            assert forall|j: int| 0 <= j < k implies name_rank(names[k]) < name_rank(
                #[trigger] names[j],
            ) by {
                assert(names[j] == rest[j]);
            }
            k
        }
    }
}

/// The name that is chosen is that of a partition that can be used, none is
/// preferable to it, and it is the first of its rank.
pub proof fn law_picked_name(entries: Seq<BlockEntry>)
    ensures
        ({
            let names = preinit_names(entries);
            let picked = pick_name(names);
            &&& names.len() == 0 ==> picked == Seq::<char>::empty()
            &&& names.len() > 0 ==> is_preinit_name(picked) && exists|i: int|
                #[trigger] is_first_best(names, i) && picked == names[i]
            &&& forall|j: int|
                0 <= j < names.len() ==> name_rank(picked) <= name_rank(#[trigger] names[j])
        }),
{
    let names = preinit_names(entries);
    lemma_names_usable(entries);
    if names.len() > 0 {
        let i = lemma_best_exists(names);
        lemma_first_best(names, i);
        assert(is_first_best(names, i) && pick_name(names) == names[i]);
    }
}

/// The name of the partition that is to be available before `init` runs: by the
/// mount that is chosen, or else by the block devices.
pub open spec fn preinit_name_spec(
    infos: Seq<MountInfo>,
    encrypt: EncryptType,
    entries: Seq<BlockEntry>,
) -> Seq<char> {
    match chosen(infos, encrypt, infos.len()) {
        Some(i) => file_name_spec(infos[i].source@),
        None => pick_name(preinit_names(entries)),
    }
}

/// Names the partition that is to be available before `init` runs.
pub fn preinit_name(infos: &[MountInfo], encrypt: EncryptType, entries: &[BlockEntry]) -> (r:
    String)
    ensures
        r@ == preinit_name_spec(infos@, encrypt, entries@),
{
    match find_preinit_device(infos, encrypt) {
        Some(i) => file_name(infos[i].source.as_str()),
        None => find_preinit_device_sysfs(entries),
    }
}

proof fn lemma_names_usable(entries: Seq<BlockEntry>)
    ensures
        forall|i: int|
            0 <= i < preinit_names(entries).len() ==> is_preinit_name(
                #[trigger] preinit_names(entries)[i],
            ),
    decreases entries.len(),
{
    if entries.len() > 0 {
        lemma_names_usable(entries.drop_last());
        let before = preinit_names(entries.drop_last());
        let names = preinit_names(entries);
        assert forall|i: int| 0 <= i < names.len() implies is_preinit_name(#[trigger] names[i]) by {
            if i < before.len() {
                assert(names[i] == before[i]);
            }
        }
    }
}

/// The components of a path are those of the directory and those behind it. Empty
/// pieces and single dots are none, and every other piece between slashes is one.
pub proof fn law_components(a: Seq<char>, b: Seq<char>)
    ensures
        components(a.push('/') + b) == components(a) + components(b),
        !b.contains('/') && b.len() > 0 && b != seq!['.'] ==> components(b) == seq![b],
        components(Seq::empty()) == Seq::<Seq<char>>::empty(),
        components(seq!['.']) == Seq::<Seq<char>>::empty(),
{
    reveal_strlit(".");
    assert("."@ =~= seq!['.']);
    let keep = |p: Seq<char>| is_component(p);
    law_pieces_of_both(a, '/', b);
    Seq::filter_distributes_over_add(split_spec(a, '/'), split_spec(b, '/'), keep);
    if !b.contains('/') {
        law_pieces(b, '/', Seq::empty());
        lemma_filter_one(b);
    }
    let none = Seq::<char>::empty();
    assert(!none.contains('/'));
    law_pieces(none, '/', none);
    lemma_filter_one(none);
    let dot = seq!['.'];
    assert(!dot.contains('/')) by {
        assert(dot[0] == '.');
    }
    law_pieces(dot, '/', none);
    lemma_filter_one(dot);
}

proof fn lemma_filter_one(p: Seq<char>)
    ensures
        seq![p].filter(|p: Seq<char>| is_component(p)) == (if is_component(p) {
            seq![p]
        } else {
            Seq::empty()
        }),
{
    let keep = |p: Seq<char>| is_component(p);
    let none = Seq::<Seq<char>>::empty();
    lemma_filter_push(none, p, keep);
    assert(none.push(p) =~= seq![p]);
    assert(none.filter(keep) =~= none) by {
        reveal(Seq::filter);
    }
}

/// `n` is a plain file name.
pub open spec fn is_plain(n: Seq<char>) -> bool {
    n.len() > 0 && !n.contains('/') && n != seq!['.'] && n != seq!['.', '.']
}

/// A device stands in a directory of block devices where its own directory is named
/// `by-name` or `block`, wherever that directory is, and not where it is named
/// otherwise. It goes by its file name.
pub proof fn law_block_directories(d: Seq<char>, dir: Seq<char>, n: Seq<char>)
    requires
        is_plain(n),
        is_plain(dir),
    ensures
        in_block_dir(d + "/by-name/"@ + n),
        in_block_dir(d + "/block/"@ + n),
        in_block_dir(d + (seq!['/'] + dir.push('/')) + n) <==> dir == "by-name"@ || dir == "block"@,
        !in_block_dir(n),
        file_name_spec(d.push('/') + n) == n,
        file_name_spec(n) == n,
        file_name_spec(d + "/.."@) == Seq::<char>::empty(),
{
    reveal_strlit("/by-name/");
    reveal_strlit("/block/");
    reveal_strlit("by-name");
    reveal_strlit("block");
    reveal_strlit("..");
    reveal_strlit("/..");
    assert(".."@ =~= seq!['.', '.']);
    assert("/by-name/"@ =~= seq!['/'] + "by-name"@.push('/'));
    assert("/block/"@ =~= seq!['/'] + "block"@.push('/'));
    lemma_plain_words();
    lemma_in_dir(d, "by-name"@, n);
    lemma_in_dir(d, "block"@, n);
    lemma_in_dir(d, dir, n);
    law_components(d, n);
    let c = components(d) + seq![n];
    assert(c.last() == n);
    assert(components(n).last() == n);
    let up = seq!['.', '.'];
    assert(!up.contains('/')) by {
        assert(up[0] == '.' && up[1] == '.');
    }
    assert(up.len() == 2);
    law_components(d, up);
    assert(d + "/.."@ =~= d.push('/') + up);
    assert((components(d) + seq![up]).last() == up);
}

proof fn lemma_plain_words()
    ensures
        is_plain("by-name"@),
        is_plain("block"@),
{
    reveal_strlit("by-name");
    reveal_strlit("block");
    assert("by-name"@.len() == 7 && "block"@.len() == 5);
    assert(!"by-name"@.contains('/'));
    assert(!"block"@.contains('/'));
}

proof fn lemma_in_dir(d: Seq<char>, dir: Seq<char>, n: Seq<char>)
    requires
        is_plain(n),
        is_plain(dir),
    ensures
        in_block_dir(d + (seq!['/'] + dir.push('/')) + n) <==> dir == "by-name"@ || dir == "block"@,
{
    let path = d + (seq!['/'] + dir.push('/')) + n;
    let front = d.push('/') + dir;
    assert(path =~= front.push('/') + n);
    law_components(front, n);
    law_components(d, dir);
    let c = components(d) + seq![dir] + seq![n];
    assert(components(path) == c);
    assert(c[c.len() - 2] == dir);
}

/// Options are separated by commas, and a mount is writable where one of them is `rw`.
pub proof fn law_writable(a: Seq<char>, b: Seq<char>, x: MountInfo, y: MountInfo, both: MountInfo)
    requires
        x.fs_option@ == a,
        y.fs_option@ == b,
        both.fs_option@ == a.push(',') + b,
    ensures
        is_rw(both) <==> is_rw(x) || is_rw(y),
        !a.contains(',') ==> (is_rw(x) <==> a == "rw"@),
{
    law_pieces_of_both(a, ',', b);
    let p = split_spec(a, ',');
    let q = split_spec(b, ',');
    let all = p + q;
    if p.contains("rw"@) {
        let i = choose|i: int| 0 <= i < p.len() && p[i] == "rw"@;
        assert(all[i] == "rw"@);
    }
    if q.contains("rw"@) {
        let i = choose|i: int| 0 <= i < q.len() && q[i] == "rw"@;
        assert(all[p.len() + i] == "rw"@);
    }
    if all.contains("rw"@) {
        let i = choose|i: int| 0 <= i < all.len() && all[i] == "rw"@;
        if i < p.len() {
            assert(p[i] == "rw"@);
        } else {
            assert(q[i - p.len()] == "rw"@);
        }
    }
    if !a.contains(',') {
        law_pieces(a, ',', b);
        assert(p[0] == a);
        if a == "rw"@ {
            assert(p.contains("rw"@));
        }
    }
}

/// A whole partition with a writable `ext4` or `f2fs`, on a device with a static
/// number that is listed by name or as a block device, is a candidate by where it is
/// mounted. Data is none where it is encrypted as a whole, or with its metadata.
pub proof fn law_candidates(
    info: MountInfo,
    encrypt: EncryptType,
    d: Seq<char>,
    n: Seq<char>,
    by_name: bool,
)
    requires
        is_plain(n),
        info.root@ == "/"@,
        info.source@ == d + (if by_name {
            "/by-name/"@
        } else {
            "/block/"@
        }) + n,
        d.len() > 0 && d[0] == '/',
        forall|a: Seq<char>, b: Seq<char>| info.source@ != #[trigger] (a + "/dm-"@ + b),
        info.fs_type@ == "ext4"@ || info.fs_type@ == "f2fs"@,
        is_rw(info),
        by_name || (info.device >> 8u64) & 0xfff < 240 || (info.device >> 8u64) & 0xfff > 254,
    ensures
        info.target@ == "/data"@ ==> candidate(info, encrypt) == (if encrypt is Unencrypted
            || encrypt is File {
            Some(PartId::Data)
        } else {
            None
        }),
        info.target@ == "/cache"@ ==> candidate(info, encrypt) == Some(PartId::Cache),
        info.target@ == "/klogdump"@ ==> candidate(info, encrypt) == Some(PartId::Klogdump),
        info.target@ == "/metadata"@ ==> candidate(info, encrypt) == Some(PartId::Metadata),
        info.target@ == "/persist"@ || info.target@ == "/mnt/vendor/persist"@ ==> candidate(
            info,
            encrypt,
        ) == Some(PartId::Persist),
        candidate(info, encrypt) is Some ==> info.target@ == "/data"@ || info.target@ == "/cache"@
            || info.target@ == "/klogdump"@ || info.target@ == "/metadata"@ || info.target@
            == "/persist"@ || info.target@ == "/mnt/vendor/persist"@,
{
    lemma_plain_words();
    law_block_directories(d, "block"@, n);
    reveal_strlit("/");
    assert(info.source@.take(1) =~= "/"@);
    law_occurs(info.source@, "/dm-"@, Seq::empty(), Seq::empty());
    if by_name {
        law_occurs(info.source@, "/by-name/"@, d, n);
    }
    lemma_targets_differ();
}

proof fn lemma_targets_differ()
    ensures
        "/data"@ != "/cache"@,
        "/data"@ != "/klogdump"@,
        "/data"@ != "/metadata"@,
        "/data"@ != "/persist"@,
        "/data"@ != "/mnt/vendor/persist"@,
        "/cache"@ != "/klogdump"@,
        "/cache"@ != "/metadata"@,
        "/cache"@ != "/persist"@,
        "/cache"@ != "/mnt/vendor/persist"@,
        "/klogdump"@ != "/metadata"@,
        "/klogdump"@ != "/persist"@,
        "/klogdump"@ != "/mnt/vendor/persist"@,
        "/metadata"@ != "/persist"@,
        "/metadata"@ != "/mnt/vendor/persist"@,
        "/persist"@ != "/mnt/vendor/persist"@,
{
    reveal_strlit("/data");
    reveal_strlit("/cache");
    reveal_strlit("/klogdump");
    reveal_strlit("/metadata");
    reveal_strlit("/persist");
    reveal_strlit("/mnt/vendor/persist");
    assert("/data"@[1] == 'd' && "/cache"@[1] == 'c' && "/klogdump"@[1] == 'k' && "/persist"@[1]
        == 'p');
    assert("/metadata"@[1] == 'm' && "/mnt/vendor/persist"@[1] == 'm');
    assert("/metadata"@[2] == 'e' && "/mnt/vendor/persist"@[2] == 'n');
}

/// A mount is no candidate where it is of a part of a device, of a device of the
/// device mapper, read-only, of another file system, or of a device whose number was
/// given out at run time, unless that is listed by name or of a virtual machine.
pub proof fn law_not_candidates(info: MountInfo, encrypt: EncryptType, a: Seq<char>, b: Seq<char>)
    ensures
        info.root@ != "/"@ ==> candidate(info, encrypt) is None,
        info.source@ == a + "/dm-"@ + b ==> candidate(info, encrypt) is None,
        info.source@.len() == 0 || info.source@[0] != '/' ==> candidate(info, encrypt) is None,
        info.fs_type@ != "ext4"@ && info.fs_type@ != "f2fs"@ ==> candidate(info, encrypt) is None,
        !is_rw(info) ==> candidate(info, encrypt) is None,
        240 <= (info.device >> 8u64) & 0xfff <= 254 && (forall|x: Seq<char>, y: Seq<char>|
            info.source@ != #[trigger] (x + "/vd"@ + y)) && (forall|x: Seq<char>, y: Seq<char>|
            info.source@ != #[trigger] (x + "/by-name/"@ + y)) ==> candidate(info, encrypt)
            is None,
        encrypt is Block || encrypt is Metadata ==> candidate(info, encrypt) != Some(PartId::Data),
        candidate(info, encrypt) == Some(PartId::Data) ==> info.target@ == "/data"@,
{
    law_occurs(info.source@, "/dm-"@, a, b);
    law_occurs(info.source@, "/vd"@, Seq::empty(), Seq::empty());
    law_occurs(info.source@, "/by-name/"@, Seq::empty(), Seq::empty());
    reveal_strlit("/");
    if has_prefix(info.source@, "/"@) {
        assert(info.source@.take(1)[0] == info.source@[0]);
    }
}

/// Of two candidates, the one chosen is data before cache, klogdump, metadata and
/// persist in this order; but `ext4` comes before `f2fs`, unless one of the two is
/// metadata and the other holds `ext4`.
pub proof fn law_choice_of_two(x: MountInfo, y: MountInfo, encrypt: EncryptType)
    requires
        candidate(x, encrypt) is Some,
        candidate(y, encrypt) is Some,
    ensures
        ({
            let p = candidate(x, encrypt).unwrap();
            let q = candidate(y, encrypt).unwrap();
            let place = |p: PartId|
                match p {
                    PartId::Data => 0int,
                    PartId::Cache => 1,
                    PartId::Klogdump => 2,
                    PartId::Metadata => 3,
                    PartId::Persist => 4,
                };
            let by_place = x.fs_type@ == y.fs_type@ || (p is Metadata && y.fs_type@ == "ext4"@) || (
            q is Metadata && x.fs_type@ == "ext4"@);
            chosen(seq![x, y], encrypt, 2) == (if by_place {
                if place(q) < place(p) {
                    Some(1int)
                } else {
                    Some(0int)
                }
            } else if y.fs_type@ == "ext4"@ {
                Some(1int)
            } else {
                Some(0int)
            })
        }),
{
    let s = seq![x, y];
    assert(s[0] == x && s[1] == y);
    reveal_with_fuel(chosen, 3);
    assert(x.fs_type@ == "ext4"@ || x.fs_type@ == "f2fs"@);
    assert(y.fs_type@ == "ext4"@ || y.fs_type@ == "f2fs"@);
    reveal_strlit("ext4");
    reveal_strlit("f2fs");
    assert("ext4"@[0] == 'e' && "f2fs"@[0] == 'f');
}

/// One mount more: a mount that is no candidate changes nothing, and a candidate is
/// chosen against what was chosen before as against that alone.
pub proof fn law_one_mount_more(infos: Seq<MountInfo>, m: MountInfo, encrypt: EncryptType)
    ensures
        ({
            let n = infos.len();
            let before = chosen(infos, encrypt, n);
            let after = chosen(infos.push(m), encrypt, n + 1);
            &&& candidate(m, encrypt) is None ==> after == before
            &&& candidate(m, encrypt) is Some && before is None ==> after == Some(n as int)
            &&& candidate(m, encrypt) is Some && before is Some ==> 0 <= before.unwrap() < n && (
            after == Some(n as int) || after == before) && (after == before <==> chosen(
                seq![infos[before.unwrap()], m],
                encrypt,
                2,
            ) == Some(0int))
        }),
{
    let n = infos.len();
    lemma_chosen_prefix(infos, m, encrypt, n);
    law_chosen_is_candidate(infos, encrypt, n);
    if chosen(infos, encrypt, n) is Some {
        let k = chosen(infos, encrypt, n).unwrap();
        let s = seq![infos[k], m];
        assert(s[0] == infos[k] && s[1] == m);
        reveal_with_fuel(chosen, 3);
        assert(infos.push(m)[k] == infos[k]);
    }
    assert(infos.push(m)[n as int] == m);
}

proof fn lemma_chosen_prefix(infos: Seq<MountInfo>, m: MountInfo, encrypt: EncryptType, n: nat)
    requires
        n <= infos.len(),
    ensures
        chosen(infos.push(m), encrypt, n) == chosen(infos, encrypt, n),
    decreases n,
{
    if n > 0 {
        lemma_chosen_prefix(infos, m, encrypt, (n - 1) as nat);
        law_chosen_is_candidate(infos, encrypt, (n - 1) as nat);
        assert(infos.push(m)[n - 1] == infos[n - 1]);
        match chosen(infos, encrypt, (n - 1) as nat) {
            Some(k) => {
                assert(infos.push(m)[k] == infos[k]);
            },
            None => {},
        }
    }
}

/// What the properties say of encryption: nothing counts unless data is encrypted; as
/// a whole, it is so whatever is said of metadata.
pub proof fn law_encryption(state: Seq<char>, kind: Seq<char>, metadata: Seq<char>)
    ensures
        ({
            let e = encrypt_type_spec(state, kind, metadata);
            &&& e is Unencrypted <==> state != "encrypted"@
            &&& e is Block <==> state == "encrypted"@ && kind == "block"@
            &&& e is Metadata <==> state == "encrypted"@ && kind != "block"@ && metadata == "true"@
        }),
{
}

/// The targets of a device are those of its whole, writable mounts, in order.
pub proof fn law_targets_of_device(infos: Seq<MountInfo>, m: MountInfo, dev: u64)
    ensures
        device_targets(Seq::empty(), dev) == Seq::<Seq<char>>::empty(),
        device_targets(infos.push(m), dev) == (if m.root@ == "/"@ && m.device == dev && is_rw(m) {
            device_targets(infos, dev).push(m.target@)
        } else {
            device_targets(infos, dev)
        }),
{
    assert(infos.push(m).drop_last() =~= infos);
}

/// The name of a partition is what the first line that starts with `PARTNAME=` says,
/// and otherwise what the device mapper says, without blanks around it.
pub proof fn law_partition_names(
    e: BlockEntry,
    before: Seq<Seq<char>>,
    name: Seq<char>,
    behind: Seq<Seq<char>>,
)
    requires
        forall|i: int, x: Seq<char>|
            0 <= i < before.len() ==> #[trigger] before[i] != #[trigger] ("PARTNAME="@ + x),
    ensures
        partname_line(before.push("PARTNAME="@ + name) + behind) == name,
        partname_line(before) == Seq::<char>::empty(),
        e.uevent is None && e.dm_name is Some ==> partname_spec(e) == trim_spec(e.dm_name.unwrap()@),
        e.uevent is Some && partname_line(lines_spec(e.uevent.unwrap()@)).len() > 0
            ==> partname_spec(e) == partname_line(lines_spec(e.uevent.unwrap()@)),
        e.uevent is Some && partname_line(lines_spec(e.uevent.unwrap()@)).len() == 0 && e.dm_name
            is Some ==> partname_spec(e) == trim_spec(e.dm_name.unwrap()@),
    decreases before.len(),
{
    let w = "PARTNAME="@ + name;
    let all = before.push(w) + behind;
    if before.len() > 0 {
        assert(all[0] == before[0]);
        law_prefix_is_stripped("PARTNAME="@, before[0]);
        let rest = before.skip(1);
        assert forall|i: int, x: Seq<char>| 0 <= i < rest.len() implies #[trigger] rest[i]
            != #[trigger] ("PARTNAME="@ + x) by {
            assert(rest[i] == before[i + 1]);
        }
        law_partition_names(e, rest, name, behind);
        assert(all.skip(1) =~= rest.push(w) + behind);
    } else {
        assert(all[0] == w);
        law_prefix_is_stripped("PARTNAME="@, name);
    }
}

/// Partitions go by these names, in either case: data is most preferable, then
/// metadata, cache and persist; no other can be used.
pub proof fn law_name_ranks(name: Seq<char>)
    ensures
        name_rank("data"@) < name_rank("metadata"@) < name_rank("cache"@) < name_rank("persist"@),
        is_preinit_name(name) <==> same_letters(name, "data"@) || same_letters(name, "metadata"@)
            || same_letters(name, "cache"@) || same_letters(name, "persist"@),
        same_letters(name, "data"@) ==> name_rank(name) == name_rank("data"@),
        same_letters(name, "metadata"@) ==> name_rank(name) == name_rank("metadata"@),
        same_letters(name, "cache"@) ==> name_rank(name) == name_rank("cache"@),
        same_letters(name, "persist"@) ==> name_rank(name) == name_rank("persist"@),
{
    reveal_strlit("data");
    reveal_strlit("metadata");
    reveal_strlit("cache");
    reveal_strlit("persist");
    law_same_letters("data"@, "data"@);
    law_same_letters("metadata"@, "metadata"@);
    law_same_letters("cache"@, "cache"@);
    law_same_letters("persist"@, "persist"@);
}

/// A device is offered exactly where its partition has a name that can be used, in
/// the order of the devices.
pub proof fn law_one_device_more(entries: Seq<BlockEntry>, e: BlockEntry)
    ensures
        preinit_names(Seq::empty()) == Seq::<Seq<char>>::empty(),
        preinit_names(entries.push(e)) == (if partname_spec(e).len() > 0 && is_preinit_name(
            partname_spec(e),
        ) {
            preinit_names(entries).push(partname_spec(e))
        } else {
            preinit_names(entries)
        }),
{
    assert(entries.push(e).drop_last() =~= entries);
}

/// A file is a block device exactly where the four bits from bit 12 of its mode on
/// make the number 6.
pub proof fn law_block_devices(mode: u32)
    ensures
        is_block_spec(mode) <==> (mode / 4096) % 16 == 6,
{
    assert((mode & 0xf000 == 0x6000) == ((mode / 4096) % 16 == 6)) by (bit_vector);
}

/// The major number of a device is what is left of it, in units of 256, after
/// division by 4096.
pub proof fn law_major(dev: u64)
    ensures
        major_spec(dev) == (dev / 256) % 4096,
{
    assert((dev >> 8u64) & 0xfff == (dev / 256) % 4096) by (bit_vector);
}

/// Nothing is linked by a user other than root, without a directory, or into one
/// without a name; a node is made only where something is linked and it is asked
/// for.
pub proof fn law_mirror_plan(uid: u32, tmp: Seq<char>, makedev: bool)
    ensures
        uid != 0 ==> mirror_plan_spec(uid, Some(tmp), makedev) == (MirrorPlan {
            link: false,
            node: false,
        }),
        mirror_plan_spec(0, None, makedev) == (MirrorPlan { link: false, node: false }),
        mirror_plan_spec(0, Some(Seq::empty()), makedev) == (MirrorPlan {
            link: false,
            node: false,
        }),
        tmp.len() > 0 ==> mirror_plan_spec(0, Some(tmp), makedev) == (MirrorPlan {
            link: true,
            node: makedev,
        }),
{
}

/// Targets are tried one after the other until one works or none is left.
pub proof fn law_targets_are_tried(count: nat, tried: nat)
    ensures
        next_target_spec(count, tried, true) is None,
        tried < count ==> next_target_spec(count, tried, false) == Some(tried),
        tried >= count ==> next_target_spec(count, tried, false) is None,
{
}

/// Where the last mount of the list is the only candidate, the partition that is
/// available early has the last component of its source for a name. Without any
/// candidate it is the most preferable of the block devices.
pub proof fn law_early_partition(
    infos: Seq<MountInfo>,
    info: MountInfo,
    encrypt: EncryptType,
    entries: Seq<BlockEntry>,
    d: Seq<char>,
    n: Seq<char>,
)
    requires
        is_plain(n),
        info.source@ == d.push('/') + n,
        forall|i: int| 0 <= i < infos.len() ==> candidate(#[trigger] infos[i], encrypt) is None,
        candidate(info, encrypt) is Some,
    ensures
        preinit_name_spec(infos.push(info), encrypt, entries) == n,
        preinit_name_spec(infos, encrypt, entries) == pick_name(preinit_names(entries)),
{
    let all = infos.push(info);
    let k = infos.len() as int;
    assert(all[k] == info);
    assert forall|j: int| 0 <= j < all.len() && j != k implies (#[trigger] candidate(
        all[j],
        encrypt,
    )) is None by {
        assert(all[j] == infos[j]);
    }
    law_best_candidate_is_chosen(all, encrypt, all.len(), k);
    law_chosen_is_candidate(infos, encrypt, infos.len());
    law_components(d, n);
    reveal_strlit("..");
    assert(".."@ =~= seq!['.', '.']);
    assert(components(info.source@).last() == n);
}

} // verus!
