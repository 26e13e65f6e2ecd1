//! Swap, ZRAM and disks: reading what `/proc/meminfo`, `zramctl` and `lsblk`
//! report, and the commands that change the I/O scheduler and swappiness.

use vstd::prelude::*;
use crate::number::{decimal, decimal_chars, parse_u64, parse_unsigned};
use crate::text::{
    chars_of, concat_chars, lines, split_lines, split_words, starts_with, strip_prefixes, text_of,
    trim, trim_start_matches, trimmed, views, words,
};

verus! {

/// Swap sizes, as the storage page shows them, and the swappiness.
#[derive(Debug, Clone)]
pub struct SwapInfo {
    pub total: String,
    pub used: String,
    pub free: String,
    pub swappiness: String,
}

pub struct SwapView {
    pub total: Seq<char>,
    pub used: Seq<char>,
    pub free: Seq<char>,
    pub swappiness: Seq<char>,
}

impl View for SwapInfo {
    type V = SwapView;

    open spec fn view(&self) -> SwapView {
        SwapView {
            total: self.total@,
            used: self.used@,
            free: self.free@,
            swappiness: self.swappiness@,
        }
    }
}

/// The field that the last line starting with `tag` gives: its second word,
/// or `0` when it has fewer words; `default` when no line starts with `tag`.
pub open spec fn tagged_field(ls: Seq<Seq<char>>, tag: Seq<char>, default: Seq<char>) -> Seq<char>
    decreases ls.len(),
{
    if ls.len() == 0 {
        default
    } else if tag.is_prefix_of(ls.last()) {
        let w = words(ls.last());
        if w.len() > 1 {
            w[1]
        } else {
            "0"@
        }
    } else {
        tagged_field(ls.drop_last(), tag, default)
    }
}

/// A field comes from the last line that starts with its tag (the first line
/// included), as that line's second word, or `0` when it has fewer words;
/// with no such line the field is the default.
pub proof fn law_tagged_field_last_line(ls: Seq<Seq<char>>, tag: Seq<char>, default: Seq<char>)
    ensures
        (forall|j: int| 0 <= j < ls.len() ==> !tag.is_prefix_of(#[trigger] ls[j])) ==> tagged_field(ls, tag, default)
            == default,
        forall|j: int|
            0 <= j < ls.len() && tag.is_prefix_of(#[trigger] ls[j]) && (forall|l: int|
                j < l < ls.len() ==> !tag.is_prefix_of(ls[l])) ==> tagged_field(ls, tag, default) == if words(
                ls[j],
            ).len() > 1 {
                words(ls[j])[1]
            } else {
                "0"@
            },
    decreases ls.len(),
{
    if ls.len() > 0 {
        let prev = ls.drop_last();
        law_tagged_field_last_line(prev, tag, default);
        let n = ls.len() - 1;
        if forall|j: int| 0 <= j < ls.len() ==> !tag.is_prefix_of(#[trigger] ls[j]) {
            assert(!tag.is_prefix_of(ls[n]));
            assert forall|j: int| 0 <= j < prev.len() implies !tag.is_prefix_of(#[trigger] prev[j]) by {
                assert(prev[j] == ls[j]);
            }
        }
        assert forall|j: int|
            0 <= j < ls.len() && tag.is_prefix_of(#[trigger] ls[j]) && (forall|l: int|
                j < l < ls.len() ==> !tag.is_prefix_of(ls[l])) implies tagged_field(ls, tag, default) == if words(
            ls[j],
        ).len() > 1 {
            words(ls[j])[1]
        } else {
            "0"@
        } by {
            if j < n {
                assert(!tag.is_prefix_of(ls[n]));
                assert(prev[j] == ls[j]);
                assert forall|l: int| j < l < prev.len() implies !tag.is_prefix_of(prev[l]) by {
                    assert(prev[l] == ls[l]);
                }
                assert(tag.is_prefix_of(prev[j]));
            }
        }
    }
}

/// A size in kB read from text: the number it writes, or 0 when it writes none.
pub open spec fn kb_of(t: Seq<char>) -> nat {
    match parse_unsigned(t, u64::MAX as nat) {
        Some(n) => n,
        None => 0,
    }
}

/// A size in kB shown in whole MB.
pub open spec fn mb_text(kb: nat) -> Seq<char> {
    decimal(kb / 1024) + " MB"@
}

pub open spec fn swap_total_kb(meminfo: Seq<char>) -> nat {
    kb_of(tagged_field(lines(meminfo), "SwapTotal:"@, "0 kB"@))
}

pub open spec fn swap_free_kb(meminfo: Seq<char>) -> nat {
    kb_of(tagged_field(lines(meminfo), "SwapFree:"@, "0 kB"@))
}

/// What the storage page shows of swap, from the text of `/proc/meminfo` and
/// of `/proc/sys/vm/swappiness`: used swap is total less free, and none when
/// free exceeds total.
pub open spec fn swap_view(meminfo: Seq<char>, swappiness: Seq<char>) -> SwapView {
    let total = swap_total_kb(meminfo);
    let free = swap_free_kb(meminfo);
    let used: nat = if total >= free {
        (total - free) as nat
    } else {
        0
    };
    SwapView {
        total: mb_text(total),
        used: mb_text(used),
        free: mb_text(free),
        swappiness: trimmed(swappiness),
    }
}

fn tagged_field_of(ls: &Vec<Vec<char>>, tag: &Vec<char>, default: &Vec<char>) -> (out: Vec<char>)
    ensures
        out@ == tagged_field(views(ls@), tag@, default@),
{
    let mut val = default.clone();
    let mut i: usize = 0;
    proof {
        assert(views(ls@).take(0) =~= Seq::<Seq<char>>::empty());
    }
    while i < ls.len()
        invariant
            i <= ls.len(),
            val@ == tagged_field(views(ls@).take(i as int), tag@, default@),
        decreases ls.len() - i,
    {
        proof {
            assert(views(ls@).take(i + 1).drop_last() =~= views(ls@).take(i as int));
            assert(views(ls@).take(i + 1).last() == ls@[i as int]@);
        }
        if starts_with(&ls[i], tag) {
            let w = split_words(&ls[i]);
            if w.len() > 1 {
                val = w[1].clone();
                proof {
                    assert(views(w@)[1] == w@[1]@);
                }
            } else {
                val = chars_of("0");
            }
        }
        i += 1;
    }
    proof {
        assert(views(ls@).take(ls.len() as int) =~= views(ls@));
    }
    val
}

fn kb_of_chars(t: &Vec<char>) -> (n: u64)
    ensures
        n as nat == kb_of(t@),
{
    match parse_u64(t) {
        Some(n) => n,
        None => 0,
    }
}

fn mb_string(kb: u64) -> (s: String)
    ensures
        s@ == mb_text(kb as nat),
{
    text_of(&concat_chars(&decimal_chars(kb / 1024), &chars_of(" MB")))
}

/// Swap sizes and swappiness, from the text of `/proc/meminfo` and of
/// `/proc/sys/vm/swappiness` (empty when a file could not be read).
pub fn get_swap_info(meminfo: &str, swappiness: &str) -> (info: SwapInfo)
    ensures
        info@ == swap_view(meminfo@, swappiness@),
{
    let text = chars_of(meminfo);
    let ls = split_lines(&text);
    let default = chars_of("0 kB");
    let total_text = tagged_field_of(&ls, &chars_of("SwapTotal:"), &default);
    let free_text = tagged_field_of(&ls, &chars_of("SwapFree:"), &default);
    let total_kb = kb_of_chars(&total_text);
    let free_kb = kb_of_chars(&free_text);
    let used_kb = total_kb.saturating_sub(free_kb);
    SwapInfo {
        total: mb_string(total_kb),
        used: mb_string(used_kb),
        free: mb_string(free_kb),
        swappiness: trim(swappiness),
    }
}

/// The ZRAM device, as `zramctl` describes it.
#[derive(Debug, Clone)]
pub struct ZramInfo {
    pub available: bool,
    pub size: String,
    pub algorithm: String,
}

pub struct ZramView {
    pub available: bool,
    pub size: Seq<char>,
    pub algorithm: Seq<char>,
}

impl View for ZramInfo {
    type V = ZramView;

    open spec fn view(&self) -> ZramView {
        ZramView { available: self.available, size: self.size@, algorithm: self.algorithm@ }
    }
}

/// What `zramctl` reports: when it ran with success and its second line has
/// at least four words, the device is there, with the third word as size and
/// the fourth as compression algorithm; else there is none, shown as `N/A`.
pub open spec fn zram_view(success: bool, stdout: Seq<char>) -> ZramView {
    let ls = lines(stdout);
    if success && ls.len() > 1 && words(ls[1]).len() >= 4 {
        ZramView { available: true, size: words(ls[1])[2], algorithm: words(ls[1])[3] }
    } else {
        ZramView { available: false, size: "N/A"@, algorithm: "N/A"@ }
    }
}

fn no_zram() -> (z: ZramInfo)
    ensures
        z@ == (ZramView { available: false, size: "N/A"@, algorithm: "N/A"@ }),
{
    ZramInfo { available: false, size: "N/A".to_owned(), algorithm: "N/A".to_owned() }
}

/// The ZRAM device, from how `zramctl` ended and what it wrote (`success` is
/// false when it could not be run).
pub fn get_zram_info(success: bool, stdout: &str) -> (z: ZramInfo)
    ensures
        z@ == zram_view(success, stdout@),
{
    if !success {
        return no_zram();
    }
    let ls = split_lines(&chars_of(stdout));
    if ls.len() > 1 {
        let parts = split_words(&ls[1]);
        proof {
            assert(views(ls@)[1] == ls@[1]@);
        }
        if parts.len() >= 4 {
            proof {
                assert(views(parts@)[2] == parts@[2]@);
                assert(views(parts@)[3] == parts@[3]@);
            }
            return ZramInfo {
                available: true,
                size: text_of(&parts[2]),
                algorithm: text_of(&parts[3]),
            };
        }
    }
    no_zram()
}

/// A block device, as one line of `lsblk` describes it.
#[derive(Debug, Clone)]
pub struct DiskInfo {
    pub device: String,
    pub mount: String,
    pub fs_type: String,
    pub size: String,
    pub is_ssd: bool,
    pub scheduler: String,
}

pub struct DiskView {
    pub device: Seq<char>,
    pub mount: Seq<char>,
    pub fs_type: Seq<char>,
    pub size: Seq<char>,
    pub is_ssd: bool,
    pub scheduler: Seq<char>,
}

impl View for DiskInfo {
    type V = DiskView;

    open spec fn view(&self) -> DiskView {
        DiskView {
            device: self.device@,
            mount: self.mount@,
            fs_type: self.fs_type@,
            size: self.size@,
            is_ssd: self.is_ssd,
            scheduler: self.scheduler@,
        }
    }
}

/// The disk that a line of `lsblk -o NAME,MOUNTPOINT,FSTYPE,SIZE,ROTA,_SCHED` describes.
pub open spec fn disk_of_line(line: Seq<char>) -> Option<DiskView> {
    disk_of_line_words(words(line))
}

pub open spec fn disk_parser() -> spec_fn(Seq<char>) -> Option<DiskView> {
    |line: Seq<char>| disk_of_line(line)
}

/// The disks that `lsblk` lists: one for each line after the header that
/// describes one; none when it did not run with success.
pub open spec fn disks_view(success: bool, stdout: Seq<char>) -> Seq<DiskView> {
    let ls = lines(stdout);
    if success && ls.len() > 0 {
        ls.skip(1).filter_map(disk_parser())
    } else {
        Seq::empty()
    }
}

pub open spec fn disk_views(v: Seq<DiskInfo>) -> Seq<DiskView> {
    v.map_values(|d: DiskInfo| d@)
}

fn disk_from_words(w: &Vec<Vec<char>>) -> (d: DiskInfo)
    requires
        w.len() >= 5,
    ensures
        Some(d@) == disk_of_line_words(views(w@)),
{
    let zero = chars_of("0");
    let scheduler = if w.len() > 5 {
        text_of(&w[5])
    } else {
        String::new()
    };
    let d = DiskInfo {
        device: text_of(&concat_chars(&chars_of("/dev/"), &w[0])),
        mount: text_of(&w[1]),
        fs_type: text_of(&w[2]),
        size: text_of(&w[3]),
        is_ssd: crate::text::chars_equal(&w[4], &zero),
        scheduler,
    };
    proof {
        let v = views(w@);
        assert(v[0] == w@[0]@ && v[1] == w@[1]@ && v[2] == w@[2]@ && v[3] == w@[3]@ && v[4] == w@[4]@);
        if w.len() > 5 {
            assert(v[5] == w@[5]@);
        }
        assert(d@.scheduler =~= disk_of_line_words(v).unwrap().scheduler);
    }
    d
}

/// The disk that the words of a line of `lsblk` describe, when there are at
/// least five: the device path is `/dev/` and the name, the next three words
/// are mount point, file system and size, a rotation flag of `0` marks a
/// solid-state disk, and the sixth word, if any, is the scheduler.
pub open spec fn disk_of_line_words(w: Seq<Seq<char>>) -> Option<DiskView> {
    if w.len() >= 5 {
        Some(
            DiskView {
                device: "/dev/"@ + w[0],
                mount: w[1],
                fs_type: w[2],
                size: w[3],
                is_ssd: w[4] == "0"@,
                scheduler: if w.len() > 5 {
                    w[5]
                } else {
                    Seq::empty()
                },
            },
        )
    } else {
        None
    }
}

/// `d` is the disk that a line with words `w` describes: `/dev/` and the
/// name, then mount point, file system and size, solid-state when the
/// rotation flag is `0`, and the sixth word (if any) as scheduler.
pub open spec fn disk_fields(d: DiskView, w: Seq<Seq<char>>) -> bool {
    &&& d.device == "/dev/"@ + w[0]
    &&& d.mount == w[1]
    &&& d.fs_type == w[2]
    &&& d.size == w[3]
    &&& d.is_ssd == (w[4] == "0"@)
    &&& d.scheduler == if w.len() > 5 {
        w[5]
    } else {
        Seq::<char>::empty()
    }
}

proof fn disk_source(t: Seq<Seq<char>>, i: int) -> (k: int)
    requires
        0 <= i < t.filter_map(disk_parser()).len(),
    ensures
        0 <= k < t.len(),
        words(t[k]).len() >= 5,
        disk_fields(t.filter_map(disk_parser())[i], words(t[k])),
    decreases t.len(),
{
    let prev = t.drop_last();
    let pf = prev.filter_map(disk_parser());
    if i < pf.len() {
        let k = disk_source(prev, i);
        assert(prev[k] == t[k]);
        k
    } else {
        let n = t.len() - 1;
        assert(disk_of_line(t[n]) is Some);
        n
    }
}

proof fn disk_position(t: Seq<Seq<char>>, k: int) -> (i: int)
    requires
        0 <= k < t.len(),
        words(t[k]).len() >= 5,
    ensures
        0 <= i < t.filter_map(disk_parser()).len(),
        disk_fields(t.filter_map(disk_parser())[i], words(t[k])),
    decreases t.len(),
{
    let prev = t.drop_last();
    let pf = prev.filter_map(disk_parser());
    let n = t.len() - 1;
    if k < n {
        assert(prev[k] == t[k]);
        let i = disk_position(prev, k);
        if disk_of_line(t[n]) is Some {
            assert(t.filter_map(disk_parser())[i] == pf[i]);
        }
        i
    } else {
        pf.len() as int
    }
}

/// Line `j` of `lsblk`'s output is a data line (after the header) with at
/// least five words, and describes disk `d`.
pub open spec fn from_data_line(stdout: Seq<char>, d: DiskView, j: int) -> bool {
    &&& 1 <= j < lines(stdout).len()
    &&& words(lines(stdout)[j]).len() >= 5
    &&& disk_fields(d, words(lines(stdout)[j]))
}

/// Some data line of `lsblk`'s output describes disk `d`.
pub open spec fn has_source_line(stdout: Seq<char>, d: DiskView) -> bool {
    exists|j: int| #[trigger] from_data_line(stdout, d, j)
}

/// Every line after the header of `lsblk`'s output that has at least five
/// words (the first data line included) gives a listed disk with its fields,
/// and every listed disk comes from such a line.
pub proof fn law_disks_from_data_lines(stdout: Seq<char>)
    ensures
        forall|j: int|
            1 <= j < lines(stdout).len() && words(#[trigger] lines(stdout)[j]).len() >= 5 ==> exists|i: int|
                0 <= i < disks_view(true, stdout).len() && disk_fields(
                    disks_view(true, stdout)[i],
                    words(lines(stdout)[j]),
                ),
        forall|i: int|
            0 <= i < disks_view(true, stdout).len() ==> has_source_line(
                stdout,
                #[trigger] disks_view(true, stdout)[i],
            ),
        disks_view(false, stdout).len() == 0,
{
    let ls = lines(stdout);
    if ls.len() > 0 {
        let t = ls.skip(1);
        assert(disks_view(true, stdout) == t.filter_map(disk_parser()));
        assert forall|j: int| 1 <= j < ls.len() && words(#[trigger] ls[j]).len() >= 5 implies exists|i: int|
            0 <= i < disks_view(true, stdout).len() && disk_fields(disks_view(true, stdout)[i], words(ls[j])) by {
            assert(t[j - 1] == ls[j]);
            let i = disk_position(t, j - 1);
        }
        assert forall|i: int| 0 <= i < disks_view(true, stdout).len() implies has_source_line(
            stdout,
            #[trigger] disks_view(true, stdout)[i],
        ) by {
            let k = disk_source(t, i);
            assert(t[k] == ls[k + 1]);
            assert(from_data_line(stdout, disks_view(true, stdout)[i], k + 1));
        }
    } else {
        assert(disks_view(true, stdout) =~= Seq::<DiskView>::empty());
    }
}

/// The disks, from how `lsblk` ended and what it wrote (`success` is false
/// when it could not be run).
pub fn get_disks(success: bool, stdout: &str) -> (disks: Vec<DiskInfo>)
    ensures
        disk_views(disks@) == disks_view(success, stdout@),
        !success ==> disks.len() == 0,
        success ==> forall|j: int|
            1 <= j < lines(stdout@).len() && words(#[trigger] lines(stdout@)[j]).len() >= 5 ==> exists|i: int|
                0 <= i < disks.len() && disk_fields(disks@[i]@, words(lines(stdout@)[j])),
        forall|i: int| 0 <= i < disks.len() ==> has_source_line(stdout@, #[trigger] disks@[i]@),
{
    let out = get_disks_listed(success, stdout);
    proof {
        law_disks_from_data_lines(stdout@);
        let dv = disk_views(out@);
        assert forall|i: int| 0 <= i < out.len() implies #[trigger] out@[i]@ == dv[i] by {}
        if success {
            assert forall|j: int|
                1 <= j < lines(stdout@).len() && words(#[trigger] lines(stdout@)[j]).len() >= 5 implies exists|i: int|
                    0 <= i < out.len() && disk_fields(out@[i]@, words(lines(stdout@)[j])) by {
                let i = choose|i: int|
                    0 <= i < dv.len() && disk_fields(dv[i], words(lines(stdout@)[j]));
                assert(out@[i]@ == dv[i]);
            }
        }
        assert forall|i: int| 0 <= i < out.len() implies has_source_line(stdout@, #[trigger] out@[i]@) by {
            assert(out@[i]@ == dv[i]);
            if !success {
                assert(dv.len() == 0);
            }
            assert(has_source_line(stdout@, disks_view(true, stdout@)[i]));
        }
    }
    out
}

fn get_disks_listed(success: bool, stdout: &str) -> (disks: Vec<DiskInfo>)
    ensures
        disk_views(disks@) == disks_view(success, stdout@),
{
    let mut disks: Vec<DiskInfo> = Vec::new();
    if !success {
        return disks;
    }
    let ls = split_lines(&chars_of(stdout));
    if ls.len() == 0 {
        return disks;
    }
    let ghost rest = views(ls@).skip(1);
    let mut i: usize = 1;
    proof {
        assert(rest.take(0) =~= Seq::<Seq<char>>::empty());
    }
    while i < ls.len()
        invariant
            1 <= i <= ls.len(),
            rest == views(ls@).skip(1),
            disk_views(disks@) == rest.take(i - 1).filter_map(disk_parser()),
        decreases ls.len() - i,
    {
        let ghost before = disks@;
        let ghost line = ls@[i as int]@;
        proof {
            assert(rest[i - 1] == line);
            rest.lemma_filter_map_take_succ(disk_parser(), i - 1);
        }
        let w = split_words(&ls[i]);
        if w.len() >= 5 {
            let d = disk_from_words(&w);
            disks.push(d);
            proof {
                assert(disk_views(disks@) =~= disk_views(before) + seq![d@]);
            }
        }
        i += 1;
    }
    proof {
        assert(rest.take(ls.len() - 1) =~= rest);
    }
    disks
}

proof fn lemma_filter_map_devices(ls: Seq<Seq<char>>)
    ensures
        forall|j: int|
            0 <= j < ls.filter_map(disk_parser()).len() ==> "/dev/"@.is_prefix_of(
                #[trigger] ls.filter_map(disk_parser())[j].device,
            ),
    decreases ls.len(),
{
    if ls.len() > 0 {
        lemma_filter_map_devices(ls.drop_last());
        let prev = ls.drop_last().filter_map(disk_parser());
        let cur = ls.filter_map(disk_parser());
        assert forall|j: int| 0 <= j < cur.len() implies "/dev/"@.is_prefix_of(#[trigger] cur[j].device) by {
            if j < prev.len() {
                assert(cur[j] == prev[j]);
            } else {
                let d = disk_of_line(ls.last()).unwrap();
                assert(cur[j] == d);
                let w = words(ls.last());
                assert(d.device == "/dev/"@ + w[0]);
                assert(d.device.subrange(0, "/dev/"@.len() as int) =~= "/dev/"@);
            }
        }
    }
}

/// Every listed disk has a device path under `/dev/`.
pub proof fn law_disks_under_dev(success: bool, stdout: Seq<char>)
    ensures
        forall|j: int|
            0 <= j < disks_view(success, stdout).len() ==> "/dev/"@.is_prefix_of(
                #[trigger] disks_view(success, stdout)[j].device,
            ),
{
    let ls = lines(stdout);
    if success && ls.len() > 0 {
        lemma_filter_map_devices(ls.skip(1));
    }
}

/// Where the kernel exposes the I/O scheduler of a block device: the device
/// name, without any leading `/dev/`, under `/sys/block`.
pub open spec fn scheduler_path(device: Seq<char>) -> Seq<char> {
    "/sys/block/"@ + strip_prefixes(device, "/dev/"@) + "/queue/scheduler"@
}

pub fn io_scheduler_path(device: &str) -> (p: String)
    ensures
        p@ == scheduler_path(device@),
{
    let name = trim_start_matches(&chars_of(device), &chars_of("/dev/"));
    let p = concat_chars(&concat_chars(&chars_of("/sys/block/"), &name), &chars_of("/queue/scheduler"));
    text_of(&p)
}

/// The shell command that sets the I/O scheduler of a device.
pub fn set_io_scheduler_command(device: &str, scheduler: &str) -> (cmd: String)
    ensures
        cmd@ == "echo "@ + scheduler@ + " > "@ + scheduler_path(device@),
{
    let path = chars_of(io_scheduler_path(device).as_str());
    let c = concat_chars(&concat_chars(&concat_chars(&chars_of("echo "), &chars_of(scheduler)), &chars_of(" > ")), &path);
    text_of(&c)
}

/// The argument `sysctl -w` takes to set the swappiness.
pub fn swappiness_assignment(value: u32) -> (arg: String)
    ensures
        arg@ == "vm.swappiness="@ + decimal(value as nat),
{
    text_of(&concat_chars(&chars_of("vm.swappiness="), &decimal_chars(value as u64)))
}

} // verus!
