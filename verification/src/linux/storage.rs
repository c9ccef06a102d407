//! Block device and filesystem points.

use super::parse::{block_of, entry_view, parse_block, BlockCounters};
use super::points::{change, counter, flag, flag_of, gauge, reading};
use crate::arith::{minus, multiply, subtract, times};
use crate::catalogue::is_metric;
use crate::rows::{flat, gathered, lemma_flat, lemma_gathered};
use crate::schema::{emit, views, MetricPoint, Number, Point, Quality, Value};
use crate::table::{items_of, Table};
use crate::text::{
    fields, fields_of, has_prefix, lines, lines_of, optional, replace, replace_of, same, split_text,
    split_text_of, starts_with, texts,
};
use vstd::prelude::*;

verus! {

// --------------------------------------------------------------------------
// Block devices
// --------------------------------------------------------------------------

/// A directory entry of `/sys/block`.
pub struct BlockEntry {
    /// The name of the entry.
    pub name: String,
    /// The content of its `stat` file.
    pub stat: Option<String>,
}

/// Loop and memory devices are not reported.
pub open spec fn is_virtual_device(name: Seq<char>) -> bool {
    has_prefix(name, "loop"@) || has_prefix(name, "ram"@)
}

/// The counters of a reported device, if it has any.
pub open spec fn entry_counters(e: BlockEntry) -> Option<BlockCounters> {
    if is_virtual_device(e.name@) {
        None
    } else {
        match e.stat {
            Some(raw) => block_of(raw@),
            None => None,
        }
    }
}

/// A counter of a device in one direction.
pub open spec fn device_change(
    device: Seq<char>,
    name: Seq<char>,
    direction: Seq<char>,
    unit: Seq<char>,
    value: u64,
    earlier: Option<u64>,
) -> Point<Number> {
    change(name, unit, "sysfs"@, value, earlier).with("device"@, device).with(
        "direction"@,
        direction,
    )
}

/// The changes of the counters of a device. A sector has 512 bytes.
pub open spec fn device_points(
    device: Seq<char>,
    now: BlockCounters,
    then: Option<BlockCounters>,
) -> Seq<Point<Number>> {
    let d = device;
    let earlier = |f: spec_fn(BlockCounters) -> u64|
        match then {
            Some(c) => Some(f(c)),
            None => None,
        };
    seq![
        device_change(
            d,
            "system.disk.io"@,
            "read"@,
            "By"@,
            times(now.sectors_read, 512),
            earlier(|c: BlockCounters| times(c.sectors_read, 512)),
        ),
        device_change(
            d,
            "system.disk.io"@,
            "write"@,
            "By"@,
            times(now.sectors_written, 512),
            earlier(|c: BlockCounters| times(c.sectors_written, 512)),
        ),
        device_change(
            d,
            "system.disk.operation.count"@,
            "read"@,
            "{operation}"@,
            now.reads,
            earlier(|c: BlockCounters| c.reads),
        ),
        device_change(
            d,
            "system.disk.operation.count"@,
            "write"@,
            "{operation}"@,
            now.writes,
            earlier(|c: BlockCounters| c.writes),
        ),
        device_change(
            d,
            "system.disk.operation_time"@,
            "read"@,
            "ms"@,
            now.read_ms,
            earlier(|c: BlockCounters| c.read_ms),
        ),
        device_change(
            d,
            "system.disk.operation_time"@,
            "write"@,
            "ms"@,
            now.write_ms,
            earlier(|c: BlockCounters| c.write_ms),
        ),
        device_change(
            d,
            "system.disk.operation_time"@,
            "busy"@,
            "ms"@,
            now.busy_ms,
            earlier(|c: BlockCounters| c.busy_ms),
        ),
        device_change(
            d,
            "system.disk.queue_time"@,
            "weighted"@,
            "ms"@,
            now.queue_ms,
            earlier(|c: BlockCounters| c.queue_ms),
        ),
    ]
}

/// The points of one directory entry.
pub open spec fn block_entry_points(e: BlockEntry, earlier: Map<Seq<char>, BlockCounters>) -> Seq<
    Point<Number>,
> {
    match entry_counters(e) {
        Some(c) => device_points(
            e.name@,
            c,
            if earlier.contains_key(e.name@) {
                Some(earlier[e.name@])
            } else {
                None
            },
        ),
        None => seq![],
    }
}

pub open spec fn each_block_entry(earlier: Map<Seq<char>, BlockCounters>) -> spec_fn(
    BlockEntry,
) -> Seq<Point<Number>> {
    |e: BlockEntry| block_entry_points(e, earlier)
}

/// The counters of all devices.
pub open spec fn block_now(entries: Seq<BlockEntry>) -> Map<Seq<char>, BlockCounters>
    decreases entries.len(),
{
    if entries.len() == 0 {
        Map::empty()
    } else {
        let e = entries.last();
        match entry_counters(e) {
            Some(c) => block_now(entries.drop_last()).insert(e.name@, c),
            None => block_now(entries.drop_last()),
        }
    }
}

/// The points of all devices, in the order of the directory.
pub open spec fn block_points(
    entries: Option<Vec<BlockEntry>>,
    earlier: Map<Seq<char>, BlockCounters>,
) -> Seq<Point<Number>> {
    match entries {
        Some(v) => flat(v@, each_block_entry(earlier)),
        None => seq![],
    }
}

fn device_counter(
    device: &str,
    name: &str,
    direction: &str,
    unit: &str,
    value: u64,
    earlier: Option<u64>,
) -> (r: MetricPoint<Value>)
    requires
        is_metric(name@),
    ensures
        r@ == device_change(device@, name@, direction@, unit@, value, earlier),
{
    counter(name, unit, "sysfs", value, earlier).with_attribute("device", device).with_attribute(
        "direction",
        direction,
    )
}

#[verifier::rlimit(30)]
fn collect_device(
    d: &str,
    now: &BlockCounters,
    then: Option<BlockCounters>,
    points: &mut Vec<MetricPoint<Value>>,
)
    ensures
        views(final(points)@) == views(old(points)@) + device_points(d@, *now, then),
{
    let p = points;
    let io = "system.disk.io";
    let count = "system.disk.operation.count";
    let time = "system.disk.operation_time";
    let queue = "system.disk.queue_time";
    let operation = "{operation}";
    let read = multiply(now.sectors_read, 512);
    let written = multiply(now.sectors_written, 512);
    match then {
        Some(c) => {
            let past = Some(multiply(c.sectors_read, 512));
            emit(p, device_counter(d, io, "read", "By", read, past));
            let past = Some(multiply(c.sectors_written, 512));
            emit(p, device_counter(d, io, "write", "By", written, past));
            emit(p, device_counter(d, count, "read", operation, now.reads, Some(c.reads)));
            emit(p, device_counter(d, count, "write", operation, now.writes, Some(c.writes)));
            emit(p, device_counter(d, time, "read", "ms", now.read_ms, Some(c.read_ms)));
            emit(p, device_counter(d, time, "write", "ms", now.write_ms, Some(c.write_ms)));
            emit(p, device_counter(d, time, "busy", "ms", now.busy_ms, Some(c.busy_ms)));
            emit(p, device_counter(d, queue, "weighted", "ms", now.queue_ms, Some(c.queue_ms)));
        },
        None => {
            emit(p, device_counter(d, io, "read", "By", read, None));
            emit(p, device_counter(d, io, "write", "By", written, None));
            emit(p, device_counter(d, count, "read", operation, now.reads, None));
            emit(p, device_counter(d, count, "write", operation, now.writes, None));
            emit(p, device_counter(d, time, "read", "ms", now.read_ms, None));
            emit(p, device_counter(d, time, "write", "ms", now.write_ms, None));
            emit(p, device_counter(d, time, "busy", "ms", now.busy_ms, None));
            emit(p, device_counter(d, queue, "weighted", "ms", now.queue_ms, None));
        },
    }
}

/// Whether a device is a loop or memory device.
pub fn virtual_device(name: &str) -> (r: bool)
    ensures
        r == is_virtual_device(name@),
{
    starts_with(name, "loop") || starts_with(name, "ram")
}

/// Adds the points of the block devices and keeps the counters to compare the
/// next ones with. `entries` is absent where the directory cannot be read.
pub fn collect_block(
    earlier: &mut Table<String, BlockCounters>,
    entries: &Option<Vec<BlockEntry>>,
    points: &mut Vec<MetricPoint<Value>>,
)
    ensures
        views(final(points)@) == views(old(points)@) + block_points(*entries, old(earlier)@),
        final(earlier)@ == (match *entries {
            Some(v) => block_now(v@),
            None => old(earlier)@,
        }),
{
    let v = match entries {
        Some(v) => v,
        None => {
            return;
        },
    };
    let mut next: Table<String, BlockCounters> = Table::new();
    let ghost start = views(points@);
    let mut i: usize = 0;
    while i < v.len()
        invariant
            i <= v@.len(),
            views(points@) == start + flat(v@.take(i as int), each_block_entry(earlier@)),
            next@ == block_now(v@.take(i as int)),
        decreases v@.len() - i,
    {
        let ghost before = views(points@);
        proof {
            lemma_flat(v@, i as int, each_block_entry(earlier@));
            assert(v@.take(i + 1).drop_last() =~= v@.take(i as int));
        }
        let e = &v[i];
        if !virtual_device(e.name.as_str()) {
            let counters = match &e.stat {
                Some(raw) => parse_block(raw.as_str()),
                None => None,
            };
            match counters {
                Some(c) => {
                    let then = match earlier.get(&e.name) {
                        Some(past) => Some(*past),
                        None => None,
                    };
                    collect_device(e.name.as_str(), &c, then, points);
                    next.insert(e.name.clone(), c);
                },
                None => {},
            }
        }
        assert(views(points@) =~= before + block_entry_points(v@[i as int], earlier@));
        i += 1;
    }
    assert(v@.take(i as int) =~= v@);
    *earlier = next;
}

// --------------------------------------------------------------------------
// Mounts
// --------------------------------------------------------------------------

/// Filesystems that hold no files of their own.
pub open spec fn is_pseudo(filesystem: Seq<char>) -> bool {
    ||| filesystem == "autofs"@
    ||| filesystem == "bpf"@
    ||| filesystem == "cgroup"@
    ||| filesystem == "cgroup2"@
    ||| filesystem == "configfs"@
    ||| filesystem == "debugfs"@
    ||| filesystem == "devpts"@
    ||| filesystem == "devtmpfs"@
    ||| filesystem == "fusectl"@
    ||| filesystem == "hugetlbfs"@
    ||| filesystem == "mqueue"@
    ||| filesystem == "proc"@
    ||| filesystem == "pstore"@
    ||| filesystem == "securityfs"@
    ||| filesystem == "squashfs"@
    ||| filesystem == "sysfs"@
    ||| filesystem == "tracefs"@
}

/// Filesystems whose fill level matters: those on a device, and those that
/// name their device otherwise.
pub open spec fn matters(filesystem: Seq<char>, device: Seq<char>) -> bool {
    ||| has_prefix(device, "/dev/"@)
    ||| filesystem == "btrfs"@
    ||| filesystem == "cifs"@
    ||| filesystem == "nfs"@
    ||| filesystem == "nfs4"@
    ||| filesystem == "zfs"@
}

/// A field of the mount table with its escapes for space, tab, newline and
/// backslash resolved.
pub open spec fn unescaped(value: Seq<char>) -> Seq<char> {
    replace_of(
        replace_of(
            replace_of(replace_of(value, "\\040"@, " "@), "\\011"@, "\t"@),
            "\\012"@,
            "\n"@,
        ),
        "\\134"@,
        "\\"@,
    )
}

/// The mount point of one line of the mount table, with its filesystem and its
/// device.
pub open spec fn mount_entry(line: Seq<char>) -> Option<(Seq<char>, (Seq<char>, Seq<char>))> {
    match split_text_of(line, " - "@) {
        None => None,
        Some((left, right)) => {
            let f = fields_of(left);
            let g = fields_of(right);
            if f.len() > 4 && g.len() > 1 && !is_pseudo(g[0]) && matters(g[0], g[1]) {
                Some((unescaped(f[4]), (g[0], unescaped(g[1]))))
            } else {
                None
            }
        },
    }
}

pub open spec fn mount_entries() -> spec_fn(Seq<char>) -> Option<
    (Seq<char>, (Seq<char>, Seq<char>)),
> {
    |line: Seq<char>| mount_entry(line)
}

/// A mount point, its filesystem and its device, from an entry of a map.
pub open spec fn mount_of(e: (Seq<char>, (Seq<char>, Seq<char>))) -> (
    Seq<char>,
    Seq<char>,
    Seq<char>,
) {
    let (mountpoint, (filesystem, device)) = e;
    (mountpoint, filesystem, device)
}

pub open spec fn mount_map(raw: Seq<char>) -> Map<Seq<char>, (Seq<char>, Seq<char>)> {
    gathered(lines_of(raw), mount_entries())
}

/// The mounts that a mount table lists, in the order of their mount points; of
/// several on one mount point the last one counts.
pub open spec fn mounts_of(raw: Seq<char>) -> Seq<(Seq<char>, Seq<char>, Seq<char>)> {
    items_of::<String, (Seq<char>, Seq<char>)>(mount_map(raw)).map_values(
        |e: (Seq<char>, (Seq<char>, Seq<char>))| mount_of(e),
    )
}

/// The content of a mount.
pub open spec fn mount_view(m: (String, String, String)) -> (Seq<char>, Seq<char>, Seq<char>) {
    (m.0@, m.1@, m.2@)
}

/// The contents of a list of mounts.
pub open spec fn mount_views(v: Seq<(String, String, String)>) -> Seq<
    (Seq<char>, Seq<char>, Seq<char>),
> {
    v.map_values(|m: (String, String, String)| mount_view(m))
}

/// Whether a filesystem holds no files of its own.
pub fn is_pseudo_filesystem(filesystem: &str) -> (r: bool)
    ensures
        r == is_pseudo(filesystem@),
{
    same(filesystem, "autofs") || same(filesystem, "bpf") || same(filesystem, "cgroup") || same(
        filesystem,
        "cgroup2",
    ) || same(filesystem, "configfs") || same(filesystem, "debugfs") || same(filesystem, "devpts")
        || same(filesystem, "devtmpfs") || same(filesystem, "fusectl") || same(
        filesystem,
        "hugetlbfs",
    ) || same(filesystem, "mqueue") || same(filesystem, "proc") || same(filesystem, "pstore")
        || same(filesystem, "securityfs") || same(filesystem, "squashfs") || same(
        filesystem,
        "sysfs",
    ) || same(filesystem, "tracefs")
}

/// Whether the fill level of a filesystem matters.
pub fn is_health_filesystem(filesystem: &str, device: &str) -> (r: bool)
    ensures
        r == matters(filesystem@, device@),
{
    starts_with(device, "/dev/") || same(filesystem, "btrfs") || same(filesystem, "cifs") || same(
        filesystem,
        "nfs",
    ) || same(filesystem, "nfs4") || same(filesystem, "zfs")
}

/// Resolves the escapes in a field of the mount table.
pub fn decode_mount_field(value: &str) -> (r: String)
    ensures
        r@ == unescaped(value@),
{
    proof {
        reveal_strlit("\\040");
        reveal_strlit("\\011");
        reveal_strlit("\\012");
        reveal_strlit("\\134");
    }
    let a = replace(value, "\\040", " ");
    let b = replace(a.as_str(), "\\011", "\t");
    let c = replace(b.as_str(), "\\012", "\n");
    replace(c.as_str(), "\\134", "\\")
}

fn mount_line(line: &str) -> (r: Option<(String, (String, String))>)
    ensures
        entry_view(r) == mount_entry(line@),
{
    match split_text(line, " - ") {
        None => None,
        Some((left, right)) => {
            let f = fields(left.as_str());
            let g = fields(right.as_str());
            if f.len() <= 4 || g.len() <= 1 {
                return None;
            }
            assert(texts(f@)[4] == f@[4]@);
            assert(texts(g@)[0] == g@[0]@);
            assert(texts(g@)[1] == g@[1]@);
            if is_pseudo_filesystem(g[0].as_str()) || !is_health_filesystem(
                g[0].as_str(),
                g[1].as_str(),
            ) {
                return None;
            }
            Some(
                (
                    decode_mount_field(f[4].as_str()),
                    (g[0].clone(), decode_mount_field(g[1].as_str())),
                ),
            )
        },
    }
}

/// Parses the mounts of `/proc/self/mountinfo` whose fill level matters: each
/// with its mount point, filesystem and device.
pub fn parse_mountinfo(raw: &str) -> (r: Vec<(String, String, String)>)
    ensures
        mount_views(r@) == mounts_of(raw@),
{
    let rows = lines(raw);
    let ghost all = texts(rows@);
    let mut mounts: Table<String, (String, String)> = Table::new();
    let mut i: usize = 0;
    while i < rows.len()
        invariant
            i <= rows@.len(),
            all == texts(rows@),
            mounts@ == gathered(all.take(i as int), mount_entries()),
        decreases rows@.len() - i,
    {
        proof {
            lemma_gathered(all, i as int, mount_entries());
        }
        match mount_line(rows[i].as_str()) {
            Some((key, value)) => {
                mounts.insert(key, value);
            },
            None => {},
        }
        i += 1;
    }
    assert(all.take(i as int) =~= all);
    let ghost items = items_of::<String, (Seq<char>, Seq<char>)>(mounts@);
    let n: usize = mounts.len();
    let mut out: Vec<(String, String, String)> = Vec::new();
    let mut k: usize = 0;
    while k < n
        invariant
            k <= n == items.len(),
            items == items_of::<String, (Seq<char>, Seq<char>)>(mounts@),
            out@.len() == k,
            forall|j: int| 0 <= j < k ==> mount_view(#[trigger] out@[j]) == mount_of(items[j]),
        decreases n - k,
    {
        let mountpoint = mounts.key_at(k);
        let rest = mounts.value_at(k);
        out.push((mountpoint.clone(), rest.0.clone(), rest.1.clone()));
        k += 1;
    }
    assert(mount_views(out@) =~= mounts_of(raw@));
    out
}

/// The mounts to look at: those of the mount table, or the root alone where
/// that cannot be read.
pub open spec fn mounts_to_measure(raw: Option<Seq<char>>) -> Seq<
    (Seq<char>, Seq<char>, Seq<char>),
> {
    match raw {
        Some(s) => mounts_of(s),
        None => seq![("/"@, "unknown"@, "unknown"@)],
    }
}

/// The mounts to look at: those of the mount table, or the root alone where
/// that cannot be read.
pub fn mounts(raw: &Option<String>) -> (r: Vec<(String, String, String)>)
    ensures
        mount_views(r@) == mounts_to_measure(optional(*raw)),
{
    match raw {
        Some(s) => parse_mountinfo(s.as_str()),
        None => {
            let mut out: Vec<(String, String, String)> = Vec::new();
            out.push(("/".to_owned(), "unknown".to_owned(), "unknown".to_owned()));
            assert(mount_views(out@) =~= mounts_to_measure(None));
            out
        },
    }
}

// --------------------------------------------------------------------------
// Filesystems
// --------------------------------------------------------------------------

/// What the system reports of a mounted filesystem.
#[derive(Debug, Clone, Copy, PartialEq, Eq, Structural)]
pub struct FilesystemStatistics {
    pub fragment_size: u64,
    pub blocks: u64,
    pub blocks_available: u64,
    pub blocks_free: u64,
    pub files: u64,
    pub files_free: u64,
    pub read_only: bool,
}

impl View for FilesystemStatistics {
    type V = FilesystemStatistics;

    open spec fn view(&self) -> FilesystemStatistics {
        *self
    }
}

/// A point of a mounted filesystem.
pub open spec fn mounted(point: Point<Number>, m: (Seq<char>, Seq<char>, Seq<char>)) -> Point<
    Number,
> {
    point.with("mountpoint"@, m.0).with("filesystem.type"@, m.1).with("filesystem.device"@, m.2)
}

/// A point of a mounted filesystem for one state of its space or inodes.
pub open spec fn state_point(
    m: (Seq<char>, Seq<char>, Seq<char>),
    name: Seq<char>,
    state: Seq<char>,
    value: u64,
    unit: Seq<char>,
    quality: Quality,
) -> Point<Number> {
    mounted(reading(name, Number::Count(value), unit, quality).with("state"@, state), m)
}

/// The points of a mounted filesystem.
pub open spec fn filesystem_points(
    m: (Seq<char>, Seq<char>, Seq<char>),
    s: FilesystemStatistics,
) -> Seq<Point<Number>> {
    let total = times(s.blocks, s.fragment_size);
    let used = minus(total, times(s.blocks_free, s.fragment_size));
    let available = times(s.blocks_available, s.fragment_size);
    let usage = "system.filesystem.usage"@;
    let inodes = "system.filesystem.inodes"@;
    seq![
        mounted(
            reading(
                "system.filesystem.limit"@,
                Number::Count(total),
                "By"@,
                Quality::Measured,
            ),
            m,
        ),
        state_point(m, usage, "used"@, used, "By"@, Quality::Derived),
        state_point(m, usage, "available"@, available, "By"@, Quality::Measured),
        state_point(m, inodes, "total"@, s.files, "{inode}"@, Quality::Measured),
        state_point(
            m,
            inodes,
            "used"@,
            minus(s.files, s.files_free),
            "{inode}"@,
            Quality::Derived,
        ),
        state_point(m, inodes, "available"@, s.files_free, "{inode}"@, Quality::Measured),
        mounted(
            reading(
                "system.filesystem.read_only"@,
                flag_of(s.read_only),
                "1"@,
                Quality::Measured,
            ),
            m,
        ),
    ]
}

/// The points of one mount, none where the system reports nothing of it.
pub open spec fn mount_points(
    m: (Seq<char>, Seq<char>, Seq<char>),
    statistics: Map<Seq<char>, FilesystemStatistics>,
) -> Seq<Point<Number>> {
    if statistics.contains_key(m.0) {
        filesystem_points(m, statistics[m.0])
    } else {
        seq![]
    }
}

pub open spec fn each_mount(statistics: Map<Seq<char>, FilesystemStatistics>) -> spec_fn(
    (Seq<char>, Seq<char>, Seq<char>),
) -> Seq<Point<Number>> {
    |m: (Seq<char>, Seq<char>, Seq<char>)| mount_points(m, statistics)
}

fn attach(
    point: MetricPoint<Value>,
    mountpoint: &str,
    filesystem: &str,
    device: &str,
) -> (r: MetricPoint<Value>)
    ensures
        r@ == mounted(point@, (mountpoint@, filesystem@, device@)),
{
    point.with_attribute("mountpoint", mountpoint).with_attribute(
        "filesystem.type",
        filesystem,
    ).with_attribute("filesystem.device", device)
}

/// Adds the points of one mounted filesystem.
#[verifier::rlimit(30)]
pub fn collect_one_filesystem(
    points: &mut Vec<MetricPoint<Value>>,
    mountpoint: &str,
    filesystem: &str,
    device: &str,
    stats: &FilesystemStatistics,
)
    ensures
        views(final(points)@) == views(old(points)@) + filesystem_points(
            (mountpoint@, filesystem@, device@),
            *stats,
        ),
{
    let (m, f, d) = (mountpoint, filesystem, device);
    let p = points;
    let total = multiply(stats.blocks, stats.fragment_size);
    let available = multiply(stats.blocks_available, stats.fragment_size);
    let used = subtract(total, multiply(stats.blocks_free, stats.fragment_size));
    let used_files = subtract(stats.files, stats.files_free);
    let usage = "system.filesystem.usage";
    let inodes = "system.filesystem.inodes";
    let limit = gauge("system.filesystem.limit", Value::Count(total), "By", Quality::Measured);
    emit(p, attach(limit, m, f, d));
    let point = gauge(usage, Value::Count(used), "By", Quality::Derived);
    emit(p, attach(point.with_attribute("state", "used"), m, f, d));
    let point = gauge(usage, Value::Count(available), "By", Quality::Measured);
    emit(p, attach(point.with_attribute("state", "available"), m, f, d));
    let point = gauge(inodes, Value::Count(stats.files), "{inode}", Quality::Measured);
    emit(p, attach(point.with_attribute("state", "total"), m, f, d));
    let point = gauge(inodes, Value::Count(used_files), "{inode}", Quality::Derived);
    emit(p, attach(point.with_attribute("state", "used"), m, f, d));
    let point = gauge(inodes, Value::Count(stats.files_free), "{inode}", Quality::Measured);
    emit(p, attach(point.with_attribute("state", "available"), m, f, d));
    let point = gauge(
        "system.filesystem.read_only",
        flag(stats.read_only),
        "1",
        Quality::Measured,
    );
    emit(p, attach(point, m, f, d));
}

/// Adds the points of the mounted filesystems. `mountinfo` is the content of
/// the mount table, `statistics` what the system reports by mount point.
pub fn collect_filesystem(
    mountinfo: &Option<String>,
    statistics: &Table<String, FilesystemStatistics>,
    points: &mut Vec<MetricPoint<Value>>,
)
    ensures
        views(final(points)@) == views(old(points)@) + flat(
            mounts_to_measure(optional(*mountinfo)),
            each_mount(statistics@),
        ),
{
    let all = mounts(mountinfo);
    let ghost start = views(points@);
    let ghost listed = mount_views(all@);
    let mut i: usize = 0;
    while i < all.len()
        invariant
            i <= all@.len(),
            listed == mount_views(all@),
            views(points@) == start + flat(listed.take(i as int), each_mount(statistics@)),
        decreases all@.len() - i,
    {
        let ghost before = views(points@);
        proof {
            lemma_flat(listed, i as int, each_mount(statistics@));
            assert(listed[i as int] == mount_view(all@[i as int]));
        }
        let (mountpoint, filesystem, device) = (&all[i].0, &all[i].1, &all[i].2);
        match statistics.get(mountpoint) {
            Some(stats) => {
                collect_one_filesystem(
                    points,
                    mountpoint.as_str(),
                    filesystem.as_str(),
                    device.as_str(),
                    stats,
                );
            },
            None => {},
        }
        assert(views(points@) =~= before + mount_points(listed[i as int], statistics@));
        i += 1;
    }
    assert(listed.take(i as int) =~= listed);
}

} // verus!
