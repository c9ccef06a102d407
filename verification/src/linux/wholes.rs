//! What the points of a host consist of.

use super::kernel::{
    cpu_entries_points, cpu_entry_points, cpu_points, load_point, meminfo_points, pressure_points,
    uptime_point, vmstat_points, CpuEntry,
};
use super::network::{
    each_interface, interface_points, network_now, network_points, InterfaceFiles,
};
use super::parse::{network_entry, network_of, BlockCounters, NetworkCounters};
use super::storage::{
    block_entry_points, block_points, each_block_entry, each_mount, mount_entries, mount_entry,
    mount_map, mount_of, mount_points, mounts_to_measure, unescaped, BlockEntry,
    FilesystemStatistics,
};
use super::system::{core_points, storage_points, CoreFiles, Counters, StorageFiles};
use super::thermal::{
    channel_of, channel_points, chip_points, each_channel, each_chip, greatest, greatest_in,
    temperature_of, temperature_points, ChannelFile, SensorChip,
};
use super::values::tells;
use crate::rows::{flat, gathered, lemma_flat_members};
use crate::schema::{Number, Point, Quality};
use crate::table::{items_of, lemma_lists, lists};
use crate::text::{has_prefix, lines_of, optional, replace_of, trim_of};
use vstd::prelude::*;

verus! {

/// The points of a host begin with those of its processors and end with those of
/// its temperatures.
pub proof fn law_core_points_are_all_told(files: CoreFiles, earlier: Counters, p: Point<Number>)
    ensures
        core_points(files, earlier).contains(p) <==> cpu_points(
            optional(files.stat),
            earlier.cpu,
        ).contains(p) || p == load_point(optional(files.loadavg)) || (exists|i: int|
            0 <= i < files.cpus@.len() && cpu_entry_points(#[trigger] files.cpus@[i]).contains(p))
            || p == uptime_point(optional(files.uptime)) || meminfo_points(
            optional(files.meminfo),
        ).contains(p) || pressure_points("cpu"@, files.cpu_pressure).contains(p)
            || pressure_points("memory"@, files.memory_pressure).contains(p) || pressure_points(
            "io"@,
            files.io_pressure,
        ).contains(p) || vmstat_points(
            optional(files.vmstat),
            earlier.vmstat,
            files.page_size,
        ).contains(p) || temperature_points(files.chips@).contains(p),
{
    let a = cpu_points(optional(files.stat), earlier.cpu);
    let b = seq![load_point(optional(files.loadavg))];
    let c = flat(files.cpus@, cpu_entries_points());
    let d = seq![uptime_point(optional(files.uptime))];
    let e = meminfo_points(optional(files.meminfo));
    let f = pressure_points("cpu"@, files.cpu_pressure);
    let g = pressure_points("memory"@, files.memory_pressure);
    let h = pressure_points("io"@, files.io_pressure);
    let i = vmstat_points(optional(files.vmstat), earlier.vmstat, files.page_size);
    let j = temperature_points(files.chips@);
    lemma_flat_members(files.cpus@, cpu_entries_points(), p);
    assert forall|k: int| 0 <= k < files.cpus@.len() implies cpu_entries_points()(
        #[trigger] files.cpus@[k],
    ) == cpu_entry_points(files.cpus@[k]) by {}
    lemma_one(load_point(optional(files.loadavg)), p);
    lemma_one(uptime_point(optional(files.uptime)), p);
    lemma_either(a, b, p);
    lemma_either(a + b, c, p);
    lemma_either(a + b + c, d, p);
    lemma_either(a + b + c + d, e, p);
    lemma_either(a + b + c + d + e, f, p);
    lemma_either(a + b + c + d + e + f, g, p);
    lemma_either(a + b + c + d + e + f + g, h, p);
    lemma_either(a + b + c + d + e + f + g + h, i, p);
    lemma_either(a + b + c + d + e + f + g + h + i, j, p);
}

proof fn lemma_one(q: Point<Number>, p: Point<Number>)
    ensures
        seq![q].contains(p) <==> p == q,
{
    assert(seq![q][0] == q);
}

proof fn lemma_either(a: Seq<Point<Number>>, b: Seq<Point<Number>>, p: Point<Number>)
    ensures
        (a + b).contains(p) <==> a.contains(p) || b.contains(p),
{
    if a.contains(p) {
        let j = choose|j: int| 0 <= j < a.len() && a[j] == p;
        assert((a + b)[j] == p);
    }
    if b.contains(p) {
        let j = choose|j: int| 0 <= j < b.len() && b[j] == p;
        assert((a + b)[a.len() + j] == p);
    }
    if (a + b).contains(p) {
        let j = choose|j: int| 0 <= j < (a + b).len() && (a + b)[j] == p;
        if j < a.len() {
            assert(a[j] == p);
        } else {
            assert(b[j - a.len()] == p);
        }
    }
}

/// The points of block devices are those of every entry of their directory, and
/// those of filesystems follow.
pub proof fn law_all_devices_are_told(
    entries: Vec<BlockEntry>,
    earlier: Map<Seq<char>, BlockCounters>,
    p: Point<Number>,
)
    ensures
        block_points(Some(entries), earlier).contains(p) <==> exists|i: int|
            0 <= i < entries@.len() && block_entry_points(
                #[trigger] entries@[i],
                earlier,
            ).contains(p),
        block_points(None, earlier) == Seq::<Point<Number>>::empty(),
{
    let f = each_block_entry(earlier);
    lemma_flat_members(entries@, f, p);
    assert forall|i: int| 0 <= i < entries@.len() implies f(#[trigger] entries@[i])
        == block_entry_points(entries@[i], earlier) by {}
}

/// The storage points are those of the devices and those of every mount that is
/// to be measured.
pub proof fn law_all_storage_is_told(files: StorageFiles, earlier: Counters, p: Point<Number>)
    ensures
        storage_points(files, earlier).contains(p) <==> block_points(
            files.devices,
            earlier.block,
        ).contains(p) || exists|i: int|
            0 <= i < mounts_to_measure(optional(files.mountinfo)).len() && mount_points(
                #[trigger] mounts_to_measure(optional(files.mountinfo))[i],
                files.statistics@,
            ).contains(p),
{
    let ms = mounts_to_measure(optional(files.mountinfo));
    let f = each_mount(files.statistics@);
    lemma_flat_members(ms, f, p);
    assert forall|i: int| 0 <= i < ms.len() implies f(#[trigger] ms[i]) == mount_points(
        ms[i],
        files.statistics@,
    ) by {}
    lemma_either(block_points(files.devices, earlier.block), flat(ms, f), p);
}

/// The mounts to measure are those that the lines of the mount table name, each
/// mount point once; without a table it is the root alone.
pub proof fn law_mounts_are_those_of_the_table(
    raw: Seq<char>,
    listing: Seq<(Seq<char>, (Seq<char>, Seq<char>))>,
    mountpoint: Seq<char>,
    filesystem: Seq<char>,
    device: Seq<char>,
)
    requires
        lists::<String, (Seq<char>, Seq<char>)>(
            listing,
            gathered(lines_of(raw), |line: Seq<char>| mount_entry(line)),
        ),
    ensures
        mounts_to_measure(Some(raw)).contains((mountpoint, filesystem, device)) <==> gathered(
            lines_of(raw),
            |line: Seq<char>| mount_entry(line),
        ).contains_key(mountpoint) && gathered(
            lines_of(raw),
            |line: Seq<char>| mount_entry(line),
        )[mountpoint] == (filesystem, device),
        mounts_to_measure(None) == seq![("/"@, "unknown"@, "unknown"@)],
{
    assert(mount_entries() =~= |line: Seq<char>| mount_entry(line));
    let m = mount_map(raw);
    lemma_lists::<String, (Seq<char>, Seq<char>)>(listing, m);
    let all = mounts_to_measure(Some(raw));
    assert(all.len() == listing.len());
    let wanted = (mountpoint, filesystem, device);
    if all.contains(wanted) {
        let i = choose|i: int| 0 <= i < all.len() && all[i] == wanted;
        assert(all[i] == mount_of(listing[i]));
    }
    if m.contains_key(mountpoint) && m[mountpoint] == (filesystem, device) {
        let i = choose|i: int| 0 <= i < listing.len() && (#[trigger] listing[i]).0 == mountpoint;
        assert(all[i] == mount_of(listing[i]));
        assert(all[i] == wanted);
    }
}

/// The network points are those of every interface that the counters name.
pub proof fn law_all_interfaces_are_told(
    raw: Seq<char>,
    earlier: Map<Seq<char>, NetworkCounters>,
    files: Map<Seq<char>, InterfaceFiles>,
    listing: Seq<(Seq<char>, NetworkCounters)>,
    p: Point<Number>,
)
    requires
        lists::<String, NetworkCounters>(listing, network_of(raw)),
    ensures
        network_points(Some(raw), earlier, files).contains(p) <==> exists|i: int|
            0 <= i < listing.len() && interface_points(
                #[trigger] listing[i],
                earlier,
                files,
            ).contains(p),
        network_points(None, earlier, files) == Seq::<Point<Number>>::empty(),
{
    lemma_lists::<String, NetworkCounters>(listing, network_of(raw));
    let f = each_interface(earlier, files);
    assert(listing == items_of::<String, NetworkCounters>(network_of(raw)));
    lemma_flat_members(listing, f, p);
    assert forall|i: int| 0 <= i < listing.len() implies f(#[trigger] listing[i])
        == interface_points(listing[i], earlier, files) by {}
}

/// Interface counters begin behind the two lines of their heading.
pub proof fn law_headings_are_skipped(
    raw: Seq<char>,
    a: Seq<char>,
    b: Seq<char>,
    rest: Seq<Seq<char>>,
)
    requires
        lines_of(raw) == seq![a, b] + rest,
    ensures
        network_of(raw) == gathered(rest, |line: Seq<char>| network_entry(line)),
{
    assert(lines_of(raw).skip(2) =~= rest);
    assert(super::parse::network_entries() =~= |line: Seq<char>| network_entry(line));
}

/// The counters of each interface are kept with its own carrier changes.
pub proof fn law_interface_counters_are_kept(
    raw: Seq<char>,
    files: Map<Seq<char>, InterfaceFiles>,
    k: Seq<char>,
)
    ensures
        network_now(raw, files).contains_key(k) == network_of(raw).contains_key(k),
        network_of(raw).contains_key(k) ==> ({
            let kept = network_now(raw, files)[k];
            let read = network_of(raw)[k];
            &&& kept.rx_bytes == read.rx_bytes && kept.tx_bytes == read.tx_bytes
            &&& kept.rx_packets == read.rx_packets && kept.tx_packets == read.tx_packets
            &&& kept.rx_errors == read.rx_errors && kept.tx_errors == read.tx_errors
            &&& kept.rx_dropped == read.rx_dropped && kept.tx_dropped == read.tx_dropped
            &&& !files.contains_key(k) ==> kept.carrier_changes is None
            &&& files.contains_key(k) ==> (files[k].carrier_changes matches Some(s)
                ==> kept.carrier_changes == crate::text::u64_of(trim_of(s@)))
        }),
{
}

// --------------------------------------------------------------------------
// Temperatures
// --------------------------------------------------------------------------

/// The name under which a chip is told.
pub open spec fn known_as(chip: SensorChip, name: Seq<char>) -> bool {
    &&& chip.name matches Some(s) ==> name == trim_of(s@)
    &&& chip.name is None ==> name == chip.directory@
}

/// Every channel of every chip is told, under the name of its chip or of the
/// directory of that.
pub proof fn law_all_channels_are_told(
    chips: Seq<SensorChip>,
    c: int,
    i: int,
    name: Seq<char>,
    p: Point<Number>,
)
    requires
        0 <= c < chips.len(),
        0 <= i < chips[c].files@.len(),
        known_as(chips[c], name),
        channel_points(name, chips[c].files@[i]).contains(p),
    ensures
        temperature_points(chips).contains(p),
{
    let chip = chips[c];
    let f = each_channel(name);
    assert(f(chip.files@[i]).contains(p));
    lemma_flat_members(chip.files@, f, p);
    assert(chip_points(chip).contains(p));
    assert(each_chip()(chips[c]).contains(p));
    lemma_flat_members(chips, each_chip(), p);
    let a = flat(chips, each_chip());
    lemma_either(a, temperature_points(chips).skip(a.len() as int), p);
    assert(temperature_points(chips) =~= a + temperature_points(chips).skip(a.len() as int));
}

/// The input file of a channel is named after its number, under which it is told
/// where it has no label.
pub proof fn law_channels_are_numbered(chip: Seq<char>, f: ChannelFile, number: Seq<char>)
    requires
        f.filename@ == "temp"@ + number + "_input"@,
    ensures
        channel_of(f.filename@) == Some(number),
        f.milli is Some && f.label is None ==> ({
            let a = channel_points(chip, f)[0].attributes;
            a.contains_key("channel"@) && a["channel"@] == "temp"@ + number
        }),
{
    let s = f.filename@;
    let head = "temp"@;
    let tail = "_input"@;
    assert(s =~= head + (number + tail));
    assert(s.take(head.len() as int) =~= head);
    assert(s.skip(head.len() as int) =~= number + tail);
    let t = number + tail;
    assert(t.skip(number.len() as int) =~= tail);
    assert(t.take(number.len() as int) =~= number);
    reveal_strlit("channel");
    reveal_strlit("temperature.limit.max_celsius");
    reveal_strlit("temperature.limit.critical_celsius");
    assert("channel"@.len() == 7 && "temperature.limit.max_celsius"@.len() == 29);
    assert("temperature.limit.critical_celsius"@.len() == 34);
}

proof fn lemma_greatest_is_found(start: Option<u64>, files: Seq<ChannelFile>)
    ensures
        greatest_in(start, files) matches Some(n) ==> start == Some(n) || exists|i: int|
            0 <= i < files.len() && temperature_of(#[trigger] files[i]) == Some(n),
    decreases files.len(),
{
    if files.len() > 0 {
        let rest = files.drop_last();
        lemma_greatest_is_found(start, rest);
        assert(files.last() == files[files.len() - 1]);
        if let Some(n) = greatest_in(start, files) {
            if greatest_in(start, rest) == Some(n) && start != Some(n) {
                let i = choose|i: int|
                    0 <= i < rest.len() && temperature_of(#[trigger] rest[i]) == Some(n);
                assert(files[i] == rest[i]);
            }
        }
    }
}

/// A file of some chip has a temperature.
pub open spec fn measured(chips: Seq<SensorChip>, c: int, i: int, n: u64) -> bool {
    0 <= c < chips.len() && 0 <= i < chips[c].files@.len() && temperature_of(chips[c].files@[i])
        == Some(n)
}

/// The greatest temperature is one that was measured, and it is told behind the
/// others, as derived and as a maximum; without a temperature none is told.
pub proof fn law_the_greatest_temperature_is_measured(chips: Seq<SensorChip>)
    ensures
        greatest(chips) matches Some(n) ==> exists|c: int, i: int| measured(chips, c, i, n),
        greatest(chips) matches Some(n) ==> ({
            let p = temperature_points(chips).last();
            &&& temperature_points(chips).len() > 0
            &&& tells(
                p,
                "system.temperature"@,
                "Cel"@,
                Number::Per { bits: n, divisor: 1000 },
            )
            &&& p.quality == Quality::Derived
            &&& p.attributes == map!["aggregation"@ => "maximum"@]
        }),
        greatest(chips) is None ==> temperature_points(chips) == flat(chips, each_chip()),
    decreases chips.len(),
{
    if chips.len() > 0 {
        let rest = chips.drop_last();
        law_the_greatest_temperature_is_measured(rest);
        let last = chips.last();
        lemma_greatest_is_found(greatest(rest), last.files@);
        if let Some(n) = greatest(chips) {
            if greatest(rest) == Some(n) {
                let (c, i) = choose|c: int, i: int| measured(rest, c, i, n);
                assert(chips[c] == rest[c]);
                assert(measured(chips, c, i, n));
            } else {
                let i = choose|i: int|
                    0 <= i < last.files@.len() && temperature_of(#[trigger] last.files@[i]) == Some(
                        n,
                    );
                assert(measured(chips, chips.len() - 1, i, n));
            }
        }
    }
}

/// A processor that no entry names is not told.
pub proof fn law_only_processors_are_told(e: CpuEntry)
    requires
        !has_prefix(e.name@, "cpu"@),
    ensures
        cpu_entry_points(e) == Seq::<Point<Number>>::empty(),
{
}

/// A filesystem that the system reports nothing of is not told.
pub proof fn law_unknown_filesystems_are_not_told(
    m: (Seq<char>, Seq<char>, Seq<char>),
    statistics: Map<Seq<char>, FilesystemStatistics>,
)
    requires
        !statistics.contains_key(m.0),
    ensures
        mount_points(m, statistics) == Seq::<Point<Number>>::empty(),
{
}

// --------------------------------------------------------------------------
// Mount tables
// --------------------------------------------------------------------------

/// No backslash stands in a text.
pub open spec fn is_plain(s: Seq<char>) -> bool {
    forall|i: int| 0 <= i < s.len() ==> #[trigger] s[i] != '\\'
}

proof fn lemma_plain(s: Seq<char>, p: Seq<char>, with: Seq<char>)
    requires
        is_plain(s),
        p.len() > 0,
        p[0] == '\\',
    ensures
        replace_of(s, p, with) == s,
    decreases s.len(),
{
    if s.len() > 0 {
        if has_prefix(s, p) {
            assert(s.take(p.len() as int)[0] == s[0]);
        }
        assert forall|i: int| 0 <= i < s.skip(1).len() implies #[trigger] s.skip(1)[i] != '\\' by {
            assert(s.skip(1)[i] == s[i + 1]);
        }
        lemma_plain(s.skip(1), p, with);
        assert(s =~= seq![s[0]] + s.skip(1));
    }
}

proof fn lemma_escape(a: Seq<char>, e: Seq<char>, b: Seq<char>, p: Seq<char>, with: Seq<char>)
    requires
        is_plain(a) && is_plain(b),
        p.len() == 4 && e.len() == 4,
        p[0] == '\\' && e[0] == '\\',
        e[1] != '\\' && e[2] != '\\' && e[3] != '\\',
    ensures
        p == e ==> replace_of(a + e + b, p, with) == a + with + b,
        p != e ==> replace_of(a + e + b, p, with) == a + e + b,
    decreases a.len(),
{
    let s = a + e + b;
    if a.len() == 0 {
        assert(s =~= e + b);
        assert(s.take(4) =~= e);
        assert(s.skip(4) =~= b);
        if p == e {
            lemma_plain(b, p, with);
            assert(a + with + b =~= with + b);
        } else {
            let t = s.skip(1);
            assert(t =~= e.skip(1) + b);
            assert(is_plain(t)) by {
                assert forall|i: int| 0 <= i < t.len() implies #[trigger] t[i] != '\\' by {
                    if i < 3 {
                        assert(t[i] == e[i + 1]);
                    } else {
                        assert(t[i] == b[i - 3]);
                    }
                }
            }
            lemma_plain(t, p, with);
            assert(s =~= seq![s[0]] + t);
        }
    } else {
        assert(s[0] == a[0]);
        if has_prefix(s, p) {
            assert(s.take(4)[0] == s[0]);
        }
        let rest = a.skip(1);
        assert forall|i: int| 0 <= i < rest.len() implies #[trigger] rest[i] != '\\' by {
            assert(rest[i] == a[i + 1]);
        }
        assert(s.skip(1) =~= rest + e + b);
        lemma_escape(rest, e, b, p, with);
        assert(seq![a[0]] + (rest + with + b) =~= a + with + b);
        assert(seq![a[0]] + (rest + e + b) =~= a + e + b);
    }
}

/// The escapes of a mount table stand for a space, a tabulator, a newline and a
/// backslash, and everything else stands for itself.
pub proof fn law_escapes_are_resolved(a: Seq<char>, b: Seq<char>)
    requires
        is_plain(a) && is_plain(b),
    ensures
        unescaped(a) == a,
        unescaped(a + "\\040"@ + b) == a + " "@ + b,
        unescaped(a + "\\011"@ + b) == a + "\t"@ + b,
        unescaped(a + "\\012"@ + b) == a + "\n"@ + b,
        unescaped(a + "\\134"@ + b) == a + "\\"@ + b,
{
    reveal_strlit("\\040");
    reveal_strlit("\\011");
    reveal_strlit("\\012");
    reveal_strlit("\\134");
    reveal_strlit(" ");
    reveal_strlit("\t");
    reveal_strlit("\n");
    let space = "\\040"@;
    let tab = "\\011"@;
    let line = "\\012"@;
    let slash = "\\134"@;
    assert(space.len() == 4 && tab.len() == 4 && line.len() == 4 && slash.len() == 4);
    assert(space[2] == '4' && tab[2] == '1' && line[2] == '1' && slash[2] == '3');
    assert(tab[3] == '1' && line[3] == '2');
    lemma_plain(a, space, " "@);
    lemma_plain(a, tab, "\t"@);
    lemma_plain(a, line, "\n"@);
    lemma_plain(a, slash, "\\"@);
    lemma_resolved(a, " "@, b);
    lemma_resolved(a, "\t"@, b);
    lemma_resolved(a, "\n"@, b);
    lemma_escape(a, space, b, space, " "@);
    lemma_plain(a + " "@ + b, tab, "\t"@);
    lemma_plain(a + " "@ + b, line, "\n"@);
    lemma_plain(a + " "@ + b, slash, "\\"@);
    lemma_escape(a, tab, b, space, " "@);
    lemma_escape(a, tab, b, tab, "\t"@);
    lemma_plain(a + "\t"@ + b, line, "\n"@);
    lemma_plain(a + "\t"@ + b, slash, "\\"@);
    lemma_escape(a, line, b, space, " "@);
    lemma_escape(a, line, b, tab, "\t"@);
    lemma_escape(a, line, b, line, "\n"@);
    lemma_plain(a + "\n"@ + b, slash, "\\"@);
    lemma_escape(a, slash, b, space, " "@);
    lemma_escape(a, slash, b, tab, "\t"@);
    lemma_escape(a, slash, b, line, "\n"@);
    lemma_escape(a, slash, b, slash, "\\"@);
}

proof fn lemma_resolved(a: Seq<char>, w: Seq<char>, b: Seq<char>)
    requires
        is_plain(a) && is_plain(b) && is_plain(w),
    ensures
        is_plain(a + w + b),
{
    let s = a + w + b;
    assert forall|i: int| 0 <= i < s.len() implies #[trigger] s[i] != '\\' by {
        if i < a.len() {
            assert(s[i] == a[i]);
        } else if i < a.len() + w.len() {
            assert(s[i] == w[i - a.len()]);
        } else {
            assert(s[i] == b[i - a.len() - w.len()]);
        }
    }
}

} // verus!
