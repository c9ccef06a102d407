//! Stable hardware and sensor attributes of a Linux host.

use super::kernel::entry;
use super::parse::{meminfo_of, parse_meminfo, trimmed, trimmed_of};
use super::storage::{is_virtual_device, virtual_device};
use crate::arith::{multiply, times};
use crate::schema::Attributes;
use crate::table::Table;
use crate::text::{
    all_digits, concat, decimal, has_prefix, lines, lines_of, only_digits, optional, parse_u64,
    same, split_once, split_once_of, starts_with, strip_prefix, strip_prefix_of, texts, trim_char,
    trim_char_of, u64_of, u64_text, Class,
};
use vstd::prelude::*;

verus! {

/// A file of a sensor chip.
pub struct SensorFile {
    /// The name of the file.
    pub filename: String,
    /// Its content.
    pub content: Option<String>,
    /// The number in it divided by a thousand, written as a number, where it
    /// holds one.
    pub celsius: Option<String>,
}

/// A directory entry of `/sys/class/hwmon`.
pub struct SensorChipFiles {
    pub id: String,
    /// The content of its `name` file.
    pub name: Option<String>,
    /// Its files; none where it cannot be read.
    pub files: Vec<SensorFile>,
}

/// A directory entry of `/sys/class/thermal`.
pub struct ThermalZone {
    pub id: String,
    /// The content of its `type` file.
    pub kind: Option<String>,
}

/// A directory entry of `/sys/block`.
pub struct Disk {
    pub id: String,
    /// The content of its `device/model` file.
    pub model: Option<String>,
    /// The content of its `device/firmware_rev` file.
    pub firmware: Option<String>,
    /// The content of its `size` file, in sectors.
    pub size: Option<String>,
}

/// A directory entry of `/sys/class/net`.
pub struct NetworkDevice {
    pub id: String,
    /// Whether there is a `device` entry, which only hardware has.
    pub device: bool,
    /// The name that its `device/driver` link points to.
    pub driver: Option<String>,
}

/// The files behind the inventory. A directory that cannot be read has no
/// entries.
pub struct InventoryFiles {
    pub chips: Vec<SensorChipFiles>,
    pub zones: Vec<ThermalZone>,
    pub disks: Vec<Disk>,
    pub network: Vec<NetworkDevice>,
    /// The content of `/proc/meminfo`.
    pub meminfo: Option<String>,
    /// The content of `/etc/dgx-release`.
    pub dgx_release: Option<String>,
    /// The content of `/etc/os-release`.
    pub os_release: Option<String>,
    /// The content of `/sys/devices/system/cpu/online`.
    pub cpu_online: Option<String>,
}

pub type Properties = Map<Seq<char>, Seq<char>>;

/// `m` with the attribute, where it has a value.
pub open spec fn noted(m: Properties, key: Seq<char>, value: Option<Seq<char>>) -> Properties {
    match value {
        Some(v) => m.insert(key, v),
        None => m,
    }
}

fn note(m: &mut Attributes, key: String, value: Option<String>)
    ensures
        final(m)@ == noted(old(m)@, key@, optional(value)),
{
    match value {
        Some(v) => {
            m.insert(key, v);
        },
        None => {},
    }
}

/// The properties of a temperature channel that belong to the inventory.
pub open spec fn is_channel_property(property: Seq<char>) -> bool {
    ||| property == "label"@
    ||| property == "min"@
    ||| property == "max"@
    ||| property == "crit"@
    ||| property == "emergency"@
    ||| property == "lcrit"@
}

/// The channel and the property that the name of a sensor file gives.
pub open spec fn channel_property(filename: Seq<char>) -> Option<(Seq<char>, Seq<char>)> {
    match strip_prefix_of(filename, "temp"@) {
        Some(rest) => match split_once_of(rest, Class::Only('_')) {
            Some((temp, property)) => if all_digits(temp) && is_channel_property(property) {
                Some((temp, property))
            } else {
                None
            },
            None => None,
        },
        None => None,
    }
}

/// A label as it stands; a limit in degrees, or as it stands where it is not a
/// number.
pub open spec fn property_value(f: SensorFile, property: Seq<char>) -> Option<Seq<char>> {
    match trimmed_of(optional(f.content)) {
        Some(value) => if property == "label"@ {
            Some(value)
        } else {
            match optional(f.celsius) {
                Some(celsius) => Some(celsius),
                None => Some(value),
            }
        },
        None => None,
    }
}

/// `m` with the property that a sensor file gives.
pub open spec fn with_sensor_file(m: Properties, id: Seq<char>, f: SensorFile) -> Properties {
    match channel_property(f.filename@) {
        Some((temp, property)) => noted(
            m,
            "linux.hwmon."@ + id + ".temp"@ + temp + "."@ + property,
            property_value(f, property),
        ),
        None => m,
    }
}

pub open spec fn with_sensor_files(m: Properties, id: Seq<char>, fs: Seq<SensorFile>) -> Properties
    decreases fs.len(),
{
    if fs.len() == 0 {
        m
    } else {
        with_sensor_file(with_sensor_files(m, id, fs.drop_last()), id, fs.last())
    }
}

/// `m` with the attributes of a sensor chip.
pub open spec fn with_chip(m: Properties, c: SensorChipFiles) -> Properties {
    let name = match trimmed_of(optional(c.name)) {
        Some(name) => name,
        None => c.id@,
    };
    with_sensor_files(m.insert("linux.hwmon."@ + c.id@ + ".name"@, name), c.id@, c.files@)
}

pub open spec fn with_chips(m: Properties, cs: Seq<SensorChipFiles>) -> Properties
    decreases cs.len(),
{
    if cs.len() == 0 {
        m
    } else {
        with_chip(with_chips(m, cs.drop_last()), cs.last())
    }
}

/// `m` with the attribute of a thermal zone.
pub open spec fn with_zone(m: Properties, z: ThermalZone) -> Properties {
    if has_prefix(z.id@, "thermal_zone"@) {
        noted(m, "linux.thermal."@ + z.id@ + ".type"@, trimmed_of(optional(z.kind)))
    } else {
        m
    }
}

pub open spec fn with_zones(m: Properties, zs: Seq<ThermalZone>) -> Properties
    decreases zs.len(),
{
    if zs.len() == 0 {
        m
    } else {
        with_zone(with_zones(m, zs.drop_last()), zs.last())
    }
}

/// The capacity that a number of sectors gives, in bytes.
pub open spec fn capacity_of(size: Option<Seq<char>>) -> Option<Seq<char>> {
    match trimmed_of(size) {
        Some(s) => match u64_of(s) {
            Some(sectors) => Some(decimal(times(sectors, 512) as nat)),
            None => None,
        },
        None => None,
    }
}

/// `m` with the attributes of a disk.
pub open spec fn with_disk(m: Properties, d: Disk) -> Properties {
    if is_virtual_device(d.id@) {
        m
    } else {
        let prefix = "host.disk."@ + d.id@;
        noted(
            noted(
                noted(m, prefix + ".model"@, trimmed_of(optional(d.model))),
                prefix + ".firmware"@,
                trimmed_of(optional(d.firmware)),
            ),
            prefix + ".capacity_bytes"@,
            capacity_of(optional(d.size)),
        )
    }
}

pub open spec fn with_disks(m: Properties, ds: Seq<Disk>) -> Properties
    decreases ds.len(),
{
    if ds.len() == 0 {
        m
    } else {
        with_disk(with_disks(m, ds.drop_last()), ds.last())
    }
}

/// `m` with the attributes of a network device.
pub open spec fn with_network_device(m: Properties, d: NetworkDevice) -> Properties {
    if d.device {
        let prefix = "host.network."@ + d.id@;
        noted(m.insert(prefix + ".name"@, d.id@), prefix + ".driver"@, optional(d.driver))
    } else {
        m
    }
}

pub open spec fn with_network_devices(m: Properties, ds: Seq<NetworkDevice>) -> Properties
    decreases ds.len(),
{
    if ds.len() == 0 {
        m
    } else {
        with_network_device(with_network_devices(m, ds.drop_last()), ds.last())
    }
}

/// The total memory that the memory information gives.
pub open spec fn total_memory(meminfo: Option<Seq<char>>) -> Option<Seq<char>> {
    match meminfo {
        Some(raw) => match entry(meminfo_of(raw), "MemTotal"@) {
            Some(total) => Some(decimal(total as nat)),
            None => None,
        },
        None => None,
    }
}

/// The value of the first line with the pretty name of the system, without
/// the quotes around it.
pub open spec fn pretty_name(rows: Seq<Seq<char>>) -> Option<Seq<char>>
    decreases rows.len(),
{
    if rows.len() == 0 {
        None
    } else {
        match strip_prefix_of(rows[0], "PRETTY_NAME="@) {
            Some(value) => Some(trim_char_of(value, '"')),
            None => pretty_name(rows.skip(1)),
        }
    }
}

/// A text, unless it is empty.
pub open spec fn filled(s: Option<Seq<char>>) -> Option<Seq<char>> {
    match s {
        Some(v) => if v.len() == 0 {
            None
        } else {
            Some(v)
        },
        None => None,
    }
}

/// The pretty name that a release file gives.
pub open spec fn pretty_name_of(os_release: Option<Seq<char>>) -> Option<Seq<char>> {
    match os_release {
        Some(raw) => pretty_name(lines_of(raw)),
        None => None,
    }
}

/// The inventory of a host.
pub open spec fn inventory_of(files: InventoryFiles) -> Properties {
    let m = with_chips(Map::empty(), files.chips@);
    let m = with_zones(m, files.zones@);
    let m = with_disks(m, files.disks@);
    let m = with_network_devices(m, files.network@);
    let m = noted(m, "host.memory.total_bytes"@, total_memory(optional(files.meminfo)));
    let m = noted(m, "host.os.release"@, filled(trimmed_of(optional(files.dgx_release))));
    let m = noted(m, "host.os.pretty_name"@, filled(pretty_name_of(optional(files.os_release))));
    noted(m, "host.cpu.online"@, filled(trimmed_of(optional(files.cpu_online))))
}

/// The channel and the property that the name of a sensor file gives, where
/// that belongs to the inventory.
pub fn sensor_property(filename: &str) -> (r: Option<(String, String)>)
    ensures
        crate::text::pair(r) == channel_property(filename@),
{
    match strip_prefix(filename, "temp") {
        Some(rest) => match split_once(rest.as_str(), Class::Only('_')) {
            Some((temp, property)) => {
                let p = property.as_str();
                if only_digits(temp.as_str()) && (same(p, "label") || same(p, "min") || same(
                    p,
                    "max",
                ) || same(p, "crit") || same(p, "emergency") || same(p, "lcrit")) {
                    Some((temp, property))
                } else {
                    None
                }
            },
            None => None,
        },
        None => None,
    }
}

fn inventory_sensor_file(m: &mut Attributes, id: &str, f: &SensorFile)
    ensures
        final(m)@ == with_sensor_file(old(m)@, id@, *f),
{
    match sensor_property(f.filename.as_str()) {
        Some((temp, property)) => {
            let key = concat("linux.hwmon.", id);
            let key = concat(key.as_str(), ".temp");
            let key = concat(key.as_str(), temp.as_str());
            let key = concat(key.as_str(), ".");
            let key = concat(key.as_str(), property.as_str());
            let value = match trimmed(&f.content) {
                Some(value) => if same(property.as_str(), "label") {
                    Some(value)
                } else {
                    match &f.celsius {
                        Some(celsius) => Some(celsius.clone()),
                        None => Some(value),
                    }
                },
                None => None,
            };
            note(m, key, value);
        },
        None => {},
    }
}

fn inventory_chip(m: &mut Attributes, c: &SensorChipFiles)
    ensures
        final(m)@ == with_chip(old(m)@, *c),
{
    let key = concat("linux.hwmon.", c.id.as_str());
    let key = concat(key.as_str(), ".name");
    let name = match trimmed(&c.name) {
        Some(name) => name,
        None => c.id.clone(),
    };
    m.insert(key, name);
    let ghost start = m@;
    let files = &c.files;
    let mut i: usize = 0;
    while i < files.len()
        invariant
            i <= files@.len(),
            m@ == with_sensor_files(start, c.id@, files@.take(i as int)),
        decreases files@.len() - i,
    {
        assert(files@.take(i + 1).drop_last() =~= files@.take(i as int));
        inventory_sensor_file(m, c.id.as_str(), &files[i]);
        i += 1;
    }
    assert(files@.take(i as int) =~= files@);
}

fn inventory_hwmon(m: &mut Attributes, chips: &Vec<SensorChipFiles>)
    ensures
        final(m)@ == with_chips(old(m)@, chips@),
{
    let ghost start = m@;
    let mut i: usize = 0;
    while i < chips.len()
        invariant
            i <= chips@.len(),
            m@ == with_chips(start, chips@.take(i as int)),
        decreases chips@.len() - i,
    {
        assert(chips@.take(i + 1).drop_last() =~= chips@.take(i as int));
        inventory_chip(m, &chips[i]);
        i += 1;
    }
    assert(chips@.take(i as int) =~= chips@);
}

fn inventory_thermal_zones(m: &mut Attributes, zones: &Vec<ThermalZone>)
    ensures
        final(m)@ == with_zones(old(m)@, zones@),
{
    let ghost start = m@;
    let mut i: usize = 0;
    while i < zones.len()
        invariant
            i <= zones@.len(),
            m@ == with_zones(start, zones@.take(i as int)),
        decreases zones@.len() - i,
    {
        assert(zones@.take(i + 1).drop_last() =~= zones@.take(i as int));
        let z = &zones[i];
        if starts_with(z.id.as_str(), "thermal_zone") {
            let key = concat("linux.thermal.", z.id.as_str());
            let key = concat(key.as_str(), ".type");
            note(m, key, trimmed(&z.kind));
        }
        i += 1;
    }
    assert(zones@.take(i as int) =~= zones@);
}

fn capacity(size: &Option<String>) -> (r: Option<String>)
    ensures
        optional(r) == capacity_of(optional(*size)),
{
    match trimmed(size) {
        Some(s) => match parse_u64(s.as_str()) {
            Some(sectors) => Some(u64_text(multiply(sectors, 512))),
            None => None,
        },
        None => None,
    }
}

fn inventory_block_devices(m: &mut Attributes, disks: &Vec<Disk>)
    ensures
        final(m)@ == with_disks(old(m)@, disks@),
{
    let ghost start = m@;
    let mut i: usize = 0;
    while i < disks.len()
        invariant
            i <= disks@.len(),
            m@ == with_disks(start, disks@.take(i as int)),
        decreases disks@.len() - i,
    {
        assert(disks@.take(i + 1).drop_last() =~= disks@.take(i as int));
        let d = &disks[i];
        if !virtual_device(d.id.as_str()) {
            let prefix = concat("host.disk.", d.id.as_str());
            note(m, concat(prefix.as_str(), ".model"), trimmed(&d.model));
            note(m, concat(prefix.as_str(), ".firmware"), trimmed(&d.firmware));
            note(m, concat(prefix.as_str(), ".capacity_bytes"), capacity(&d.size));
        }
        i += 1;
    }
    assert(disks@.take(i as int) =~= disks@);
}

fn inventory_network(m: &mut Attributes, devices: &Vec<NetworkDevice>)
    ensures
        final(m)@ == with_network_devices(old(m)@, devices@),
{
    let ghost start = m@;
    let mut i: usize = 0;
    while i < devices.len()
        invariant
            i <= devices@.len(),
            m@ == with_network_devices(start, devices@.take(i as int)),
        decreases devices@.len() - i,
    {
        assert(devices@.take(i + 1).drop_last() =~= devices@.take(i as int));
        let d = &devices[i];
        if d.device {
            let prefix = concat("host.network.", d.id.as_str());
            m.insert(concat(prefix.as_str(), ".name"), d.id.clone());
            match &d.driver {
                Some(driver) => {
                    m.insert(concat(prefix.as_str(), ".driver"), driver.clone());
                },
                None => {},
            }
        }
        i += 1;
    }
    assert(devices@.take(i as int) =~= devices@);
}

fn find_pretty_name(raw: &str) -> (r: Option<String>)
    ensures
        optional(r) == pretty_name(lines_of(raw@)),
{
    let rows = lines(raw);
    let ghost all = texts(rows@);
    let mut i: usize = 0;
    assert(all.skip(0) =~= all);
    while i < rows.len()
        invariant
            i <= rows@.len(),
            all == texts(rows@),
            all == lines_of(raw@),
            pretty_name(all) == pretty_name(all.skip(i as int)),
        decreases rows@.len() - i,
    {
        assert(all.skip(i as int)[0] == rows@[i as int]@);
        assert(all.skip(i as int).skip(1) =~= all.skip(i + 1));
        match strip_prefix(rows[i].as_str(), "PRETTY_NAME=") {
            Some(value) => {
                return Some(trim_char(value.as_str(), '"'));
            },
            None => {},
        }
        i += 1;
    }
    None
}

fn unless_empty(s: Option<String>) -> (r: Option<String>)
    ensures
        optional(r) == filled(optional(s)),
{
    match s {
        Some(v) => if v.as_str().is_empty() {
            None
        } else {
            Some(v)
        },
        None => None,
    }
}

/// Discovers the stable hardware and sensor attributes of a host.
#[must_use]
pub fn inventory(files: &InventoryFiles) -> (r: Attributes)
    ensures
        r@ == inventory_of(*files),
{
    let mut m: Attributes = Table::new();
    inventory_hwmon(&mut m, &files.chips);
    inventory_thermal_zones(&mut m, &files.zones);
    inventory_block_devices(&mut m, &files.disks);
    inventory_network(&mut m, &files.network);
    let total = match &files.meminfo {
        Some(raw) => {
            let values = parse_meminfo(raw.as_str());
            match values.at("MemTotal") {
                Some(total) => Some(u64_text(*total)),
                None => None,
            }
        },
        None => None,
    };
    note(&mut m, "host.memory.total_bytes".to_owned(), total);
    note(&mut m, "host.os.release".to_owned(), unless_empty(trimmed(&files.dgx_release)));
    let pretty = match &files.os_release {
        Some(raw) => find_pretty_name(raw.as_str()),
        None => None,
    };
    note(&mut m, "host.os.pretty_name".to_owned(), unless_empty(pretty));
    note(&mut m, "host.cpu.online".to_owned(), unless_empty(trimmed(&files.cpu_online)));
    m
}

} // verus!
