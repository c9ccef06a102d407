//! Parsers of the procfs and sysfs texts.

use crate::arith::{add_up, multiply, plus, times};
use crate::rows::{behind, gathered, lemma_gathered, numbers, numbers_of, sum, sum_of};
use crate::table::Table;
use crate::text::{
    fields, fields_of, float, has_prefix, is_float, lines, lines_of, optional, parse_u64, same,
    split_once, split_once_of, starts_with, strip_prefix, strip_prefix_of, texts, trim, trim_of,
    u64_of, Class,
};
use vstd::prelude::*;

verus! {

// --------------------------------------------------------------------------
// /proc/stat
// --------------------------------------------------------------------------

/// Counters of the aggregate processor row and of the scheduler. A scheduler
/// row that is not there, or holds no number, gives none.
#[derive(Debug, Clone, Copy, PartialEq, Eq, Structural)]
pub struct CpuTimes {
    pub total: u64,
    pub idle: u64,
    pub context_switches: Option<u64>,
    pub runnable: Option<u64>,
    pub blocked: Option<u64>,
}

/// Why a processor statistics text gives no counters.
#[derive(Debug, Clone, Copy, PartialEq, Eq, Structural)]
pub enum StatError {
    /// There is no aggregate row.
    RowMissing,
    /// A field of the aggregate row is not a number.
    NotANumber,
    /// The aggregate row has fewer than four fields.
    RowTooShort,
}

/// The first row that starts with `prefix`.
pub open spec fn row_with(rows: Seq<Seq<char>>, prefix: Seq<char>) -> Option<Seq<char>>
    decreases rows.len(),
{
    if rows.len() == 0 {
        None
    } else if has_prefix(rows[0], prefix) {
        Some(rows[0])
    } else {
        row_with(rows.skip(1), prefix)
    }
}

/// The number that a row has behind `name`, if it has one.
pub open spec fn number_behind(row: Seq<char>, name: Seq<char>) -> Option<u64> {
    match strip_prefix_of(row, name) {
        Some(rest) => u64_of(trim_of(rest)),
        None => None,
    }
}

/// The number behind `name` in the first row where there is one.
pub open spec fn field_of(rows: Seq<Seq<char>>, name: Seq<char>) -> Option<u64>
    decreases rows.len(),
{
    if rows.len() == 0 {
        None
    } else {
        match number_behind(rows[0], name) {
            Some(v) => Some(v),
            None => field_of(rows.skip(1), name),
        }
    }
}

/// A field is missing exactly if no row has a number behind its name.
pub proof fn lemma_field_of(rows: Seq<Seq<char>>, name: Seq<char>)
    ensures
        field_of(rows, name) is None <==> forall|i: int|
            0 <= i < rows.len() ==> number_behind(#[trigger] rows[i], name) is None,
    decreases rows.len(),
{
    if rows.len() > 0 {
        lemma_field_of(rows.skip(1), name);
        assert forall|i: int| 1 <= i < rows.len() implies #[trigger] rows[i] == rows.skip(1)[i
            - 1] by {}
        assert forall|i: int| 0 <= i < rows.len() - 1 implies #[trigger] rows.skip(1)[i] == rows[i
            + 1] by {}
    }
}

/// The numbers of the aggregate processor row.
pub open spec fn cpu_numbers(raw: Seq<char>) -> Result<Seq<u64>, StatError> {
    match row_with(lines_of(raw), "cpu "@) {
        None => Err(StatError::RowMissing),
        Some(row) => match numbers_of(behind(fields_of(row), 1)) {
            None => Err(StatError::NotANumber),
            Some(v) => if v.len() < 4 {
                Err(StatError::RowTooShort)
            } else {
                Ok(v)
            },
        },
    }
}

/// The total of the aggregate row is in range.
pub open spec fn cpu_total_in_range(raw: Seq<char>) -> bool {
    cpu_numbers(raw) matches Ok(v) ==> sum_of(v) <= u64::MAX
}

/// The counters of a processor statistics text: the fields of the aggregate
/// row add up to the total, and idle time includes waiting for I/O.
pub open spec fn cpu_times_of(raw: Seq<char>) -> Result<CpuTimes, StatError> {
    match cpu_numbers(raw) {
        Err(e) => Err(e),
        Ok(v) => Ok(
            CpuTimes {
                total: sum_of(v) as u64,
                idle: plus(
                    v[3],
                    if v.len() > 4 {
                        v[4]
                    } else {
                        0
                    },
                ),
                context_switches: field_of(lines_of(raw), "ctxt "@),
                runnable: field_of(lines_of(raw), "procs_running "@),
                blocked: field_of(lines_of(raw), "procs_blocked "@),
            },
        ),
    }
}

fn find_row(rows: &Vec<String>, prefix: &str) -> (r: Option<usize>)
    ensures
        match r {
            Some(i) => i < rows@.len() && row_with(texts(rows@), prefix@) == Some(rows@[i as int]@),
            None => row_with(texts(rows@), prefix@) is None,
        },
{
    let ghost all = texts(rows@);
    let mut i: usize = 0;
    assert(all.skip(0) =~= all);
    while i < rows.len()
        invariant
            i <= rows@.len(),
            all == texts(rows@),
            row_with(all, prefix@) == row_with(all.skip(i as int), prefix@),
        decreases rows@.len() - i,
    {
        assert(all.skip(i as int)[0] == rows@[i as int]@);
        assert(all.skip(i as int).skip(1) =~= all.skip(i + 1));
        if starts_with(rows[i].as_str(), prefix) {
            return Some(i);
        }
        i += 1;
    }
    None
}

fn find_field(rows: &Vec<String>, name: &str) -> (r: Option<u64>)
    ensures
        r == field_of(texts(rows@), name@),
{
    let ghost all = texts(rows@);
    let mut i: usize = 0;
    assert(all.skip(0) =~= all);
    while i < rows.len()
        invariant
            i <= rows@.len(),
            all == texts(rows@),
            field_of(all, name@) == field_of(all.skip(i as int), name@),
        decreases rows@.len() - i,
    {
        assert(all.skip(i as int)[0] == rows@[i as int]@);
        assert(all.skip(i as int).skip(1) =~= all.skip(i + 1));
        match strip_prefix(rows[i].as_str(), name) {
            Some(rest) => {
                let field = trim(rest.as_str());
                match parse_u64(field.as_str()) {
                    Some(v) => {
                        return Some(v);
                    },
                    None => {},
                }
            },
            None => {},
        }
        i += 1;
    }
    None
}

/// The numbers of the aggregate row.
pub open spec fn result_list(v: Result<Vec<u64>, StatError>) -> Result<Seq<u64>, StatError> {
    match v {
        Ok(x) => Ok(x@),
        Err(e) => Err(e),
    }
}

fn cpu_row(rows: &Vec<String>, raw: Ghost<Seq<char>>) -> (r: Result<Vec<u64>, StatError>)
    requires
        texts(rows@) == lines_of(raw@),
    ensures
        result_list(r) == cpu_numbers(raw@),
{
    match find_row(rows, "cpu ") {
        None => Err(StatError::RowMissing),
        Some(i) => {
            let parts = fields(rows[i].as_str());
            let from: usize = if parts.len() == 0 {
                0
            } else {
                1
            };
            assert(behind(texts(parts@), 1) =~= texts(parts@).skip(from as int));
            match numbers(&parts, from) {
                None => Err(StatError::NotANumber),
                Some(v) => if v.len() < 4 {
                    Err(StatError::RowTooShort)
                } else {
                    Ok(v)
                },
            }
        },
    }
}

/// Whether the total of the aggregate row is in range.
pub fn cpu_total_fits(raw: &str) -> (r: bool)
    ensures
        r == cpu_total_in_range(raw@),
{
    let rows = lines(raw);
    match cpu_row(&rows, Ghost(raw@)) {
        Ok(v) => sum(&v).is_some(),
        Err(_) => true,
    }
}

/// Parses the counters of `/proc/stat`.
pub fn parse_cpu_times(raw: &str) -> (r: Result<CpuTimes, StatError>)
    requires
        cpu_total_in_range(raw@),
    ensures
        r == cpu_times_of(raw@),
{
    let rows = lines(raw);
    match cpu_row(&rows, Ghost(raw@)) {
        Err(e) => Err(e),
        Ok(v) => {
            let total = match sum(&v) {
                Some(n) => n,
                None => 0,
            };
            let waiting: u64 = if v.len() > 4 {
                v[4]
            } else {
                0
            };
            Ok(
                CpuTimes {
                    total,
                    idle: add_up(v[3], waiting),
                    context_switches: find_field(&rows, "ctxt "),
                    runnable: find_field(&rows, "procs_running "),
                    blocked: find_field(&rows, "procs_blocked "),
                },
            )
        },
    }
}

// --------------------------------------------------------------------------
// /proc/meminfo
// --------------------------------------------------------------------------

/// The entry of one `/proc/meminfo` line, in bytes where the line gives kB.
pub open spec fn meminfo_entry(line: Seq<char>) -> Option<(Seq<char>, u64)> {
    match split_once_of(line, Class::Only(':')) {
        None => None,
        Some((key, rest)) => {
            let f = fields_of(rest);
            if f.len() == 0 {
                None
            } else {
                match u64_of(f[0]) {
                    None => None,
                    Some(v) => Some(
                        (
                            key,
                            times(
                                v,
                                if f.len() > 1 && f[1] == "kB"@ {
                                    1024
                                } else {
                                    1
                                },
                            ),
                        ),
                    ),
                }
            }
        },
    }
}

pub open spec fn meminfo_entries() -> spec_fn(Seq<char>) -> Option<(Seq<char>, u64)> {
    |line: Seq<char>| meminfo_entry(line)
}

pub open spec fn meminfo_of(raw: Seq<char>) -> Map<Seq<char>, u64> {
    gathered(lines_of(raw), meminfo_entries())
}

/// The content of an optional entry.
pub open spec fn entry_view<V: View>(e: Option<(String, V)>) -> Option<(Seq<char>, V::V)> {
    match e {
        Some((k, v)) => Some((k@, v@)),
        None => None,
    }
}

fn meminfo_line(line: &str) -> (r: Option<(String, u64)>)
    ensures
        entry_view(r) == meminfo_entry(line@),
{
    match split_once(line, Class::Only(':')) {
        None => None,
        Some((key, rest)) => {
            let f = fields(rest.as_str());
            if f.len() == 0 {
                return None;
            }
            assert(texts(f@)[0] == f@[0]@);
            match parse_u64(f[0].as_str()) {
                None => None,
                Some(v) => {
                    assert(f@.len() > 1 ==> texts(f@)[1] == f@[1]@);
                    let factor: u64 = if f.len() > 1 && same(f[1].as_str(), "kB") {
                        1024
                    } else {
                        1
                    };
                    Some((key, multiply(v, factor)))
                },
            }
        },
    }
}

/// Parses `/proc/meminfo` into bytes and counts.
pub fn parse_meminfo(raw: &str) -> (r: Table<String, u64>)
    ensures
        r@ == meminfo_of(raw@),
{
    let rows = lines(raw);
    let ghost all = texts(rows@);
    let mut out: Table<String, u64> = Table::new();
    let mut i: usize = 0;
    while i < rows.len()
        invariant
            i <= rows@.len(),
            all == texts(rows@),
            out@ == gathered(all.take(i as int), meminfo_entries()),
        decreases rows@.len() - i,
    {
        proof {
            lemma_gathered(all, i as int, meminfo_entries());
        }
        match meminfo_line(rows[i].as_str()) {
            Some((key, value)) => {
                out.insert(key, value);
            },
            None => {},
        }
        i += 1;
    }
    assert(all.take(i as int) =~= all);
    out
}

// --------------------------------------------------------------------------
// /proc/vmstat
// --------------------------------------------------------------------------

/// The entry of a line with a key and a number.
pub open spec fn key_value_entry(line: Seq<char>) -> Option<(Seq<char>, u64)> {
    let f = fields_of(line);
    if f.len() < 2 {
        None
    } else {
        match u64_of(f[1]) {
            None => None,
            Some(v) => Some((f[0], v)),
        }
    }
}

pub open spec fn key_value_entries() -> spec_fn(Seq<char>) -> Option<(Seq<char>, u64)> {
    |line: Seq<char>| key_value_entry(line)
}

pub open spec fn key_values_of(raw: Seq<char>) -> Map<Seq<char>, u64> {
    gathered(lines_of(raw), key_value_entries())
}

fn key_value_line(line: &str) -> (r: Option<(String, u64)>)
    ensures
        entry_view(r) == key_value_entry(line@),
{
    let f = fields(line);
    if f.len() < 2 {
        return None;
    }
    assert(texts(f@)[0] == f@[0]@);
    assert(texts(f@)[1] == f@[1]@);
    match parse_u64(f[1].as_str()) {
        None => None,
        Some(v) => Some((f[0].clone(), v)),
    }
}

/// Parses lines with a key and a number.
pub fn parse_key_values(raw: &str) -> (r: Table<String, u64>)
    ensures
        r@ == key_values_of(raw@),
{
    let rows = lines(raw);
    let ghost all = texts(rows@);
    let mut out: Table<String, u64> = Table::new();
    let mut i: usize = 0;
    while i < rows.len()
        invariant
            i <= rows@.len(),
            all == texts(rows@),
            out@ == gathered(all.take(i as int), key_value_entries()),
        decreases rows@.len() - i,
    {
        proof {
            lemma_gathered(all, i as int, key_value_entries());
        }
        match key_value_line(rows[i].as_str()) {
            Some((key, value)) => {
                out.insert(key, value);
            },
            None => {},
        }
        i += 1;
    }
    assert(all.take(i as int) =~= all);
    out
}

// --------------------------------------------------------------------------
// /proc/pressure
// --------------------------------------------------------------------------

/// The text behind `prefix` in the first field that starts with it.
pub open spec fn field_behind(f: Seq<Seq<char>>, prefix: Seq<char>) -> Option<Seq<char>>
    decreases f.len(),
{
    if f.len() == 0 {
        None
    } else {
        match strip_prefix_of(f[0], prefix) {
            Some(rest) => Some(rest),
            None => field_behind(f.skip(1), prefix),
        }
    }
}

/// The ten-second average of one pressure line, by its class.
pub open spec fn pressure_entry(line: Seq<char>) -> Option<(Seq<char>, Seq<char>)> {
    let f = fields_of(line);
    if f.len() == 0 {
        None
    } else {
        match field_behind(f.skip(1), "avg10="@) {
            Some(number) => if is_float(number) {
                Some((f[0], number))
            } else {
                None
            },
            None => None,
        }
    }
}

pub open spec fn pressure_entries() -> spec_fn(Seq<char>) -> Option<(Seq<char>, Seq<char>)> {
    |line: Seq<char>| pressure_entry(line)
}

pub open spec fn pressure_of(raw: Seq<char>) -> Map<Seq<char>, Seq<char>> {
    gathered(lines_of(raw), pressure_entries())
}

fn find_behind(f: &Vec<String>, from: usize, prefix: &str) -> (r: Option<String>)
    requires
        from <= f@.len(),
    ensures
        optional(r) == field_behind(texts(f@).skip(from as int), prefix@),
{
    let ghost all = texts(f@);
    let mut i: usize = from;
    while i < f.len()
        invariant
            from <= i <= f@.len(),
            all == texts(f@),
            field_behind(all.skip(from as int), prefix@) == field_behind(
                all.skip(i as int),
                prefix@,
            ),
        decreases f@.len() - i,
    {
        assert(all.skip(i as int)[0] == f@[i as int]@);
        assert(all.skip(i as int).skip(1) =~= all.skip(i + 1));
        match strip_prefix(f[i].as_str(), prefix) {
            Some(rest) => {
                return Some(rest);
            },
            None => {},
        }
        i += 1;
    }
    None
}

fn pressure_line(line: &str) -> (r: Option<(String, String)>)
    ensures
        entry_view(r) == pressure_entry(line@),
{
    let f = fields(line);
    if f.len() == 0 {
        return None;
    }
    assert(texts(f@)[0] == f@[0]@);
    match find_behind(&f, 1, "avg10=") {
        Some(number) => if float(number.as_str()) {
            Some((f[0].clone(), number))
        } else {
            None
        },
        None => None,
    }
}

/// Parses the ten-second averages of a pressure file. The values are texts
/// that write numbers.
pub fn parse_pressure(raw: &str) -> (r: Table<String, String>)
    ensures
        r@ == pressure_of(raw@),
{
    let rows = lines(raw);
    let ghost all = texts(rows@);
    let mut out: Table<String, String> = Table::new();
    let mut i: usize = 0;
    while i < rows.len()
        invariant
            i <= rows@.len(),
            all == texts(rows@),
            out@ == gathered(all.take(i as int), pressure_entries()),
        decreases rows@.len() - i,
    {
        proof {
            lemma_gathered(all, i as int, pressure_entries());
        }
        match pressure_line(rows[i].as_str()) {
            Some((key, value)) => {
                out.insert(key, value);
            },
            None => {},
        }
        i += 1;
    }
    assert(all.take(i as int) =~= all);
    out
}

// --------------------------------------------------------------------------
// /proc/net/dev
// --------------------------------------------------------------------------

/// Counters of a network interface. The number of carrier changes is not among
/// those that `/proc/net/dev` lists.
#[derive(Debug, Clone, Copy, PartialEq, Eq, Structural)]
pub struct NetworkCounters {
    pub rx_bytes: u64,
    pub rx_packets: u64,
    pub rx_errors: u64,
    pub rx_dropped: u64,
    pub tx_bytes: u64,
    pub tx_packets: u64,
    pub tx_errors: u64,
    pub tx_dropped: u64,
    pub carrier_changes: Option<u64>,
}

impl View for NetworkCounters {
    type V = NetworkCounters;

    open spec fn view(&self) -> NetworkCounters {
        *self
    }
}

/// The counters of one interface line.
pub open spec fn network_entry(line: Seq<char>) -> Option<(Seq<char>, NetworkCounters)> {
    match split_once_of(line, Class::Only(':')) {
        None => None,
        Some((name, values)) => match numbers_of(fields_of(values)) {
            None => None,
            Some(v) => if v.len() < 16 {
                None
            } else {
                Some(
                    (
                        trim_of(name),
                        NetworkCounters {
                            rx_bytes: v[0],
                            rx_packets: v[1],
                            rx_errors: v[2],
                            rx_dropped: v[3],
                            tx_bytes: v[8],
                            tx_packets: v[9],
                            tx_errors: v[10],
                            tx_dropped: v[11],
                            carrier_changes: None,
                        },
                    ),
                )
            },
        },
    }
}

pub open spec fn network_entries() -> spec_fn(Seq<char>) -> Option<(Seq<char>, NetworkCounters)> {
    |line: Seq<char>| network_entry(line)
}

/// The counters of each interface; the first two lines are a heading.
pub open spec fn network_of(raw: Seq<char>) -> Map<Seq<char>, NetworkCounters> {
    gathered(behind(lines_of(raw), 2), network_entries())
}

fn network_line(line: &str) -> (r: Option<(String, NetworkCounters)>)
    ensures
        entry_view(r) == network_entry(line@),
{
    match split_once(line, Class::Only(':')) {
        None => None,
        Some((name, values)) => {
            let parts = fields(values.as_str());
            assert(texts(parts@).skip(0) =~= texts(parts@));
            match numbers(&parts, 0) {
                None => None,
                Some(v) => {
                    if v.len() < 16 {
                        return None;
                    }
                    let name = trim(name.as_str());
                    Some(
                        (
                            name,
                            NetworkCounters {
                                rx_bytes: v[0],
                                rx_packets: v[1],
                                rx_errors: v[2],
                                rx_dropped: v[3],
                                tx_bytes: v[8],
                                tx_packets: v[9],
                                tx_errors: v[10],
                                tx_dropped: v[11],
                                carrier_changes: None,
                            },
                        ),
                    )
                },
            }
        },
    }
}

/// Parses the interface counters of `/proc/net/dev`.
pub fn parse_network(raw: &str) -> (r: Table<String, NetworkCounters>)
    ensures
        r@ == network_of(raw@),
{
    let rows = lines(raw);
    let ghost all = behind(texts(rows@), 2);
    let mut out: Table<String, NetworkCounters> = Table::new();
    if rows.len() <= 2 {
        return out;
    }
    let mut i: usize = 2;
    while i < rows.len()
        invariant
            2 <= i <= rows@.len(),
            all == behind(texts(rows@), 2),
            out@ == gathered(all.take(i - 2), network_entries()),
        decreases rows@.len() - i,
    {
        proof {
            lemma_gathered(all, i - 2, network_entries());
            assert(all[i - 2] == rows@[i as int]@);
        }
        match network_line(rows[i].as_str()) {
            Some((key, value)) => {
                out.insert(key, value);
            },
            None => {},
        }
        i += 1;
    }
    assert(all.take(i - 2) =~= all);
    out
}

// --------------------------------------------------------------------------
// /sys/block/*/stat
// --------------------------------------------------------------------------

/// Counters of a block device.
#[derive(Debug, Clone, Copy, PartialEq, Eq, Structural)]
pub struct BlockCounters {
    pub reads: u64,
    pub sectors_read: u64,
    pub read_ms: u64,
    pub writes: u64,
    pub sectors_written: u64,
    pub write_ms: u64,
    pub busy_ms: u64,
    pub queue_ms: u64,
}

impl View for BlockCounters {
    type V = BlockCounters;

    open spec fn view(&self) -> BlockCounters {
        *self
    }
}

/// The counters that a block device statistics text gives.
pub open spec fn block_of(raw: Seq<char>) -> Option<BlockCounters> {
    match numbers_of(fields_of(raw)) {
        None => None,
        Some(v) => if v.len() < 11 {
            None
        } else {
            Some(
                BlockCounters {
                    reads: v[0],
                    sectors_read: v[2],
                    read_ms: v[3],
                    writes: v[4],
                    sectors_written: v[6],
                    write_ms: v[7],
                    busy_ms: v[9],
                    queue_ms: v[10],
                },
            )
        },
    }
}

/// Parses the counters of a block device.
pub fn parse_block(raw: &str) -> (r: Option<BlockCounters>)
    ensures
        r == block_of(raw@),
{
    let parts = fields(raw);
    assert(texts(parts@).skip(0) =~= texts(parts@));
    match numbers(&parts, 0) {
        None => None,
        Some(v) => {
            if v.len() < 11 {
                return None;
            }
            Some(
                BlockCounters {
                    reads: v[0],
                    sectors_read: v[2],
                    read_ms: v[3],
                    writes: v[4],
                    sectors_written: v[6],
                    write_ms: v[7],
                    busy_ms: v[9],
                    queue_ms: v[10],
                },
            )
        },
    }
}

// --------------------------------------------------------------------------
// Single numbers
// --------------------------------------------------------------------------

/// The first field of a text, if it writes a number.
pub open spec fn first_number_of(raw: Option<Seq<char>>) -> Option<Seq<char>> {
    match raw {
        None => None,
        Some(s) => if fields_of(s).len() > 0 && is_float(fields_of(s)[0]) {
            Some(fields_of(s)[0])
        } else {
            None
        },
    }
}

/// The first field of a text, if it writes a number.
pub fn first_number(raw: &Option<String>) -> (r: Option<String>)
    ensures
        optional(r) == first_number_of(optional(*raw)),
{
    match raw {
        None => None,
        Some(s) => {
            let f = fields(s.as_str());
            if f.len() == 0 {
                return None;
            }
            assert(texts(f@)[0] == f@[0]@);
            if float(f[0].as_str()) {
                Some(f[0].clone())
            } else {
                None
            }
        },
    }
}

/// A text without the white space around it, if there is one.
pub open spec fn trimmed_of(raw: Option<Seq<char>>) -> Option<Seq<char>> {
    match raw {
        None => None,
        Some(s) => Some(trim_of(s)),
    }
}

/// A text without the white space around it, if there is one.
pub fn trimmed(raw: &Option<String>) -> (r: Option<String>)
    ensures
        optional(r) == trimmed_of(optional(*raw)),
{
    match raw {
        None => None,
        Some(s) => Some(trim(s.as_str())),
    }
}

/// The memory page size that the system reports, or the usual one.
pub open spec fn page_size_of(reported: Option<i64>) -> u64 {
    match reported {
        Some(n) => if n >= 0 {
            n as u64
        } else {
            4096
        },
        None => 4096,
    }
}

/// The memory page size that the system reports, or the usual one.
pub fn page_size(reported: Option<i64>) -> (r: u64)
    ensures
        r == page_size_of(reported),
{
    match reported {
        Some(n) => if n >= 0 {
            n as u64
        } else {
            4096
        },
        None => 4096,
    }
}

} // verus!
