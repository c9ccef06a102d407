//! The inventory of the host.

use crate::linux::inventory::{inventory, inventory_of, noted, InventoryFiles, Properties};
use crate::linux::parse::{trimmed, trimmed_of};
use crate::schema::Attributes;
use crate::table::{items_of, lists};
use crate::text::{decimal, lines, lines_of, optional, same, strip_prefix, strip_prefix_of, texts, u64_text};
use vstd::prelude::*;

verus! {

/// The files behind what the agent adds to the hardware inventory.
pub struct HostFiles {
    /// The content of `/proc/sys/kernel/osrelease`.
    pub kernel: Option<String>,
    /// The content of `/sys/class/dmi/id/product_name`.
    pub product: Option<String>,
    /// The content of `/sys/class/dmi/id/board_name`.
    pub board: Option<String>,
    /// The content of `/proc/cpuinfo`.
    pub cpuinfo: Option<String>,
    /// The number of logical processors, where it is known.
    pub processors: Option<u64>,
}

/// The model that the first line with one names.
pub open spec fn model_in(rows: Seq<Seq<char>>) -> Option<Seq<char>>
    decreases rows.len(),
{
    if rows.len() == 0 {
        None
    } else {
        match strip_prefix_of(rows[0], "model name\t: "@) {
            Some(model) => Some(model),
            None => model_in(rows.skip(1)),
        }
    }
}

/// The model of the processor.
pub open spec fn model_of(cpuinfo: Option<Seq<char>>) -> Option<Seq<char>> {
    match cpuinfo {
        Some(raw) => model_in(lines_of(raw)),
        None => None,
    }
}

/// The inventory of a host.
pub open spec fn host_inventory_of(hardware: InventoryFiles, host: HostFiles) -> Properties {
    let m = inventory_of(hardware);
    let m = noted(m, "host.kernel.version"@, trimmed_of(optional(host.kernel)));
    let m = noted(m, "host.product.name"@, trimmed_of(optional(host.product)));
    let m = noted(m, "host.board.name"@, trimmed_of(optional(host.board)));
    let m = noted(m, "host.cpu.model"@, model_of(optional(host.cpuinfo)));
    noted(
        m,
        "host.cpu.logical.count"@,
        match host.processors {
            Some(n) => Some(decimal(n as nat)),
            None => None,
        },
    )
}

fn find_model(raw: &str) -> (r: Option<String>)
    ensures
        optional(r) == model_in(lines_of(raw@)),
{
    let rows = lines(raw);
    let ghost all = texts(rows@);
    let mut i: usize = 0;
    assert(all.skip(0) =~= all);
    while i < rows.len()
        invariant
            i <= rows@.len(),
            all == texts(rows@),
            all == lines_of(raw@),
            model_in(all) == model_in(all.skip(i as int)),
        decreases rows@.len() - i,
    {
        assert(all.skip(i as int)[0] == rows@[i as int]@);
        assert(all.skip(i as int).skip(1) =~= all.skip(i + 1));
        match strip_prefix(rows[i].as_str(), "model name\t: ") {
            Some(model) => {
                return Some(model);
            },
            None => {},
        }
        i += 1;
    }
    None
}

fn note(m: &mut Attributes, key: &str, value: Option<String>)
    ensures
        final(m)@ == noted(old(m)@, key@, optional(value)),
{
    match value {
        Some(v) => {
            m.insert(key.to_owned(), v);
        },
        None => {},
    }
}

/// The inventory of a host.
pub fn host_inventory(hardware: &InventoryFiles, host: &HostFiles) -> (r: Attributes)
    ensures
        r@ == host_inventory_of(*hardware, *host),
{
    let mut m = inventory(hardware);
    note(&mut m, "host.kernel.version", trimmed(&host.kernel));
    note(&mut m, "host.product.name", trimmed(&host.product));
    note(&mut m, "host.board.name", trimmed(&host.board));
    let model = match &host.cpuinfo {
        Some(raw) => find_model(raw.as_str()),
        None => None,
    };
    note(&mut m, "host.cpu.model", model);
    let processors = match host.processors {
        Some(n) => Some(u64_text(n)),
        None => None,
    };
    note(&mut m, "host.cpu.logical.count", processors);
    m
}

/// Whether two inventories are the same.
pub fn same_inventory(a: &Attributes, b: &Attributes) -> (r: bool)
    ensures
        r == (a@ == b@),
{
    let n: usize = a.len();
    if n != b.len() {
        return false;
    }
    let ghost x = items_of::<String, Seq<char>>(a@);
    let ghost y = items_of::<String, Seq<char>>(b@);
    let mut i: usize = 0;
    while i < n
        invariant
            i <= n == x.len(),
            n == y.len(),
            x == items_of::<String, Seq<char>>(a@),
            y == items_of::<String, Seq<char>>(b@),
            lists::<String, Seq<char>>(x, a@),
            lists::<String, Seq<char>>(y, b@),
            forall|j: int| 0 <= j < i ==> #[trigger] x[j] == y[j],
        decreases n - i,
    {
        if !same(a.key_at(i).as_str(), b.key_at(i).as_str()) || !same(
            a.value_at(i).as_str(),
            b.value_at(i).as_str(),
        ) {
            return false;
        }
        i += 1;
    }
    assert(x =~= y);
    true
}

} // verus!
