//! Metric series: a metric from a source with a set of attributes.

use crate::schema::{Attributes, MetricPoint, Point};
use crate::table::{items_of, lemma_lists, lists, Duplicate, Key};
use crate::text::{
    before, lemma_before_irreflexive, lemma_before_total, lemma_before_transitive, precedes, same,
};
use vstd::prelude::*;

verus! {

/// A listing of attributes in the order of their names.
pub type Listing = Seq<(Seq<char>, Seq<char>)>;

/// A metric from a source with some attributes.
#[verifier::ext_equal]
pub struct Series {
    pub source: Seq<char>,
    pub metric: Seq<char>,
    pub attributes: Listing,
}

/// The order of two attributes: by name, then by value.
pub open spec fn attribute_before(a: (Seq<char>, Seq<char>), b: (Seq<char>, Seq<char>)) -> bool {
    before(a.0, b.0) || a.0 == b.0 && before(a.1, b.1)
}

/// The order of two listings: by the first attribute in which they differ; a
/// listing stands behind its beginnings.
pub open spec fn listing_before(a: Listing, b: Listing) -> bool
    decreases a.len(),
{
    if b.len() == 0 {
        false
    } else if a.len() == 0 {
        true
    } else {
        attribute_before(a[0], b[0]) || a[0] == b[0] && listing_before(a.skip(1), b.skip(1))
    }
}

proof fn lemma_listing_irreflexive(a: Listing)
    ensures
        !listing_before(a, a),
    decreases a.len(),
{
    if a.len() > 0 {
        lemma_before_irreflexive(a[0].0);
        lemma_before_irreflexive(a[0].1);
        lemma_listing_irreflexive(a.skip(1));
    }
}

proof fn lemma_attribute_transitive(
    a: (Seq<char>, Seq<char>),
    b: (Seq<char>, Seq<char>),
    c: (Seq<char>, Seq<char>),
)
    requires
        attribute_before(a, b),
        attribute_before(b, c),
    ensures
        attribute_before(a, c),
{
    if before(a.0, b.0) && before(b.0, c.0) {
        lemma_before_transitive(a.0, b.0, c.0);
    }
    if a.0 == b.0 && b.0 == c.0 {
        lemma_before_irreflexive(a.0);
        lemma_before_transitive(a.1, b.1, c.1);
    }
}

proof fn lemma_listing_transitive(a: Listing, b: Listing, c: Listing)
    requires
        listing_before(a, b),
        listing_before(b, c),
    ensures
        listing_before(a, c),
    decreases a.len(),
{
    if a.len() > 0 {
        if attribute_before(a[0], b[0]) && attribute_before(b[0], c[0]) {
            lemma_attribute_transitive(a[0], b[0], c[0]);
        } else if a[0] == b[0] && b[0] == c[0] {
            if !attribute_before(a[0], c[0]) {
                lemma_listing_transitive(a.skip(1), b.skip(1), c.skip(1));
            }
        }
    }
}

proof fn lemma_listing_total(a: Listing, b: Listing)
    ensures
        listing_before(a, b) || listing_before(b, a) || a == b,
    decreases a.len(),
{
    if a.len() == 0 || b.len() == 0 {
        if a.len() == b.len() {
            assert(a =~= b);
        }
    } else {
        lemma_before_total(a[0].0, b[0].0);
        lemma_before_total(a[0].1, b[0].1);
        lemma_listing_total(a.skip(1), b.skip(1));
        if a[0] == b[0] && a.skip(1) == b.skip(1) {
            assert(a =~= seq![a[0]] + a.skip(1));
            assert(b =~= seq![b[0]] + b.skip(1));
        }
    }
}

fn attributes_precede(a: &Attributes, b: &Attributes) -> (r: bool)
    ensures
        r == listing_before(
            items_of::<String, Seq<char>>(a@),
            items_of::<String, Seq<char>>(b@),
        ),
{
    let ghost x = items_of::<String, Seq<char>>(a@);
    let ghost y = items_of::<String, Seq<char>>(b@);
    let m: usize = a.len();
    let n: usize = b.len();
    let mut i: usize = 0;
    assert(x.skip(0) =~= x);
    assert(y.skip(0) =~= y);
    while i < m && i < n
        invariant
            i <= m == x.len(),
            i <= n == y.len(),
            x == items_of::<String, Seq<char>>(a@),
            y == items_of::<String, Seq<char>>(b@),
            listing_before(x, y) == listing_before(x.skip(i as int), y.skip(i as int)),
        decreases m - i,
    {
        assert(x.skip(i as int)[0] == x[i as int]);
        assert(y.skip(i as int)[0] == y[i as int]);
        assert(x.skip(i as int).skip(1) =~= x.skip(i + 1));
        assert(y.skip(i as int).skip(1) =~= y.skip(i + 1));
        let (ka, kb) = (a.key_at(i), b.key_at(i));
        let (va, vb) = (a.value_at(i), b.value_at(i));
        if precedes(ka.as_str(), kb.as_str()) {
            return true;
        }
        if !same(ka.as_str(), kb.as_str()) {
            return false;
        }
        if precedes(va.as_str(), vb.as_str()) {
            return true;
        }
        if !same(va.as_str(), vb.as_str()) {
            return false;
        }
        i += 1;
    }
    i < n
}

/// The order of two series: by source, then by metric, then by attributes.
pub open spec fn series_before(a: Series, b: Series) -> bool {
    before(a.source, b.source) || a.source == b.source && (before(a.metric, b.metric) || a.metric
        == b.metric && listing_before(a.attributes, b.attributes))
}

pub proof fn lemma_series_irreflexive(a: Series)
    ensures
        !series_before(a, a),
{
    lemma_before_irreflexive(a.source);
    lemma_before_irreflexive(a.metric);
    lemma_listing_irreflexive(a.attributes);
}

pub proof fn lemma_series_transitive(a: Series, b: Series, c: Series)
    requires
        series_before(a, b),
        series_before(b, c),
    ensures
        series_before(a, c),
{
    if before(a.source, b.source) && before(b.source, c.source) {
        lemma_before_transitive(a.source, b.source, c.source);
    } else if a.source == b.source && b.source == c.source {
        if before(a.metric, b.metric) && before(b.metric, c.metric) {
            lemma_before_transitive(a.metric, b.metric, c.metric);
        } else if a.metric == b.metric && b.metric == c.metric && listing_before(
            a.attributes,
            b.attributes,
        ) && listing_before(b.attributes, c.attributes) {
            lemma_listing_transitive(a.attributes, b.attributes, c.attributes);
        }
    }
}

pub proof fn lemma_series_total(a: Series, b: Series)
    ensures
        series_before(a, b) || series_before(b, a) || a == b,
{
    lemma_before_total(a.source, b.source);
    lemma_before_total(a.metric, b.metric);
    lemma_listing_total(a.attributes, b.attributes);
}

/// Whether one series stands before another; each is given by its source, its
/// metric and its attributes.
pub fn series_precedes(a: (&str, &str, &Attributes), b: (&str, &str, &Attributes)) -> (r: bool)
    ensures
        r == series_before(
            Series {
                source: a.0@,
                metric: a.1@,
                attributes: items_of::<String, Seq<char>>(a.2@),
            },
            Series {
                source: b.0@,
                metric: b.1@,
                attributes: items_of::<String, Seq<char>>(b.2@),
            },
        ),
{
    if precedes(a.0, b.0) {
        true
    } else if !same(a.0, b.0) {
        false
    } else if precedes(a.1, b.1) {
        true
    } else if !same(a.1, b.1) {
        false
    } else {
        attributes_precede(a.2, b.2)
    }
}

/// The series that a point belongs to.
pub struct PointKey {
    pub source: String,
    pub metric: String,
    pub attributes: Attributes,
}

impl View for PointKey {
    type V = Series;

    open spec fn view(&self) -> Series {
        Series {
            source: self.source@,
            metric: self.metric@,
            attributes: items_of::<String, Seq<char>>(self.attributes@),
        }
    }
}

impl Key for PointKey {
    open spec fn before(a: Series, b: Series) -> bool {
        series_before(a, b)
    }

    proof fn irreflexive(a: Series) {
        lemma_series_irreflexive(a);
    }

    proof fn transitive(a: Series, b: Series, c: Series) {
        lemma_series_transitive(a, b, c);
    }

    proof fn total(a: Series, b: Series) {
        lemma_series_total(a, b);
    }

    fn precedes(&self, other: &Self) -> (r: bool) {
        series_precedes(
            (self.source.as_str(), self.metric.as_str(), &self.attributes),
            (other.source.as_str(), other.metric.as_str(), &other.attributes),
        )
    }
}

/// The series that a point belongs to.
pub open spec fn series_of<W>(p: Point<W>) -> Series {
    Series {
        source: p.source,
        metric: p.name,
        attributes: items_of::<String, Seq<char>>(p.attributes),
    }
}

impl PointKey {
    /// The series that a point belongs to.
    pub fn of(point: &MetricPoint<u64>) -> (r: Self)
        ensures
            r@ == series_of(point@),
    {
        PointKey {
            source: point.source.clone(),
            metric: point.name.clone(),
            attributes: point.attributes.duplicate(),
        }
    }
}

/// Two points are of one series exactly if they have the same source, the same
/// metric and the same attributes; their values do not matter.
pub proof fn law_points_of_a_series_share_their_names<W>(
    p: Point<W>,
    q: Point<W>,
    a: Listing,
    b: Listing,
)
    requires
        lists::<String, Seq<char>>(a, p.attributes),
        lists::<String, Seq<char>>(b, q.attributes),
    ensures
        series_of(p) == series_of(q) <==> p.source == q.source && p.name == q.name && p.attributes
            == q.attributes,
{
    lemma_lists::<String, Seq<char>>(a, p.attributes);
    lemma_lists::<String, Seq<char>>(b, q.attributes);
}

/// Series stand in the order of their sources, then of their metrics, then of
/// the first attribute in which they differ.
pub proof fn law_series_are_ordered_by_source(a: Series, b: Series)
    ensures
        before(a.source, b.source) ==> series_before(a, b),
        a.source == b.source && before(a.metric, b.metric) ==> series_before(a, b),
        a.source == b.source && a.metric == b.metric && a.attributes.len() == 0
            && b.attributes.len() > 0 ==> series_before(a, b),
        a.source == b.source && a.metric == b.metric && a.attributes.len() > 0
            && b.attributes.len() > 0 && before(a.attributes[0].0, b.attributes[0].0)
            ==> series_before(a, b),
        a.source == b.source && a.metric == b.metric && a.attributes.len() > 0
            && b.attributes.len() > 0 && a.attributes[0].0 == b.attributes[0].0 && before(
            a.attributes[0].1,
            b.attributes[0].1,
        ) ==> series_before(a, b),
{
}

} // verus!
