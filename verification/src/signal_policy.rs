//! Policies that decide which observations are emitted.

use crate::catalogue::{
    is_attribute, is_metric, is_source, metric_name_allowed, source_allowed,
};
use crate::rows::{flat, lemma_apart_reordered, lemma_flat_reordered, lemma_mapped_reordered};
use crate::schema::{
    rule_attributes_allowed, rule_attributes_valid, rule_reason_allowed, rule_reason_valid, views,
    Attributes, MetricPoint, Point, Quality,
};
use crate::series::{series_of, PointKey, Series};
use crate::table::{items_of, lemma_lists, lists, Duplicate, Table};
use crate::text::{byte_len, optional, same};
use vstd::prelude::*;

verus! {

// --------------------------------------------------------------------------
// Rules
// --------------------------------------------------------------------------

/// Which observations of a series are emitted: all, none, changes of value,
/// quality or error code, or all but repeated unavailable ones.
#[derive(Debug, Clone, Copy, PartialEq, Eq, Structural)]
pub enum SignalPolicy {
    Enabled,
    Disabled,
    StateChange,
    AvailabilityChange,
}

/// The points that a rule is for.
pub struct SignalSelector {
    pub source: String,
    pub metric: String,
    pub attributes: Attributes,
}

/// The content of a [`SignalSelector`].
#[verifier::ext_equal]
pub struct Selector {
    pub source: Seq<char>,
    pub metric: Seq<char>,
    pub attributes: Map<Seq<char>, Seq<char>>,
}

impl View for SignalSelector {
    type V = Selector;

    open spec fn view(&self) -> Selector {
        Selector {
            source: self.source@,
            metric: self.metric@,
            attributes: self.attributes@,
        }
    }
}

/// A policy for the points that a selector matches.
pub struct CompiledRule {
    pub selector: SignalSelector,
    pub policy: SignalPolicy,
    pub reason: String,
}

/// The content of a [`CompiledRule`].
pub struct Rule {
    pub selector: Selector,
    pub policy: SignalPolicy,
    pub reason: Seq<char>,
}

impl View for CompiledRule {
    type V = Rule;

    open spec fn view(&self) -> Rule {
        Rule { selector: self.selector@, policy: self.policy, reason: self.reason@ }
    }
}

/// The contents of a list of rules.
pub open spec fn rules_of(rules: Seq<CompiledRule>) -> Seq<Rule> {
    rules.map_values(|r: CompiledRule| r@)
}

/// All that a selector gives is found in a point.
pub open spec fn selects<W>(s: Selector, p: Point<W>) -> bool {
    &&& s.source == p.source
    &&& s.metric == p.name
    &&& forall|k: Seq<char>| #[trigger]
        s.attributes.contains_key(k) ==> p.attributes.contains_key(k) && p.attributes[k]
            == s.attributes[k]
}

/// Two equally specific selectors that do not contradict each other.
pub open spec fn overlaps(a: Selector, b: Selector) -> bool {
    &&& a.source == b.source
    &&& a.metric == b.metric
    &&& a.attributes.len() == b.attributes.len()
    &&& forall|k: Seq<char>| #[trigger]
        a.attributes.contains_key(k) && b.attributes.contains_key(k) ==> a.attributes[k]
            == b.attributes[k]
}

/// The rule for a point: of those that match it one with the most attributes.
pub open spec fn rule_for<W>(rules: Seq<Rule>, p: Point<W>) -> Option<Rule>
    decreases rules.len(),
{
    if rules.len() == 0 {
        None
    } else {
        let r = rules.last();
        match rule_for(rules.drop_last(), p) {
            Some(best) => if selects(r.selector, p) && r.selector.attributes.len()
                >= best.selector.attributes.len() {
                Some(r)
            } else {
                Some(best)
            },
            None => if selects(r.selector, p) {
                Some(r)
            } else {
                None
            },
        }
    }
}

/// The policy for a point; without a rule everything is emitted.
pub open spec fn policy_for_point<W>(rules: Seq<Rule>, p: Point<W>) -> SignalPolicy {
    match rule_for(rules, p) {
        Some(r) => r.policy,
        None => SignalPolicy::Enabled,
    }
}

/// No two rules are equally specific and can match one point.
pub open spec fn unambiguous(rules: Seq<Rule>) -> bool {
    forall|i: int, j: int|
        0 <= i < j < rules.len() ==> !overlaps(
            (#[trigger] rules[i]).selector,
            (#[trigger] rules[j]).selector,
        )
}

impl SignalSelector {
    fn matches(&self, point: &MetricPoint<u64>) -> (r: bool)
        ensures
            r == selects(self@, point@),
    {
        if !same(self.source.as_str(), point.source.as_str()) || !same(
            self.metric.as_str(),
            point.name.as_str(),
        ) {
            return false;
        }
        let ghost items = items_of::<String, Seq<char>>(self.attributes@);
        let n: usize = self.attributes.len();
        let mut i: usize = 0;
        while i < n
            invariant
                i <= n == items.len(),
                items == items_of::<String, Seq<char>>(self.attributes@),
                lists::<String, Seq<char>>(items, self.attributes@),
                forall|j: int|
                    0 <= j < i ==> point@.attributes.contains_key((#[trigger] items[j]).0)
                        && point@.attributes[items[j].0] == items[j].1,
            decreases n - i,
        {
            let key = self.attributes.key_at(i);
            let value = self.attributes.value_at(i);
            let found = match point.attributes.get(key) {
                Some(v) => same(v.as_str(), value.as_str()),
                None => false,
            };
            if !found {
                assert(self@.attributes.contains_key(key@));
                return false;
            }
            i += 1;
        }
        proof {
            lemma_lists::<String, Seq<char>>(items, self.attributes@);
            assert forall|k: Seq<char>| #[trigger]
                self@.attributes.contains_key(k) implies point@.attributes.contains_key(k)
                && point@.attributes[k] == self@.attributes[k] by {
                let j = choose|j: int| 0 <= j < items.len() && (#[trigger] items[j]).0 == k;
                assert(items[j].1 == self.attributes@[k]);
            }
        }
        true
    }

    /// Whether two equally specific selectors can match the same point.
    pub fn can_overlap(&self, other: &Self) -> (r: bool)
        ensures
            r == overlaps(self@, other@),
    {
        if !same(self.source.as_str(), other.source.as_str()) || !same(
            self.metric.as_str(),
            other.metric.as_str(),
        ) || self.attributes.len() != other.attributes.len() {
            return false;
        }
        let ghost items = items_of::<String, Seq<char>>(self.attributes@);
        let n: usize = self.attributes.len();
        let mut i: usize = 0;
        while i < n
            invariant
                i <= n == items.len(),
                items == items_of::<String, Seq<char>>(self.attributes@),
                lists::<String, Seq<char>>(items, self.attributes@),
                forall|j: int|
                    0 <= j < i && other@.attributes.contains_key((#[trigger] items[j]).0)
                        ==> other@.attributes[items[j].0] == items[j].1,
            decreases n - i,
        {
            let key = self.attributes.key_at(i);
            let value = self.attributes.value_at(i);
            let agrees = match other.attributes.get(key) {
                Some(v) => same(v.as_str(), value.as_str()),
                None => true,
            };
            if !agrees {
                assert(self@.attributes.contains_key(key@) && other@.attributes.contains_key(key@));
                return false;
            }
            i += 1;
        }
        proof {
            lemma_lists::<String, Seq<char>>(items, self.attributes@);
            assert forall|k: Seq<char>| #[trigger]
                self@.attributes.contains_key(k) && other@.attributes.contains_key(
                    k,
                ) implies self@.attributes[k] == other@.attributes[k] by {
                let j = choose|j: int| 0 <= j < items.len() && (#[trigger] items[j]).0 == k;
                assert(items[j].1 == self.attributes@[k]);
            }
        }
        true
    }
}

// --------------------------------------------------------------------------
// Loading
// --------------------------------------------------------------------------

/// A file with rules.
pub struct PolicyFile {
    pub signal_policy: Vec<PolicyEntry>,
}

/// A rule of a file.
pub struct PolicyEntry {
    pub source: String,
    pub metric: String,
    pub attributes: Attributes,
    pub policy: SignalPolicy,
    pub reason: String,
}

/// The rules to load.
pub enum PolicySource {
    /// No rules are configured.
    Unconfigured,
    /// The rules could not be read.
    Unreadable,
    /// The files of the configured directory, in the order of their paths.
    Files(Vec<PolicyFile>),
}

/// Why rules are refused.
#[derive(Debug)]
pub enum PolicyError {
    Unreadable,
    UnknownMetric { metric: String },
    UnknownSource { source: String },
    InvalidAttribute,
    InvalidReason,
    Ambiguous { metric: String, source: String, first: String, second: String },
}

/// The content of a [`PolicyError`].
pub enum PolicyRefusal {
    Unreadable,
    UnknownMetric { metric: Seq<char> },
    UnknownSource { source: Seq<char> },
    InvalidAttribute,
    InvalidReason,
    Ambiguous { metric: Seq<char>, source: Seq<char>, first: Seq<char>, second: Seq<char> },
}

impl View for PolicyError {
    type V = PolicyRefusal;

    open spec fn view(&self) -> PolicyRefusal {
        match *self {
            PolicyError::Unreadable => PolicyRefusal::Unreadable,
            PolicyError::UnknownMetric { metric } => PolicyRefusal::UnknownMetric {
                metric: metric@,
            },
            PolicyError::UnknownSource { source } => PolicyRefusal::UnknownSource {
                source: source@,
            },
            PolicyError::InvalidAttribute => PolicyRefusal::InvalidAttribute,
            PolicyError::InvalidReason => PolicyRefusal::InvalidReason,
            PolicyError::Ambiguous { metric, source, first, second } => PolicyRefusal::Ambiguous {
                metric: metric@,
                source: source@,
                first: first@,
                second: second@,
            },
        }
    }
}

/// What is wrong with an entry.
pub open spec fn entry_refusal(e: PolicyEntry) -> Option<PolicyRefusal> {
    if !is_metric(e.metric@) {
        Some(PolicyRefusal::UnknownMetric { metric: e.metric@ })
    } else if !is_source(e.source@) {
        Some(PolicyRefusal::UnknownSource { source: e.source@ })
    } else if !rule_attributes_valid(e.attributes@) {
        Some(PolicyRefusal::InvalidAttribute)
    } else if !rule_reason_valid(e.reason@) {
        Some(PolicyRefusal::InvalidReason)
    } else {
        None
    }
}

/// The rule that an entry gives.
pub open spec fn rule_of(e: PolicyEntry) -> Rule {
    Rule {
        selector: Selector { source: e.source@, metric: e.metric@, attributes: e.attributes@ },
        policy: e.policy,
        reason: e.reason@,
    }
}

/// The first rule that overlaps another.
pub open spec fn first_overlap(rules: Seq<Rule>, s: Selector) -> Option<Rule>
    decreases rules.len(),
{
    if rules.len() == 0 {
        None
    } else if overlaps(rules[0].selector, s) {
        Some(rules[0])
    } else {
        first_overlap(rules.skip(1), s)
    }
}

/// The rules with one more entry.
pub open spec fn with_entry(rules: Seq<Rule>, e: PolicyEntry) -> Result<Seq<Rule>, PolicyRefusal> {
    match entry_refusal(e) {
        Some(refusal) => Err(refusal),
        None => match first_overlap(rules, rule_of(e).selector) {
            Some(existing) => Err(
                PolicyRefusal::Ambiguous {
                    metric: e.metric@,
                    source: e.source@,
                    first: existing.reason,
                    second: e.reason@,
                },
            ),
            None => Ok(rules.push(rule_of(e))),
        },
    }
}

/// The rules that some entries give.
pub open spec fn with_entries(rules: Seq<Rule>, es: Seq<PolicyEntry>) -> Result<
    Seq<Rule>,
    PolicyRefusal,
>
    decreases es.len(),
{
    if es.len() == 0 {
        Ok(rules)
    } else {
        match with_entries(rules, es.drop_last()) {
            Ok(rules) => with_entry(rules, es.last()),
            Err(refusal) => Err(refusal),
        }
    }
}

/// The rules that some files give.
pub open spec fn with_policy_files(fs: Seq<PolicyFile>) -> Result<Seq<Rule>, PolicyRefusal>
    decreases fs.len(),
{
    if fs.len() == 0 {
        Ok(seq![])
    } else {
        match with_policy_files(fs.drop_last()) {
            Ok(rules) => with_entries(rules, fs.last().signal_policy@),
            Err(refusal) => Err(refusal),
        }
    }
}

/// The rules that a source gives.
pub open spec fn loaded(source: PolicySource) -> Result<Seq<Rule>, PolicyRefusal> {
    match source {
        PolicySource::Unconfigured => Ok(seq![]),
        PolicySource::Unreadable => Err(PolicyRefusal::Unreadable),
        PolicySource::Files(fs) => with_policy_files(fs@),
    }
}

/// The content of an optional error.
pub open spec fn policy_refusal_view(e: Option<PolicyError>) -> Option<PolicyRefusal> {
    match e {
        Some(x) => Some(x@),
        None => None,
    }
}

impl PolicyEntry {
    fn validate(&self) -> (r: Option<PolicyError>)
        ensures
            policy_refusal_view(r) == entry_refusal(*self),
    {
        if !metric_name_allowed(self.metric.as_str()) {
            return Some(PolicyError::UnknownMetric { metric: self.metric.clone() });
        }
        if !source_allowed(self.source.as_str()) {
            return Some(PolicyError::UnknownSource { source: self.source.clone() });
        }
        if !rule_attributes_allowed(&self.attributes) {
            return Some(PolicyError::InvalidAttribute);
        }
        if !rule_reason_allowed(self.reason.as_str()) {
            return Some(PolicyError::InvalidReason);
        }
        None
    }

    fn to_rule(&self) -> (r: CompiledRule)
        ensures
            r@ == rule_of(*self),
    {
        CompiledRule {
            selector: SignalSelector {
                source: self.source.clone(),
                metric: self.metric.clone(),
                attributes: self.attributes.duplicate(),
            },
            policy: self.policy,
            reason: self.reason.clone(),
        }
    }
}

#[verifier::loop_isolation(false)]
fn find_overlap(rules: &Vec<CompiledRule>, selector: &SignalSelector) -> (r: Option<String>)
    ensures
        optional(r) == (match first_overlap(rules_of(rules@), selector@) {
            Some(existing) => Some(existing.reason),
            None => None,
        }),
{
    let ghost all = rules_of(rules@);
    let mut i: usize = 0;
    assert(all.skip(0) =~= all);
    while i < rules.len()
        invariant
            i <= rules@.len(),
            all == rules_of(rules@),
            first_overlap(all, selector@) == first_overlap(all.skip(i as int), selector@),
        decreases rules@.len() - i,
    {
        assert(all.skip(i as int)[0] == rules@[i as int]@);
        assert(all.skip(i as int).skip(1) =~= all.skip(i + 1));
        if rules[i].selector.can_overlap(selector) {
            return Some(rules[i].reason.clone());
        }
        i += 1;
    }
    None
}

fn add_entry(rules: &mut Vec<CompiledRule>, e: &PolicyEntry) -> (r: Option<PolicyError>)
    ensures
        match with_entry(rules_of(old(rules)@), *e) {
            Ok(next) => r is None && rules_of(final(rules)@) == next,
            Err(refusal) => policy_refusal_view(r) == Some(refusal),
        },
{
    match e.validate() {
        Some(error) => {
            return Some(error);
        },
        None => {},
    }
    let rule = e.to_rule();
    match find_overlap(rules, &rule.selector) {
        Some(first) => Some(
            PolicyError::Ambiguous {
                metric: e.metric.clone(),
                source: e.source.clone(),
                first,
                second: e.reason.clone(),
            },
        ),
        None => {
            let ghost before = rules@;
            rules.push(rule);
            assert(rules_of(rules@) =~= rules_of(before).push(rule@));
            None
        },
    }
}

proof fn lemma_entries_stop(rules: Seq<Rule>, es: Seq<PolicyEntry>, i: int)
    requires
        0 <= i <= es.len(),
        with_entries(rules, es.take(i)) is Err,
    ensures
        with_entries(rules, es) == with_entries(rules, es.take(i)),
    decreases es.len() - i,
{
    if i < es.len() {
        assert(es.take(i + 1).drop_last() =~= es.take(i));
        lemma_entries_stop(rules, es, i + 1);
    } else {
        assert(es.take(i) =~= es);
    }
}

proof fn lemma_policy_files_stop(fs: Seq<PolicyFile>, i: int)
    requires
        0 <= i <= fs.len(),
        with_policy_files(fs.take(i)) is Err,
    ensures
        with_policy_files(fs) == with_policy_files(fs.take(i)),
    decreases fs.len() - i,
{
    if i < fs.len() {
        assert(fs.take(i + 1).drop_last() =~= fs.take(i));
        lemma_policy_files_stop(fs, i + 1);
    } else {
        assert(fs.take(i) =~= fs);
    }
}

#[verifier::loop_isolation(false)]
fn add_file(rules: &mut Vec<CompiledRule>, f: &PolicyFile) -> (r: Option<PolicyError>)
    ensures
        match with_entries(rules_of(old(rules)@), f.signal_policy@) {
            Ok(next) => r is None && rules_of(final(rules)@) == next,
            Err(refusal) => policy_refusal_view(r) == Some(refusal),
        },
{
    let ghost start = rules_of(rules@);
    let ghost all = f.signal_policy@;
    let mut i: usize = 0;
    while i < f.signal_policy.len()
        invariant
            i <= f.signal_policy@.len(),
            all == f.signal_policy@,
            with_entries(start, all.take(i as int)) == Ok::<Seq<Rule>, PolicyRefusal>(
                rules_of(rules@),
            ),
        decreases f.signal_policy@.len() - i,
    {
        assert(all.take(i + 1).drop_last() =~= all.take(i as int));
        match add_entry(rules, &f.signal_policy[i]) {
            Some(e) => {
                proof {
                    lemma_entries_stop(start, all, i + 1);
                }
                return Some(e);
            },
            None => {},
        }
        i += 1;
    }
    assert(all.take(i as int) =~= all);
    None
}

/// The rules that are loaded together.
pub struct SignalPolicySet {
    rules: Vec<CompiledRule>,
}

impl View for SignalPolicySet {
    type V = Seq<Rule>;

    closed spec fn view(&self) -> Seq<Rule> {
        rules_of(self.rules@)
    }
}

/// Loads the rules of some files.
#[verifier::loop_isolation(false)]
pub fn load_policy_directory(files: &Vec<PolicyFile>) -> (r: Result<SignalPolicySet, PolicyError>)
    ensures
        match with_policy_files(files@) {
            Ok(rules) => r matches Ok(set) && set@ == rules,
            Err(refusal) => r matches Err(e) && e@ == refusal,
        },
{
    let mut rules: Vec<CompiledRule> = Vec::new();
    let ghost all = files@;
    let mut i: usize = 0;
    assert(rules_of(rules@) =~= seq![]);
    while i < files.len()
        invariant
            i <= files@.len(),
            all == files@,
            with_policy_files(all.take(i as int)) == Ok::<Seq<Rule>, PolicyRefusal>(
                rules_of(rules@),
            ),
        decreases files@.len() - i,
    {
        assert(all.take(i + 1).drop_last() =~= all.take(i as int));
        match add_file(&mut rules, &files[i]) {
            Some(e) => {
                proof {
                    lemma_policy_files_stop(all, i + 1);
                }
                return Err(e);
            },
            None => {},
        }
        i += 1;
    }
    assert(all.take(i as int) =~= all);
    Ok(SignalPolicySet { rules })
}

impl SignalPolicySet {
    /// The policy for a point.
    pub fn policy_for(&self, point: &MetricPoint<u64>) -> (r: SignalPolicy)
        ensures
            r == policy_for_point(self@, point@),
    {
        let ghost all = rules_of(self.rules@);
        let mut best: Option<(usize, SignalPolicy)> = None;
        let mut i: usize = 0;
        while i < self.rules.len()
            invariant
                i <= self.rules@.len(),
                all == rules_of(self.rules@),
                match best {
                    Some((n, policy)) => rule_for(all.take(i as int), point@) matches Some(r)
                        && r.policy == policy && r.selector.attributes.len() == n,
                    None => rule_for(all.take(i as int), point@) is None,
                },
            decreases self.rules@.len() - i,
        {
            assert(all.take(i + 1).drop_last() =~= all.take(i as int));
            assert(all.take(i + 1).last() == self.rules@[i as int]@);
            let rule = &self.rules[i];
            if rule.selector.matches(point) {
                let n = rule.selector.attributes.len();
                match best {
                    Some((m, _)) => {
                        if n >= m {
                            best = Some((n, rule.policy));
                        }
                    },
                    None => {
                        best = Some((n, rule.policy));
                    },
                }
            }
            i += 1;
        }
        assert(all.take(i as int) =~= all);
        match best {
            Some((_, policy)) => policy,
            None => SignalPolicy::Enabled,
        }
    }
}

// --------------------------------------------------------------------------
// Emission
// --------------------------------------------------------------------------

/// What a state change is about.
pub struct ObservationState {
    pub value_bits: Option<u64>,
    pub quality: Quality,
    pub error_code: Option<String>,
}

/// The content of an [`ObservationState`].
pub struct Observation {
    pub value: Option<u64>,
    pub quality: Quality,
    pub error_code: Option<Seq<char>>,
}

impl View for ObservationState {
    type V = Observation;

    open spec fn view(&self) -> Observation {
        Observation {
            value: self.value_bits,
            quality: self.quality,
            error_code: optional(self.error_code),
        }
    }
}

/// What a point says of its state.
pub open spec fn observation_of(p: Point<u64>) -> Observation {
    Observation { value: p.value, quality: p.quality, error_code: p.error_code }
}

/// The rules and what was observed of the series that they are for.
#[verifier::ext_equal]
pub struct Emission {
    pub rules: Seq<Rule>,
    pub states: Map<Series, Observation>,
    pub availability: Map<Series, bool>,
}

/// Whether a point is emitted.
pub open spec fn emitted(e: Emission, p: Point<u64>) -> bool {
    let k = series_of(p);
    match policy_for_point(e.rules, p) {
        SignalPolicy::Enabled => true,
        SignalPolicy::Disabled => false,
        SignalPolicy::StateChange => !(e.states.contains_key(k) && e.states[k] == observation_of(
            p,
        )),
        SignalPolicy::AvailabilityChange => p.value is Some || !(e.availability.contains_key(k)
            && !e.availability[k]),
    }
}

/// What is known after a point.
pub open spec fn after_point(e: Emission, p: Point<u64>) -> Emission {
    let k = series_of(p);
    match policy_for_point(e.rules, p) {
        SignalPolicy::Enabled => e,
        SignalPolicy::Disabled => e,
        SignalPolicy::StateChange => Emission {
            states: e.states.insert(k, observation_of(p)),
            ..e
        },
        SignalPolicy::AvailabilityChange => Emission {
            availability: e.availability.insert(k, p.value is Some),
            ..e
        },
    }
}

/// What is known after some points.
pub open spec fn after_points(e: Emission, ps: Seq<Point<u64>>) -> Emission
    decreases ps.len(),
{
    if ps.len() == 0 {
        e
    } else {
        after_point(after_points(e, ps.drop_last()), ps.last())
    }
}

/// The points that are emitted, each judged by what is known when it comes.
pub open spec fn kept(e: Emission, ps: Seq<Point<u64>>) -> Seq<Point<u64>>
    decreases ps.len(),
{
    if ps.len() == 0 {
        seq![]
    } else {
        let before = kept(e, ps.drop_last());
        if emitted(after_points(e, ps.drop_last()), ps.last()) {
            before.push(ps.last())
        } else {
            before
        }
    }
}

/// Decides which points are emitted.
pub struct SignalEmitter {
    policies: SignalPolicySet,
    states: Table<PointKey, ObservationState>,
    availability: Table<PointKey, bool>,
}

impl View for SignalEmitter {
    type V = Emission;

    closed spec fn view(&self) -> Emission {
        Emission {
            rules: self.policies@,
            states: self.states@,
            availability: self.availability@,
        }
    }
}

fn same_optional(a: &Option<String>, b: &Option<String>) -> (r: bool)
    ensures
        r == (optional(*a) == optional(*b)),
{
    match (a, b) {
        (Some(x), Some(y)) => same(x.as_str(), y.as_str()),
        (None, None) => true,
        _ => false,
    }
}

fn same_bits(a: Option<u64>, b: Option<u64>) -> (r: bool)
    ensures
        r == (a == b),
{
    match (a, b) {
        (Some(x), Some(y)) => x == y,
        (None, None) => true,
        _ => false,
    }
}

impl SignalEmitter {
    /// An emitter with the rules at `source`.
    pub fn load(source: &PolicySource) -> (r: Result<Self, PolicyError>)
        ensures
            match loaded(*source) {
                Ok(rules) => r matches Ok(emitter) && emitter@ == (Emission {
                    rules,
                    states: Map::empty(),
                    availability: Map::empty(),
                }),
                Err(refusal) => r matches Err(e) && e@ == refusal,
            },
    {
        let policies = match source {
            PolicySource::Unconfigured => {
                let rules: Vec<CompiledRule> = Vec::new();
                assert(rules_of(rules@) =~= seq![]);
                SignalPolicySet { rules }
            },
            PolicySource::Unreadable => {
                return Err(PolicyError::Unreadable);
            },
            PolicySource::Files(files) => match load_policy_directory(files) {
                Ok(set) => set,
                Err(e) => {
                    return Err(e);
                },
            },
        };
        Ok(SignalEmitter { policies, states: Table::new(), availability: Table::new() })
    }

    /// Whether a point is emitted; takes note of what it says.
    pub fn should_emit(&mut self, point: &MetricPoint<u64>) -> (r: bool)
        ensures
            r == emitted(old(self)@, point@),
            final(self)@ == after_point(old(self)@, point@),
    {
        let policy = self.policies.policy_for(point);
        let key = PointKey::of(point);
        match policy {
            SignalPolicy::Enabled => true,
            SignalPolicy::Disabled => false,
            SignalPolicy::StateChange => {
                let code = match &point.error_code {
                    Some(code) => Some(code.clone()),
                    None => None,
                };
                let next = ObservationState {
                    value_bits: point.value,
                    quality: point.quality,
                    error_code: code,
                };
                match self.states.insert(key, next) {
                    Some(previous) => !(same_bits(previous.value_bits, point.value)
                        && previous.quality == point.quality && same_optional(
                        &previous.error_code,
                        &point.error_code,
                    )),
                    None => true,
                }
            },
            SignalPolicy::AvailabilityChange => {
                let available = point.value.is_some();
                match self.availability.insert(key, available) {
                    Some(previous) => available || previous,
                    None => true,
                }
            },
        }
    }

    /// Leaves out the points that are not emitted.
    pub fn filter(&mut self, points: Vec<MetricPoint<u64>>) -> (r: Vec<MetricPoint<u64>>)
        ensures
            views(r@) == kept(old(self)@, views(points@)),
            final(self)@ == after_points(old(self)@, views(points@)),
    {
        let ghost start = self@;
        let ghost all = views(points@);
        let mut out: Vec<MetricPoint<u64>> = crate::schema::no_points();
        let mut i: usize = 0;
        while i < points.len()
            invariant
                i <= points@.len(),
                all == views(points@),
                self@ == after_points(start, all.take(i as int)),
                views(out@) == kept(start, all.take(i as int)),
            decreases points@.len() - i,
        {
            assert(all.take(i + 1).drop_last() =~= all.take(i as int));
            assert(all.take(i + 1).last() == points@[i as int]@);
            if self.should_emit(&points[i]) {
                crate::schema::emit(&mut out, points[i].duplicate());
            }
            i += 1;
        }
        assert(all.take(i as int) =~= all);
        out
    }
}

// --------------------------------------------------------------------------
// Laws
// --------------------------------------------------------------------------

/// The entries of a file.
pub open spec fn file_entries() -> spec_fn(PolicyFile) -> Seq<PolicyEntry> {
    |f: PolicyFile| f.signal_policy@
}

/// The entries of some files.
pub open spec fn entries(fs: Seq<PolicyFile>) -> Seq<PolicyEntry> {
    flat(fs, file_entries())
}

/// The rules that entries give.
pub open spec fn rules_in(es: Seq<PolicyEntry>) -> Seq<Rule> {
    es.map_values(|e: PolicyEntry| rule_of(e))
}

/// Nothing is wrong with any entry, and no two are equally specific and can
/// match one point.
pub open spec fn acceptable(es: Seq<PolicyEntry>) -> bool {
    &&& forall|i: int| 0 <= i < es.len() ==> entry_refusal(#[trigger] es[i]) is None
    &&& unambiguous(rules_in(es))
}

proof fn lemma_first_overlap(rules: Seq<Rule>, s: Selector)
    ensures
        first_overlap(rules, s) is None <==> forall|i: int|
            0 <= i < rules.len() ==> !overlaps((#[trigger] rules[i]).selector, s),
    decreases rules.len(),
{
    if rules.len() > 0 {
        lemma_first_overlap(rules.skip(1), s);
        if first_overlap(rules, s) is None {
            assert forall|i: int| 0 <= i < rules.len() implies !overlaps(
                (#[trigger] rules[i]).selector,
                s,
            ) by {
                if i > 0 {
                    assert(rules.skip(1)[i - 1] == rules[i]);
                }
            }
        } else if !overlaps(rules[0].selector, s) {
            let i = choose|i: int|
                0 <= i < rules.skip(1).len() && overlaps(
                    (#[trigger] rules.skip(1)[i]).selector,
                    s,
                );
            assert(rules[i + 1] == rules.skip(1)[i]);
        }
    }
}

proof fn lemma_one_more(es: Seq<PolicyEntry>, e: PolicyEntry)
    ensures
        acceptable(es.push(e)) <==> acceptable(es) && entry_refusal(e) is None && first_overlap(
            rules_in(es),
            rule_of(e).selector,
        ) is None,
        rules_in(es.push(e)) == rules_in(es).push(rule_of(e)),
{
    let fs = es.push(e);
    let n = es.len() as int;
    let rules = rules_in(es);
    assert(rules_in(fs) =~= rules.push(rule_of(e)));
    lemma_first_overlap(rules, rule_of(e).selector);
    if acceptable(fs) {
        assert forall|i: int| 0 <= i < n implies entry_refusal(#[trigger] es[i]) is None by {
            assert(fs[i] == es[i]);
        }
        assert forall|i: int, j: int| 0 <= i < j < n implies !overlaps(
            (#[trigger] rules[i]).selector,
            (#[trigger] rules[j]).selector,
        ) by {
            assert(rules_in(fs)[i] == rules[i]);
            assert(rules_in(fs)[j] == rules[j]);
        }
        assert(fs[n] == e);
        assert forall|i: int| 0 <= i < n implies !overlaps(
            (#[trigger] rules[i]).selector,
            rule_of(e).selector,
        ) by {
            assert(rules_in(fs)[i] == rules[i]);
            assert(rules_in(fs)[n] == rule_of(e));
        }
    }
    if acceptable(es) && entry_refusal(e) is None && first_overlap(rules, rule_of(e).selector)
        is None {
        assert forall|i: int| 0 <= i < fs.len() implies entry_refusal(#[trigger] fs[i]) is None by {
            if i < n {
                assert(fs[i] == es[i]);
            }
        }
    }
}

proof fn lemma_entries(ds: Seq<PolicyEntry>, es: Seq<PolicyEntry>)
    requires
        acceptable(ds),
    ensures
        with_entries(rules_in(ds), es) is Ok <==> acceptable(ds + es),
        with_entries(rules_in(ds), es) matches Ok(rules) ==> rules == rules_in(ds + es),
    decreases es.len(),
{
    if es.len() == 0 {
        assert(ds + es =~= ds);
    } else {
        lemma_entries(ds, es.drop_last());
        assert(ds + es =~= (ds + es.drop_last()).push(es.last()));
        lemma_one_more(ds + es.drop_last(), es.last());
    }
}

proof fn lemma_shorter(ds: Seq<PolicyEntry>, es: Seq<PolicyEntry>)
    requires
        acceptable(ds + es),
    ensures
        acceptable(ds),
    decreases es.len(),
{
    if es.len() == 0 {
        assert(ds + es =~= ds);
    } else {
        assert(ds + es =~= (ds + es.drop_last()).push(es.last()));
        lemma_one_more(ds + es.drop_last(), es.last());
        lemma_shorter(ds, es.drop_last());
    }
}

/// Rules are accepted exactly where nothing is wrong with any of them and no
/// two are equally specific and can match one point; what is accepted are the
/// rules of all the files.
pub proof fn law_rules_are_accepted_unless_ambiguous(fs: Seq<PolicyFile>)
    ensures
        with_policy_files(fs) is Ok <==> acceptable(entries(fs)),
        with_policy_files(fs) matches Ok(rules) ==> rules == rules_in(entries(fs)),
    decreases fs.len(),
{
    if fs.len() == 0 {
        assert(rules_in(entries(fs)) =~= seq![]);
    } else {
        law_rules_are_accepted_unless_ambiguous(fs.drop_last());
        let before = entries(fs.drop_last());
        let more = fs.last().signal_policy@;
        assert(entries(fs) == before + more);
        match with_policy_files(fs.drop_last()) {
            Ok(_) => {
                lemma_entries(before, more);
            },
            Err(_) => {
                if acceptable(before + more) {
                    lemma_shorter(before, more);
                }
            },
        }
    }
}

/// Rules that are loaded together are never ambiguous.
pub proof fn law_loaded_rules_are_unambiguous(source: PolicySource)
    ensures
        loaded(source) matches Ok(rules) ==> unambiguous(rules),
{
    match source {
        PolicySource::Files(fs) => {
            law_rules_are_accepted_unless_ambiguous(fs@);
        },
        _ => {},
    }
}

/// Two selectors overlap exactly if they are equally specific and some point
/// matches both; either way round, and each overlaps itself.
pub proof fn law_overlap_means_a_common_point(a: Selector, b: Selector)
    ensures
        overlaps(a, b) <==> a.attributes.len() == b.attributes.len() && exists|p: Point<u64>|
            #[trigger] selects(a, p) && selects(b, p),
        overlaps(a, b) == overlaps(b, a),
        overlaps(a, a),
{
    if overlaps(a, b) {
        let p: Point<u64> = Point {
            name: a.metric,
            instrument: crate::schema::InstrumentKind::Gauge,
            value: None,
            unit: seq![],
            quality: Quality::Stale,
            source: a.source,
            attributes: a.attributes.union_prefer_right(b.attributes),
            error_code: None,
        };
        assert forall|k: Seq<char>| #[trigger] a.attributes.contains_key(
            k,
        ) implies p.attributes.contains_key(k) && p.attributes[k] == a.attributes[k] by {
            if b.attributes.contains_key(k) {
                assert(a.attributes.contains_key(k) && b.attributes.contains_key(k));
            }
        }
        assert(selects(a, p) && selects(b, p));
    }
    if exists|p: Point<u64>| #[trigger] selects(a, p) && selects(b, p) {
        let p = choose|p: Point<u64>| #[trigger] selects(a, p) && selects(b, p);
        assert forall|k: Seq<char>| #[trigger] a.attributes.contains_key(k)
            && b.attributes.contains_key(k) implies a.attributes[k] == b.attributes[k] by {
            assert(p.attributes[k] == a.attributes[k]);
            assert(p.attributes[k] == b.attributes[k]);
        }
    }
    if overlaps(b, a) {
        assert forall|k: Seq<char>| #[trigger] a.attributes.contains_key(k)
            && b.attributes.contains_key(k) implies a.attributes[k] == b.attributes[k] by {
            assert(b.attributes.contains_key(k) && a.attributes.contains_key(k));
        }
    }
    if overlaps(a, b) {
        assert forall|k: Seq<char>| #[trigger] b.attributes.contains_key(k)
            && a.attributes.contains_key(k) implies b.attributes[k] == a.attributes[k] by {
            assert(a.attributes.contains_key(k) && b.attributes.contains_key(k));
        }
    }
}

proof fn lemma_rule_for(rules: Seq<Rule>, p: Point<u64>)
    ensures
        match rule_for(rules, p) {
            Some(best) => {
                &&& exists|i: int| 0 <= i < rules.len() && #[trigger] rules[i] == best
                &&& selects(best.selector, p)
                &&& forall|i: int|
                    0 <= i < rules.len() && selects((#[trigger] rules[i]).selector, p)
                        ==> rules[i].selector.attributes.len()
                        <= best.selector.attributes.len()
            },
            None => forall|i: int|
                0 <= i < rules.len() ==> !selects((#[trigger] rules[i]).selector, p),
        },
    decreases rules.len(),
{
    if rules.len() > 0 {
        let n = rules.len() - 1;
        let before = rules.drop_last();
        lemma_rule_for(before, p);
        assert(rules[n] == rules.last());
        assert forall|i: int| 0 <= i < n implies rules[i] == #[trigger] before[i] by {}
        match rule_for(before, p) {
            Some(best) => {
                let i = choose|i: int| 0 <= i < before.len() && #[trigger] before[i] == best;
                assert(rules[i] == best);
            },
            None => {},
        }
        assert forall|i: int| 0 <= i < rules.len() && selects(
            (#[trigger] rules[i]).selector,
            p,
        ) implies rule_for(rules, p) is Some && rules[i].selector.attributes.len() <= rule_for(
            rules,
            p,
        )->0.selector.attributes.len() by {
            if i < n {
                assert(before[i] == rules[i]);
            }
        }
    }
}

/// Where rules are unambiguous, the policy for a point is that of the one
/// matching rule with the most attributes, in whatever order the rules stand.
pub proof fn law_most_specific_rule_decides(rules: Seq<Rule>, p: Point<u64>, i: int)
    requires
        unambiguous(rules),
        0 <= i < rules.len(),
        selects(rules[i].selector, p),
        forall|j: int|
            0 <= j < rules.len() && selects((#[trigger] rules[j]).selector, p)
                ==> rules[j].selector.attributes.len() <= rules[i].selector.attributes.len(),
    ensures
        policy_for_point(rules, p) == rules[i].policy,
{
    lemma_rule_for(rules, p);
    let best = rule_for(rules, p)->0;
    let k = choose|k: int| 0 <= k < rules.len() && #[trigger] rules[k] == best;
    law_overlap_means_a_common_point(rules[i].selector, rules[k].selector);
    assert(selects(rules[i].selector, p) && selects(rules[k].selector, p));
    if i < k {
        assert(!overlaps(rules[i].selector, rules[k].selector));
    } else if k < i {
        assert(!overlaps(rules[k].selector, rules[i].selector));
    }
}

proof fn lemma_rules_reordered(rules: Seq<Rule>, others: Seq<Rule>, p: Point<u64>)
    requires
        rules.to_multiset() == others.to_multiset(),
        unambiguous(rules),
    ensures
        unambiguous(others),
        policy_for_point(others, p) == policy_for_point(rules, p),
{
    broadcast use vstd::seq_lib::group_to_multiset_ensures;

    let compete = |a: Rule, b: Rule| overlaps(a.selector, b.selector);
    assert forall|a: Rule, b: Rule| #[trigger] compete(a, b) implies compete(b, a) by {
        law_overlap_means_a_common_point(a.selector, b.selector);
    }
    assert forall|i: int, j: int| 0 <= i < j < rules.len() implies !compete(
        #[trigger] rules[i],
        #[trigger] rules[j],
    ) by {}
    lemma_apart_reordered(rules, others, compete);
    assert forall|i: int, j: int| 0 <= i < j < others.len() implies !overlaps(
        (#[trigger] others[i]).selector,
        (#[trigger] others[j]).selector,
    ) by {
        assert(!compete(others[i], others[j]));
    }
    lemma_rule_for(rules, p);
    lemma_rule_for(others, p);
    match rule_for(others, p) {
        Some(best) => {
            let k = choose|k: int| 0 <= k < others.len() && #[trigger] others[k] == best;
            assert(others.contains(best));
            assert(rules.to_multiset().count(best) > 0);
            let i = choose|i: int| 0 <= i < rules.len() && rules[i] == best;
            assert forall|j: int| 0 <= j < rules.len() && selects(
                (#[trigger] rules[j]).selector,
                p,
            ) implies rules[j].selector.attributes.len() <= rules[i].selector.attributes.len() by {
                assert(rules.contains(rules[j]));
                assert(others.to_multiset().count(rules[j]) > 0);
                let l = choose|l: int| 0 <= l < others.len() && others[l] == rules[j];
                assert(selects(others[l].selector, p));
            }
            law_most_specific_rule_decides(rules, p, i);
        },
        None => {
            if rule_for(rules, p) is Some {
                let best = rule_for(rules, p)->0;
                let i = choose|i: int| 0 <= i < rules.len() && #[trigger] rules[i] == best;
                assert(rules.contains(best));
                assert(others.to_multiset().count(best) > 0);
                let l = choose|l: int| 0 <= l < others.len() && others[l] == best;
                assert(selects(others[l].selector, p));
            }
        },
    }
}

/// The order of the files is no precedence: the same files in another order are
/// accepted as well, and give every point the same policy.
pub proof fn law_file_order_does_not_decide(
    fs: Seq<PolicyFile>,
    gs: Seq<PolicyFile>,
    p: Point<u64>,
)
    requires
        fs.to_multiset() == gs.to_multiset(),
        with_policy_files(fs) is Ok,
    ensures
        with_policy_files(gs) is Ok,
        policy_for_point(with_policy_files(fs)->Ok_0, p) == policy_for_point(
            with_policy_files(gs)->Ok_0,
            p,
        ),
{
    broadcast use vstd::seq_lib::group_to_multiset_ensures;

    let es = entries(fs);
    let ds = entries(gs);
    law_rules_are_accepted_unless_ambiguous(fs);
    law_rules_are_accepted_unless_ambiguous(gs);
    lemma_flat_reordered(fs, gs, file_entries());
    lemma_mapped_reordered(es, ds, |e: PolicyEntry| rule_of(e));
    lemma_rules_reordered(rules_in(es), rules_in(ds), p);
    assert forall|i: int| 0 <= i < ds.len() implies entry_refusal(#[trigger] ds[i]) is None by {
        assert(ds.contains(ds[i]));
        assert(es.to_multiset().count(ds[i]) > 0);
        let j = choose|j: int| 0 <= j < es.len() && es[j] == ds[i];
        assert(entry_refusal(es[j]) is None);
    }
}

/// Under the state-change policy a point is emitted exactly if it is the first
/// of its series or differs from the one before in value, quality or error
/// code.
pub proof fn law_state_change_emits_changes(e: Emission, first: Point<u64>, second: Point<u64>)
    requires
        policy_for_point(e.rules, first) == SignalPolicy::StateChange,
        series_of(second) == series_of(first),
        policy_for_point(e.rules, second) == SignalPolicy::StateChange,
    ensures
        !e.states.contains_key(series_of(first)) ==> emitted(e, first),
        emitted(after_point(e, first), second) == (observation_of(first) != observation_of(
            second,
        )),
{
}

/// Under the availability-change policy every available point is emitted, the
/// first unavailable one is, and repeated unavailable ones are not.
pub proof fn law_availability_change_drops_repeats(
    e: Emission,
    first: Point<u64>,
    second: Point<u64>,
)
    requires
        policy_for_point(e.rules, first) == SignalPolicy::AvailabilityChange,
        series_of(second) == series_of(first),
        policy_for_point(e.rules, second) == SignalPolicy::AvailabilityChange,
    ensures
        first.value is Some ==> emitted(e, first),
        !e.availability.contains_key(series_of(first)) ==> emitted(e, first),
        emitted(after_point(e, first), second) == (first.value is Some || second.value is Some),
{
}

/// Under the enabled policy every point is emitted, under the disabled one none,
/// and neither takes note of anything.
pub proof fn law_enabled_points_are_emitted(e: Emission, p: Point<u64>)
    ensures
        policy_for_point(e.rules, p) == SignalPolicy::Enabled ==> emitted(e, p) && after_point(e, p)
            == e,
        policy_for_point(e.rules, p) == SignalPolicy::Disabled ==> !emitted(e, p) && after_point(
            e,
            p,
        ) == e,
{
}

/// A point that no rule is for is emitted.
pub proof fn law_points_without_a_rule_are_emitted(e: Emission, p: Point<u64>)
    requires
        forall|i: int| 0 <= i < e.rules.len() ==> !selects((#[trigger] e.rules[i]).selector, p),
    ensures
        emitted(e, p),
{
    lemma_rule_for(e.rules, p);
}

/// A rule is for the points of its source and of its metric that have all its
/// attributes.
pub proof fn law_rules_are_for_their_points(s: Selector, p: Point<u64>, k: Seq<char>)
    ensures
        s.source != p.source ==> !selects(s, p),
        s.metric != p.name ==> !selects(s, p),
        s.attributes.contains_key(k) && !p.attributes.contains_key(k) ==> !selects(s, p),
        s.attributes.contains_key(k) && p.attributes.contains_key(k) && p.attributes[k]
            != s.attributes[k] ==> !selects(s, p),
        s.source == p.source && s.metric == p.name && s.attributes == p.attributes ==> selects(
            s,
            p,
        ),
        s.source == p.source && s.metric == p.name && s.attributes == Map::<
            Seq<char>,
            Seq<char>,
        >::empty() ==> selects(s, p),
        selects(s, p) && !p.attributes.contains_key(k) ==> selects(
            s,
            Point { attributes: p.attributes.insert(k, s.source), ..p },
        ),
{
}

/// Under the state-change policy a point that follows another of its series is
/// left out exactly if its value, its quality and its error code are the same.
pub proof fn law_unchanged_points_are_left_out(e: Emission, p: Point<u64>, q: Point<u64>)
    requires
        policy_for_point(e.rules, p) == SignalPolicy::StateChange,
        policy_for_point(e.rules, q) == SignalPolicy::StateChange,
        series_of(p) == series_of(q),
    ensures
        emitted(after_point(e, p), q) == (p.value != q.value || p.quality != q.quality
            || p.error_code != q.error_code),
{
}

/// What is noted of one series does not matter to another, and the rules stay.
pub proof fn law_series_are_judged_apart(e: Emission, p: Point<u64>, q: Point<u64>)
    requires
        series_of(p) != series_of(q),
    ensures
        emitted(after_point(e, p), q) == emitted(e, q),
        after_point(e, p).rules == e.rules,
{
}

/// Points are judged in their order, each by what the ones before it left, and
/// those that are emitted stay as they are and in their order.
pub proof fn law_points_are_judged_in_order(e: Emission, ps: Seq<Point<u64>>, p: Point<u64>)
    ensures
        emitted(after_points(e, ps), p) ==> kept(e, ps.push(p)) == kept(e, ps).push(p),
        !emitted(after_points(e, ps), p) ==> kept(e, ps.push(p)) == kept(e, ps),
        after_points(e, ps.push(p)) == after_point(after_points(e, ps), p),
        kept(e, Seq::empty()) == Seq::<Point<u64>>::empty(),
        after_points(e, Seq::empty()) == e,
{
    assert(ps.push(p).drop_last() =~= ps);
}

/// An entry has to name a known metric, a known source, known attributes with
/// values of 1 to 256 bytes, and a reason of 1 to 256 bytes; the first that it
/// does not is what it is refused for. The rule that it gives says the same.
pub proof fn law_entries_are_checked(entry: PolicyEntry)
    ensures
        ({
            let refusal = entry_refusal(entry);
            let metric = is_metric(entry.metric@);
            let source = is_source(entry.source@);
            let attributes = forall|k: Seq<char>| #[trigger]
                entry.attributes@.contains_key(k) ==> is_attribute(k)
                    && entry.attributes@[k].len() > 0 && byte_len(entry.attributes@[k]) <= 256;
            let reason = entry.reason@.len() > 0 && byte_len(entry.reason@) <= 256;
            &&& refusal is None <==> metric && source && attributes && reason
            &&& !metric ==> refusal == Some(
                PolicyRefusal::UnknownMetric { metric: entry.metric@ },
            )
            &&& metric && !source ==> refusal == Some(
                PolicyRefusal::UnknownSource { source: entry.source@ },
            )
            &&& metric && source && !attributes ==> refusal == Some(
                PolicyRefusal::InvalidAttribute,
            )
            &&& metric && source && attributes && !reason ==> refusal == Some(
                PolicyRefusal::InvalidReason,
            )
        }),
        rule_of(entry).policy == entry.policy,
        rule_of(entry).reason == entry.reason@,
        rule_of(entry).selector.source == entry.source@,
        rule_of(entry).selector.metric == entry.metric@,
        rule_of(entry).selector.attributes == entry.attributes@,
{
}

/// An entry that overlaps rules is refused with the reason of the first of them
/// and its own.
pub proof fn law_ambiguous_entries_name_both_reasons(
    rules: Seq<Rule>,
    entry: PolicyEntry,
    i: int,
)
    requires
        entry_refusal(entry) is None,
        0 <= i < rules.len(),
        overlaps(rules[i].selector, rule_of(entry).selector),
        forall|j: int|
            0 <= j < i ==> !overlaps((#[trigger] rules[j]).selector, rule_of(entry).selector),
    ensures
        with_entry(rules, entry) == Err::<Seq<Rule>, PolicyRefusal>(
            PolicyRefusal::Ambiguous {
                metric: entry.metric@,
                source: entry.source@,
                first: rules[i].reason,
                second: entry.reason@,
            },
        ),
{
    lemma_overlap_at(rules, rule_of(entry).selector, i);
}

proof fn lemma_overlap_at(rules: Seq<Rule>, s: Selector, i: int)
    requires
        0 <= i < rules.len(),
        overlaps(rules[i].selector, s),
        forall|j: int| 0 <= j < i ==> !overlaps((#[trigger] rules[j]).selector, s),
    ensures
        first_overlap(rules, s) == Some(rules[i]),
    decreases i,
{
    if i > 0 {
        let rest = rules.skip(1);
        assert(rest[i - 1] == rules[i]);
        assert forall|j: int| 0 <= j < i - 1 implies !overlaps(
            (#[trigger] rest[j]).selector,
            s,
        ) by {
            assert(rest[j] == rules[j + 1]);
        }
        lemma_overlap_at(rest, s, i - 1);
    }
}

/// Without configured rules there are none, and rules that cannot be read are
/// refused.
pub proof fn law_sources_of_rules_are_read(source: PolicySource)
    ensures
        source is Unconfigured ==> loaded(source) == Ok::<Seq<Rule>, PolicyRefusal>(Seq::empty()),
        source is Unreadable ==> loaded(source) == Err::<Seq<Rule>, PolicyRefusal>(
            PolicyRefusal::Unreadable,
        ),
        source matches PolicySource::Files(fs) ==> loaded(source) == with_policy_files(fs@),
{
}

} // verus!
