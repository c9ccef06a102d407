//! Which NVML properties are queried: hardware profiles, and properties that
//! turned out to be unsupported.

use crate::catalogue::{is_metric, metric_name_allowed};
use crate::rows::{flat, lemma_flat};
use crate::schema::{
    rule_attributes_allowed, rule_attributes_valid, rule_reason_allowed, rule_reason_valid,
    Attributes,
};
use crate::series::{
    lemma_series_irreflexive, lemma_series_total, lemma_series_transitive, series_before,
    series_precedes, Listing, Series,
};
use crate::table::{elements_of, items_of, lemma_lists, lists, Duplicate, Group, Key, Table};
use crate::text::{
    concat, decimal, lowercase, number_text, optional, same, to_lowercase,
};
use vstd::prelude::*;

verus! {

// --------------------------------------------------------------------------
// Keys
// --------------------------------------------------------------------------

/// A property that a collector can query: its source, its metric and the
/// attributes that set it apart from others of the metric.
pub struct CapabilityKey {
    pub source: String,
    pub metric: String,
    pub attributes: Attributes,
}

impl View for CapabilityKey {
    type V = Series;

    open spec fn view(&self) -> Series {
        Series {
            source: self.source@,
            metric: self.metric@,
            attributes: items_of::<String, Seq<char>>(self.attributes@),
        }
    }
}

impl CapabilityKey {
    #[must_use]
    pub fn new(source: &str, metric: &str, attributes: Attributes) -> (r: Self)
        ensures
            r@ == (Series {
                source: source@,
                metric: metric@,
                attributes: items_of::<String, Seq<char>>(attributes@),
            }),
    {
        CapabilityKey { source: source.to_owned(), metric: metric.to_owned(), attributes }
    }
}

impl Duplicate for CapabilityKey {
    fn duplicate(&self) -> (r: Self) {
        CapabilityKey {
            source: self.source.clone(),
            metric: self.metric.clone(),
            attributes: self.attributes.duplicate(),
        }
    }
}

impl Key for CapabilityKey {
    open spec fn before(a: Series, b: Series) -> bool {
        series_before(a, b)
    }

    proof fn irreflexive(a: Series) {
        lemma_series_irreflexive(a);
    }

    proof fn transitive(a: Series, b: Series, c: Series) {
        lemma_series_transitive(a, b, c);
    }

    proof fn total(a: Series, b: Series) {
        lemma_series_total(a, b);
    }

    fn precedes(&self, other: &Self) -> (r: bool) {
        series_precedes(
            (self.source.as_str(), self.metric.as_str(), &self.attributes),
            (other.source.as_str(), other.metric.as_str(), &other.attributes),
        )
    }
}

// --------------------------------------------------------------------------
// Policies and identities
// --------------------------------------------------------------------------

/// Whether a property is queried: until it is known to be unsupported, always,
/// or never.
#[derive(Debug, Clone, Copy, PartialEq, Eq, Structural)]
pub enum CapabilityPolicy {
    Auto,
    Enabled,
    Disabled,
}

/// A policy and the reason for it.
pub struct CapabilityRule {
    pub policy: CapabilityPolicy,
    pub reason: String,
}

/// The content of a [`CapabilityRule`].
pub struct Ruling {
    pub policy: CapabilityPolicy,
    pub reason: Seq<char>,
}

impl View for CapabilityRule {
    type V = Ruling;

    open spec fn view(&self) -> Ruling {
        Ruling { policy: self.policy, reason: self.reason@ }
    }
}

impl Duplicate for CapabilityRule {
    fn duplicate(&self) -> (r: Self) {
        CapabilityRule { policy: self.policy, reason: self.reason.clone() }
    }
}

/// The GPUs of a host and their driver.
pub struct HardwareIdentity {
    pub gpu_products: Group<String>,
    pub pci_device_ids: Group<String>,
    pub driver_version: Option<String>,
}

/// The content of a [`HardwareIdentity`].
#[verifier::ext_equal]
pub struct Hardware {
    pub products: Set<Seq<char>>,
    pub pci_ids: Set<Seq<char>>,
    pub driver: Option<Seq<char>>,
}

impl View for HardwareIdentity {
    type V = Hardware;

    open spec fn view(&self) -> Hardware {
        Hardware {
            products: self.gpu_products@,
            pci_ids: self.pci_device_ids@,
            driver: optional(self.driver_version),
        }
    }
}

/// The driver version, or nothing.
pub open spec fn driver_of(h: Hardware) -> Seq<char> {
    match h.driver {
        Some(version) => version,
        None => ""@,
    }
}

/// The text of a string literal that stands for a string.
pub uninterp spec fn quoted_form(s: Seq<char>) -> Seq<char>;

/// Quotes a string with its special characters escaped, as the `Debug`
/// formatting of std's `str` does. What is escaped and how is left to std; the
/// result depends on the string alone.
#[verifier::external_body]
fn quote(s: &str) -> (r: String)
    ensures
        r@ == quoted_form(s@),
{
    format!("{s:?}")
}

/// The quoted elements of a list, separated by commas.
pub open spec fn quoted_list(s: Seq<Seq<char>>) -> Seq<char>
    decreases s.len(),
{
    if s.len() == 0 {
        ""@
    } else if s.len() == 1 {
        quoted_form(s[0])
    } else {
        quoted_list(s.drop_last()) + ", "@ + quoted_form(s.last())
    }
}

/// The quoted elements of a set in braces.
pub open spec fn quoted_set(s: Set<Seq<char>>) -> Seq<char> {
    "{"@ + quoted_list(elements_of::<String>(s)) + "}"@
}

/// A text that sets hardware apart from other hardware.
pub open spec fn lifecycle_key_of(h: Hardware) -> Seq<char> {
    "products="@ + quoted_set(h.products) + ";pci="@ + quoted_set(h.pci_ids) + ";driver="@
        + driver_of(h)
}

fn quote_set(s: &Group<String>) -> (r: String)
    ensures
        r@ == quoted_set(s@),
{
    let ghost all = elements_of::<String>(s@);
    let n: usize = s.len();
    let mut list = "".to_owned();
    let mut i: usize = 0;
    while i < n
        invariant
            i <= n == all.len(),
            all == elements_of::<String>(s@),
            list@ == quoted_list(all.take(i as int)),
        decreases n - i,
    {
        let quoted = quote(s.element_at(i).as_str());
        assert(all.take(i + 1).drop_last() =~= all.take(i as int));
        if i == 0 {
            list = quoted;
        } else {
            list = concat(list.as_str(), ", ");
            list = concat(list.as_str(), quoted.as_str());
        }
        i += 1;
    }
    assert(all.take(i as int) =~= all);
    let out = concat("{", list.as_str());
    concat(out.as_str(), "}")
}

impl HardwareIdentity {
    /// A text that sets this hardware apart from other hardware.
    #[must_use]
    pub fn lifecycle_key(&self) -> (r: String)
        ensures
            r@ == lifecycle_key_of(self@),
    {
        let products = quote_set(&self.gpu_products);
        let pci = quote_set(&self.pci_device_ids);
        let out = concat("products=", products.as_str());
        let out = concat(out.as_str(), ";pci=");
        let out = concat(out.as_str(), pci.as_str());
        let out = concat(out.as_str(), ";driver=");
        match &self.driver_version {
            Some(version) => concat(out.as_str(), version.as_str()),
            None => concat(out.as_str(), ""),
        }
    }
}

fn same_group(a: &Group<String>, b: &Group<String>) -> (r: bool)
    ensures
        r == (a@ == b@),
{
    let ghost x = elements_of::<String>(a@);
    let ghost y = elements_of::<String>(b@);
    let n: usize = a.len();
    if n != b.len() {
        return false;
    }
    let mut i: usize = 0;
    while i < n
        invariant
            i <= n == x.len(),
            n == y.len(),
            x == elements_of::<String>(a@),
            y == elements_of::<String>(b@),
            a@ == x.to_set(),
            b@ == y.to_set(),
            forall|j: int| 0 <= j < i ==> #[trigger] x[j] == y[j],
        decreases n - i,
    {
        if !same(a.element_at(i).as_str(), b.element_at(i).as_str()) {
            return false;
        }
        i += 1;
    }
    assert(x =~= y);
    true
}

// --------------------------------------------------------------------------
// Profiles
// --------------------------------------------------------------------------

/// The content of a file with hardware profiles.
pub struct ProfileFile {
    pub path: String,
    pub hardware_profile: Vec<HardwareProfile>,
}

/// Capabilities of the hardware that a selector matches.
pub struct HardwareProfile {
    pub id: String,
    pub selector: HardwareSelector,
    pub capability: Vec<ProfileCapability>,
}

/// The hardware that a profile is for.
pub struct HardwareSelector {
    pub gpu_product: Option<String>,
    pub pci_device_id: Option<String>,
}

/// The policy for one property.
pub struct ProfileCapability {
    pub metric: String,
    pub source: String,
    pub attributes: Attributes,
    pub policy: CapabilityPolicy,
    pub reason: String,
}

/// The hardware profiles to load.
pub enum ProfileSource {
    /// No profiles are configured.
    Unconfigured,
    /// The profiles could not be read.
    Unreadable,
    /// The profiles of the configured directory, in the order of their paths.
    Files(Vec<ProfileFile>),
}

/// Why hardware profiles are refused.
#[derive(Debug)]
pub enum CapabilityError {
    Unreadable,
    NoProfiles { path: String },
    ProfileId { id: String },
    SelectorMissing,
    SelectorEmpty,
    NoCapabilities { id: String },
    UnknownMetric { metric: String },
    UnknownSource { source: String },
    InvalidAttribute,
    InvalidReason,
    Ambiguous { metric: String, first: String, second: String },
}

/// The content of a [`CapabilityError`].
pub enum Refusal {
    Unreadable,
    NoProfiles { path: Seq<char> },
    ProfileId { id: Seq<char> },
    SelectorMissing,
    SelectorEmpty,
    NoCapabilities { id: Seq<char> },
    UnknownMetric { metric: Seq<char> },
    UnknownSource { source: Seq<char> },
    InvalidAttribute,
    InvalidReason,
    Ambiguous { metric: Seq<char>, first: Seq<char>, second: Seq<char> },
}

impl View for CapabilityError {
    type V = Refusal;

    open spec fn view(&self) -> Refusal {
        match *self {
            CapabilityError::Unreadable => Refusal::Unreadable,
            CapabilityError::NoProfiles { path } => Refusal::NoProfiles { path: path@ },
            CapabilityError::ProfileId { id } => Refusal::ProfileId { id: id@ },
            CapabilityError::SelectorMissing => Refusal::SelectorMissing,
            CapabilityError::SelectorEmpty => Refusal::SelectorEmpty,
            CapabilityError::NoCapabilities { id } => Refusal::NoCapabilities { id: id@ },
            CapabilityError::UnknownMetric { metric } => Refusal::UnknownMetric { metric: metric@ },
            CapabilityError::UnknownSource { source } => Refusal::UnknownSource { source: source@ },
            CapabilityError::InvalidAttribute => Refusal::InvalidAttribute,
            CapabilityError::InvalidReason => Refusal::InvalidReason,
            CapabilityError::Ambiguous { metric, first, second } => Refusal::Ambiguous {
                metric: metric@,
                first: first@,
                second: second@,
            },
        }
    }
}

/// What is wrong with a selector.
pub open spec fn selector_refusal(s: HardwareSelector) -> Option<Refusal> {
    let product = optional(s.gpu_product);
    let id = optional(s.pci_device_id);
    if product is None && id is None {
        Some(Refusal::SelectorMissing)
    } else if (product matches Some(p) && p.len() == 0) || (id matches Some(i) && i.len() == 0) {
        Some(Refusal::SelectorEmpty)
    } else {
        None
    }
}

/// All that a selector gives is found in the hardware.
pub open spec fn selects(s: HardwareSelector, h: Hardware) -> bool {
    &&& optional(s.gpu_product) matches Some(p) ==> h.products.contains(p)
    &&& optional(s.pci_device_id) matches Some(i) ==> h.pci_ids.contains(lowercase(i))
}

/// A selector with both fields is more specific than one with one of them.
pub open spec fn is_specific(s: HardwareSelector) -> bool {
    s.gpu_product is Some && s.pci_device_id is Some
}

/// What is wrong with a capability.
pub open spec fn capability_refusal(c: ProfileCapability) -> Option<Refusal> {
    if !is_metric(c.metric@) {
        Some(Refusal::UnknownMetric { metric: c.metric@ })
    } else if c.source@ != "nvml"@ {
        Some(Refusal::UnknownSource { source: c.source@ })
    } else if !rule_attributes_valid(c.attributes@) {
        Some(Refusal::InvalidAttribute)
    } else if !rule_reason_valid(c.reason@) {
        Some(Refusal::InvalidReason)
    } else {
        None
    }
}

/// What is wrong with the first capability with which something is wrong.
pub open spec fn capabilities_refusal(cs: Seq<ProfileCapability>) -> Option<Refusal>
    decreases cs.len(),
{
    if cs.len() == 0 {
        None
    } else {
        match capability_refusal(cs[0]) {
            Some(e) => Some(e),
            None => capabilities_refusal(cs.skip(1)),
        }
    }
}

/// What is wrong with a profile, where `ids` are already taken.
pub open spec fn profile_refusal(p: HardwareProfile, ids: Set<Seq<char>>) -> Option<Refusal> {
    if p.id@.len() == 0 || ids.contains(p.id@) {
        Some(Refusal::ProfileId { id: p.id@ })
    } else if selector_refusal(p.selector) is Some {
        selector_refusal(p.selector)
    } else if p.capability@.len() == 0 {
        Some(Refusal::NoCapabilities { id: p.id@ })
    } else {
        capabilities_refusal(p.capability@)
    }
}

/// The property that a capability is about.
pub open spec fn property_of(c: ProfileCapability) -> Series {
    Series {
        source: c.source@,
        metric: c.metric@,
        attributes: items_of::<String, Seq<char>>(c.attributes@),
    }
}

/// A rule and the profile that it stands in.
pub struct Choice {
    pub rule: CapabilityRule,
    pub profile: String,
}

/// The rules that were found for a property, by how specific their selector
/// is.
pub struct Choices {
    pub general: Option<Choice>,
    pub specific: Option<Choice>,
}

/// The content of a [`Choice`].
pub struct Found {
    pub rule: Ruling,
    pub profile: Seq<char>,
}

/// The content of [`Choices`].
pub struct Candidates {
    pub general: Option<Found>,
    pub specific: Option<Found>,
}

pub open spec fn found(c: Option<Choice>) -> Option<Found> {
    match c {
        Some(x) => Some(Found { rule: x.rule@, profile: x.profile@ }),
        None => None,
    }
}

impl View for Choices {
    type V = Candidates;

    open spec fn view(&self) -> Candidates {
        Candidates { general: found(self.general), specific: found(self.specific) }
    }
}

/// The candidates for each property.
pub type Selection = Map<Series, Candidates>;

/// The candidates for a property so far.
pub open spec fn candidates(m: Selection, k: Series) -> Candidates {
    if m.contains_key(k) {
        m[k]
    } else {
        Candidates { general: None, specific: None }
    }
}

/// The selection with a capability of the profile `id` added. Two rules for
/// one property with equally specific selectors are ambiguous.
pub open spec fn with_capability(
    m: Selection,
    c: ProfileCapability,
    specific: bool,
    id: Seq<char>,
) -> Result<Selection, Refusal> {
    let k = property_of(c);
    let had = candidates(m, k);
    let new = Some(
        Found { rule: Ruling { policy: c.policy, reason: c.reason@ }, profile: id },
    );
    let taken = if specific {
        had.specific
    } else {
        had.general
    };
    match taken {
        Some(first) => Err(
            Refusal::Ambiguous { metric: c.metric@, first: first.profile, second: id },
        ),
        None => Ok(
            m.insert(
                k,
                if specific {
                    Candidates { specific: new, ..had }
                } else {
                    Candidates { general: new, ..had }
                },
            ),
        ),
    }
}

/// The selection with the capabilities of a profile added.
pub open spec fn with_capabilities(
    m: Selection,
    cs: Seq<ProfileCapability>,
    specific: bool,
    id: Seq<char>,
) -> Result<Selection, Refusal>
    decreases cs.len(),
{
    if cs.len() == 0 {
        Ok(m)
    } else {
        match with_capabilities(m, cs.drop_last(), specific, id) {
            Ok(n) => with_capability(n, cs.last(), specific, id),
            Err(e) => Err(e),
        }
    }
}

/// The profiles seen so far and what they select.
#[verifier::ext_equal]
pub struct Progress {
    pub ids: Set<Seq<char>>,
    pub selection: Selection,
}

/// The progress with a profile added, if nothing is wrong with it. It selects
/// something only where its selector matches.
pub open spec fn with_profile(s: Progress, p: HardwareProfile, h: Hardware) -> Result<
    Progress,
    Refusal,
> {
    match profile_refusal(p, s.ids) {
        Some(e) => Err(e),
        None => {
            let ids = s.ids.insert(p.id@);
            if selects(p.selector, h) {
                match with_capabilities(s.selection, p.capability@, is_specific(p.selector), p.id@) {
                    Ok(selection) => Ok(Progress { ids, selection }),
                    Err(e) => Err(e),
                }
            } else {
                Ok(Progress { ids, selection: s.selection })
            }
        },
    }
}

pub open spec fn with_profiles(s: Progress, ps: Seq<HardwareProfile>, h: Hardware) -> Result<
    Progress,
    Refusal,
>
    decreases ps.len(),
{
    if ps.len() == 0 {
        Ok(s)
    } else {
        match with_profiles(s, ps.drop_last(), h) {
            Ok(t) => with_profile(t, ps.last(), h),
            Err(e) => Err(e),
        }
    }
}

/// The progress with a file added; a file has at least one profile.
pub open spec fn with_file(s: Progress, f: ProfileFile, h: Hardware) -> Result<Progress, Refusal> {
    if f.hardware_profile@.len() == 0 {
        Err(Refusal::NoProfiles { path: f.path@ })
    } else {
        with_profiles(s, f.hardware_profile@, h)
    }
}

/// The progress after some files.
pub open spec fn with_files(fs: Seq<ProfileFile>, h: Hardware) -> Result<Progress, Refusal>
    decreases fs.len(),
{
    if fs.len() == 0 {
        Ok(Progress { ids: Set::empty(), selection: Map::empty() })
    } else {
        match with_files(fs.drop_last(), h) {
            Ok(s) => with_file(s, fs.last(), h),
            Err(e) => Err(e),
        }
    }
}

/// The rule of the most specific candidate.
pub open spec fn winner(c: Candidates) -> Ruling {
    match c.specific {
        Some(f) => f.rule,
        None => c.general->0.rule,
    }
}

/// The rule for each selected property.
pub open spec fn winners(m: Selection) -> Map<Series, Ruling> {
    Map::new(|k: Series| m.contains_key(k), |k: Series| winner(m[k]))
}

/// The rules that some files give for some hardware.
pub open spec fn resolution(fs: Seq<ProfileFile>, h: Hardware) -> Result<
    Map<Series, Ruling>,
    Refusal,
> {
    match with_files(fs, h) {
        Ok(s) => Ok(winners(s.selection)),
        Err(e) => Err(e),
    }
}

/// The content of an optional error.
pub open spec fn refusal_view(e: Option<CapabilityError>) -> Option<Refusal> {
    match e {
        Some(x) => Some(x@),
        None => None,
    }
}

impl HardwareSelector {
    fn validate(&self) -> (r: Option<CapabilityError>)
        ensures
            refusal_view(r) == selector_refusal(*self),
    {
        if self.gpu_product.is_none() && self.pci_device_id.is_none() {
            return Some(CapabilityError::SelectorMissing);
        }
        let empty_product = match &self.gpu_product {
            Some(p) => p.as_str().is_empty(),
            None => false,
        };
        let empty_id = match &self.pci_device_id {
            Some(i) => i.as_str().is_empty(),
            None => false,
        };
        if empty_product || empty_id {
            return Some(CapabilityError::SelectorEmpty);
        }
        None
    }

    fn matches(&self, identity: &HardwareIdentity) -> (r: bool)
        ensures
            r == selects(*self, identity@),
    {
        let product = match &self.gpu_product {
            Some(p) => identity.gpu_products.contains(p),
            None => true,
        };
        let id = match &self.pci_device_id {
            Some(i) => identity.pci_device_ids.has(to_lowercase(i.as_str()).as_str()),
            None => true,
        };
        product && id
    }

    fn is_specific(&self) -> (r: bool)
        ensures
            r == is_specific(*self),
    {
        self.gpu_product.is_some() && self.pci_device_id.is_some()
    }
}

impl ProfileCapability {
    fn validate(&self) -> (r: Option<CapabilityError>)
        ensures
            refusal_view(r) == capability_refusal(*self),
    {
        if !metric_name_allowed(self.metric.as_str()) {
            return Some(CapabilityError::UnknownMetric { metric: self.metric.clone() });
        }
        if !same(self.source.as_str(), "nvml") {
            return Some(CapabilityError::UnknownSource { source: self.source.clone() });
        }
        if !rule_attributes_allowed(&self.attributes) {
            return Some(CapabilityError::InvalidAttribute);
        }
        if !rule_reason_allowed(self.reason.as_str()) {
            return Some(CapabilityError::InvalidReason);
        }
        None
    }

    fn key(&self) -> (r: CapabilityKey)
        ensures
            r@ == property_of(*self),
    {
        CapabilityKey::new(
            self.source.as_str(),
            self.metric.as_str(),
            self.attributes.duplicate(),
        )
    }
}

#[verifier::loop_isolation(false)]
fn validate_profile(p: &HardwareProfile, ids: &Group<String>) -> (r: Option<CapabilityError>)
    ensures
        refusal_view(r) == profile_refusal(*p, ids@),
{
    if p.id.as_str().is_empty() || ids.contains(&p.id) {
        return Some(CapabilityError::ProfileId { id: p.id.clone() });
    }
    match p.selector.validate() {
        Some(e) => {
            return Some(e);
        },
        None => {},
    }
    if p.capability.len() == 0 {
        return Some(CapabilityError::NoCapabilities { id: p.id.clone() });
    }
    let ghost all = p.capability@;
    let mut i: usize = 0;
    assert(all.skip(0) =~= all);
    while i < p.capability.len()
        invariant
            i <= p.capability@.len(),
            all == p.capability@,
            capabilities_refusal(all) == capabilities_refusal(all.skip(i as int)),
        decreases p.capability@.len() - i,
    {
        assert(all.skip(i as int)[0] == all[i as int]);
        assert(all.skip(i as int).skip(1) =~= all.skip(i + 1));
        match p.capability[i].validate() {
            Some(e) => {
                assert(capabilities_refusal(all) == Some(e@));
                return Some(e);
            },
            None => {},
        }
        i += 1;
    }
    None
}

fn duplicate_choice(c: &Option<Choice>) -> (r: Option<Choice>)
    ensures
        found(r) == found(*c),
{
    match c {
        Some(x) => Some(Choice { rule: x.rule.duplicate(), profile: x.profile.clone() }),
        None => None,
    }
}

fn select_capability(
    selected: &mut Table<CapabilityKey, Choices>,
    c: &ProfileCapability,
    specific: bool,
    id: &String,
) -> (r: Option<CapabilityError>)
    ensures
        match with_capability(old(selected)@, *c, specific, id@) {
            Ok(m) => r is None && final(selected)@ == m,
            Err(e) => refusal_view(r) == Some(e),
        },
{
    let key = c.key();
    let (general, most_specific) = match selected.get(&key) {
        Some(had) => (duplicate_choice(&had.general), duplicate_choice(&had.specific)),
        None => (None, None),
    };
    let rule = CapabilityRule { policy: c.policy, reason: c.reason.clone() };
    let new = Choice { rule, profile: id.clone() };
    let (taken, next) = if specific {
        let taken = match &most_specific {
            Some(first) => Some(first.profile.clone()),
            None => None,
        };
        (taken, Choices { general, specific: Some(new) })
    } else {
        let taken = match &general {
            Some(first) => Some(first.profile.clone()),
            None => None,
        };
        (taken, Choices { general: Some(new), specific: most_specific })
    };
    match taken {
        Some(first) => Some(
            CapabilityError::Ambiguous { metric: c.metric.clone(), first, second: id.clone() },
        ),
        None => {
            selected.insert(key, next);
            None
        },
    }
}

#[verifier::loop_isolation(false)]
fn select_profile(
    ids: &mut Group<String>,
    selected: &mut Table<CapabilityKey, Choices>,
    p: &HardwareProfile,
    identity: &HardwareIdentity,
) -> (r: Option<CapabilityError>)
    ensures
        match with_profile(
            Progress { ids: old(ids)@, selection: old(selected)@ },
            *p,
            identity@,
        ) {
            Ok(s) => r is None && final(ids)@ == s.ids && final(selected)@ == s.selection,
            Err(e) => refusal_view(r) == Some(e),
        },
{
    match validate_profile(p, ids) {
        Some(e) => {
            return Some(e);
        },
        None => {},
    }
    ids.insert(p.id.clone());
    if !p.selector.matches(identity) {
        return None;
    }
    let specific = p.selector.is_specific();
    let ghost start = selected@;
    let ghost all = p.capability@;
    let mut i: usize = 0;
    while i < p.capability.len()
        invariant
            i <= p.capability@.len(),
            all == p.capability@,
            with_capabilities(start, all.take(i as int), specific, p.id@) == Ok::<
                Selection,
                Refusal,
            >(selected@),
        decreases p.capability@.len() - i,
    {
        assert(all.take(i + 1).drop_last() =~= all.take(i as int));
        match select_capability(selected, &p.capability[i], specific, &p.id) {
            Some(e) => {
                proof {
                    lemma_capabilities_stop(start, all, i + 1, specific, p.id@);
                }
                return Some(e);
            },
            None => {},
        }
        i += 1;
    }
    assert(all.take(i as int) =~= all);
    None
}

proof fn lemma_capabilities_stop(
    m: Selection,
    cs: Seq<ProfileCapability>,
    i: int,
    specific: bool,
    id: Seq<char>,
)
    requires
        0 <= i <= cs.len(),
        with_capabilities(m, cs.take(i), specific, id) is Err,
    ensures
        with_capabilities(m, cs, specific, id) == with_capabilities(m, cs.take(i), specific, id),
    decreases cs.len() - i,
{
    if i < cs.len() {
        assert(cs.take(i + 1).drop_last() =~= cs.take(i));
        lemma_capabilities_stop(m, cs, i + 1, specific, id);
    } else {
        assert(cs.take(i) =~= cs);
    }
}

proof fn lemma_profiles_stop(s: Progress, ps: Seq<HardwareProfile>, i: int, h: Hardware)
    requires
        0 <= i <= ps.len(),
        with_profiles(s, ps.take(i), h) is Err,
    ensures
        with_profiles(s, ps, h) == with_profiles(s, ps.take(i), h),
    decreases ps.len() - i,
{
    if i < ps.len() {
        assert(ps.take(i + 1).drop_last() =~= ps.take(i));
        lemma_profiles_stop(s, ps, i + 1, h);
    } else {
        assert(ps.take(i) =~= ps);
    }
}

proof fn lemma_files_stop(fs: Seq<ProfileFile>, i: int, h: Hardware)
    requires
        0 <= i <= fs.len(),
        with_files(fs.take(i), h) is Err,
    ensures
        with_files(fs, h) == with_files(fs.take(i), h),
    decreases fs.len() - i,
{
    if i < fs.len() {
        assert(fs.take(i + 1).drop_last() =~= fs.take(i));
        lemma_files_stop(fs, i + 1, h);
    } else {
        assert(fs.take(i) =~= fs);
    }
}

#[verifier::loop_isolation(false)]
fn select_file(
    ids: &mut Group<String>,
    selected: &mut Table<CapabilityKey, Choices>,
    f: &ProfileFile,
    identity: &HardwareIdentity,
) -> (r: Option<CapabilityError>)
    ensures
        match with_file(Progress { ids: old(ids)@, selection: old(selected)@ }, *f, identity@) {
            Ok(s) => r is None && final(ids)@ == s.ids && final(selected)@ == s.selection,
            Err(e) => refusal_view(r) == Some(e),
        },
{
    if f.hardware_profile.len() == 0 {
        return Some(CapabilityError::NoProfiles { path: f.path.clone() });
    }
    let ghost start = Progress { ids: ids@, selection: selected@ };
    let ghost all = f.hardware_profile@;
    let mut i: usize = 0;
    while i < f.hardware_profile.len()
        invariant
            i <= f.hardware_profile@.len(),
            all == f.hardware_profile@,
            with_profiles(start, all.take(i as int), identity@) == Ok::<Progress, Refusal>(
                Progress { ids: ids@, selection: selected@ },
            ),
        decreases f.hardware_profile@.len() - i,
    {
        assert(all.take(i + 1).drop_last() =~= all.take(i as int));
        match select_profile(ids, selected, &f.hardware_profile[i], identity) {
            Some(e) => {
                proof {
                    lemma_profiles_stop(start, all, i + 1, identity@);
                }
                return Some(e);
            },
            None => {},
        }
        i += 1;
    }
    assert(all.take(i as int) =~= all);
    None
}

// --------------------------------------------------------------------------
// Resolved rules
// --------------------------------------------------------------------------

/// The rules that hold for the hardware at hand.
pub struct ResolvedCapabilities {
    rules: Table<CapabilityKey, CapabilityRule>,
}

impl View for ResolvedCapabilities {
    type V = Map<Series, Ruling>;

    closed spec fn view(&self) -> Map<Series, Ruling> {
        self.rules@
    }
}

/// A property that is not queried, and why.
pub struct Notice {
    pub property: Series,
    pub state: Seq<char>,
    pub reason: Seq<char>,
}

/// A listing of attributes as `name=value`, separated by commas.
pub open spec fn listing_text(a: Listing) -> Seq<char>
    decreases a.len(),
{
    if a.len() == 0 {
        ""@
    } else if a.len() == 1 {
        a[0].0 + "="@ + a[0].1
    } else {
        listing_text(a.drop_last()) + ","@ + (a.last().0 + "="@ + a.last().1)
    }
}

/// `m` with the attributes of a notice.
pub open spec fn with_notice(m: Map<Seq<char>, Seq<char>>, index: nat, n: Notice) -> Map<
    Seq<char>,
    Seq<char>,
> {
    let prefix = "spark.capability."@ + decimal(index);
    m.insert(prefix + ".source"@, n.property.source).insert(
        prefix + ".metric"@,
        n.property.metric,
    ).insert(prefix + ".attributes"@, listing_text(n.property.attributes)).insert(
        prefix + ".state"@,
        n.state,
    ).insert(prefix + ".reason"@, n.reason)
}

/// The attributes of some notices, numbered from zero.
pub open spec fn notices_text(ns: Seq<Notice>) -> Map<Seq<char>, Seq<char>>
    decreases ns.len(),
{
    if ns.len() == 0 {
        Map::empty()
    } else {
        with_notice(notices_text(ns.drop_last()), (ns.len() - 1) as nat, ns.last())
    }
}

/// The notice of a disabled property; other rules give none.
pub open spec fn disabled_notice(e: (Series, Ruling)) -> Seq<Notice> {
    if e.1.policy == CapabilityPolicy::Disabled {
        seq![Notice { property: e.0, state: "disabled"@, reason: e.1.reason }]
    } else {
        seq![]
    }
}

pub open spec fn disabled_notices() -> spec_fn((Series, Ruling)) -> Seq<Notice> {
    |e: (Series, Ruling)| disabled_notice(e)
}

/// The notice of a property that turned out to be unsupported.
pub open spec fn unsupported_notice(k: Series) -> Seq<Notice> {
    seq![Notice { property: k, state: "unsupported"@, reason: "NVML_NOTSUPPORTED"@ }]
}

pub open spec fn unsupported_notices() -> spec_fn(Series) -> Seq<Notice> {
    |k: Series| unsupported_notice(k)
}

/// The properties that are not queried: the disabled ones and then the
/// unsupported ones, both in the order of their keys.
pub open spec fn notices(rules: Map<Series, Ruling>, unsupported: Set<Series>) -> Seq<Notice> {
    flat(items_of::<CapabilityKey, Ruling>(rules), disabled_notices()) + flat(
        elements_of::<CapabilityKey>(unsupported),
        unsupported_notices(),
    )
}

fn attributes_text(attributes: &Attributes) -> (r: String)
    ensures
        r@ == listing_text(items_of::<String, Seq<char>>(attributes@)),
{
    let ghost all = items_of::<String, Seq<char>>(attributes@);
    let n: usize = attributes.len();
    let mut out = "".to_owned();
    let mut i: usize = 0;
    while i < n
        invariant
            i <= n == all.len(),
            all == items_of::<String, Seq<char>>(attributes@),
            out@ == listing_text(all.take(i as int)),
        decreases n - i,
    {
        assert(all.take(i + 1).drop_last() =~= all.take(i as int));
        let pair = concat(attributes.key_at(i).as_str(), "=");
        let pair = concat(pair.as_str(), attributes.value_at(i).as_str());
        if i == 0 {
            out = pair;
        } else {
            out = concat(out.as_str(), ",");
            out = concat(out.as_str(), pair.as_str());
        }
        i += 1;
    }
    assert(all.take(i as int) =~= all);
    out
}

fn insert_inventory_capability(
    inventory: &mut Attributes,
    index: u128,
    key: &CapabilityKey,
    state: &str,
    reason: &str,
)
    ensures
        final(inventory)@ == with_notice(
            old(inventory)@,
            index as nat,
            Notice { property: key@, state: state@, reason: reason@ },
        ),
{
    let number = number_text(index);
    let prefix = concat("spark.capability.", number.as_str());
    inventory.insert(concat(prefix.as_str(), ".source"), key.source.clone());
    inventory.insert(concat(prefix.as_str(), ".metric"), key.metric.clone());
    inventory.insert(concat(prefix.as_str(), ".attributes"), attributes_text(&key.attributes));
    inventory.insert(concat(prefix.as_str(), ".state"), state.to_owned());
    inventory.insert(concat(prefix.as_str(), ".reason"), reason.to_owned());
}

impl ResolvedCapabilities {
    /// No rules.
    pub fn none() -> (r: Self)
        ensures
            r@ == Map::<Series, Ruling>::empty(),
    {
        ResolvedCapabilities { rules: Table::new() }
    }

    /// The rule for a property.
    #[must_use]
    pub fn rule(&self, key: &CapabilityKey) -> (r: Option<&CapabilityRule>)
        ensures
            r is Some == self@.contains_key(key@),
            r matches Some(rule) ==> rule@ == self@[key@],
    {
        self.rules.get(key)
    }

    /// The properties that are not queried, as inventory attributes.
    #[must_use]
    pub fn inventory_attributes(&self, auto_unsupported: &Group<CapabilityKey>) -> (r: Attributes)
        ensures
            r@ == notices_text(notices(self@, auto_unsupported@)),
    {
        let mut inventory: Attributes = Table::new();
        let ghost items = items_of::<CapabilityKey, Ruling>(self.rules@);
        let ghost disabled = flat(items, disabled_notices());
        let n: usize = self.rules.len();
        let mut index: usize = 0;
        let mut i: usize = 0;
        while i < n
            invariant
                i <= n == items.len(),
                items == items_of::<CapabilityKey, Ruling>(self.rules@),
                index <= i,
                index == flat(items.take(i as int), disabled_notices()).len(),
                inventory@ == notices_text(flat(items.take(i as int), disabled_notices())),
            decreases n - i,
        {
            let ghost so_far = flat(items.take(i as int), disabled_notices());
            proof {
                lemma_flat(items, i as int, disabled_notices());
            }
            let key = self.rules.key_at(i);
            let rule = self.rules.value_at(i);
            if rule.policy == CapabilityPolicy::Disabled {
                insert_inventory_capability(
                    &mut inventory,
                    index as u128,
                    key,
                    "disabled",
                    rule.reason.as_str(),
                );
                assert(flat(items.take(i + 1), disabled_notices()).drop_last() =~= so_far);
                index += 1;
            } else {
                assert(flat(items.take(i + 1), disabled_notices()) =~= so_far);
            }
            i += 1;
        }
        assert(items.take(i as int) =~= items);
        let ghost all = elements_of::<CapabilityKey>(auto_unsupported@);
        let m: usize = auto_unsupported.len();
        let mut k: usize = 0;
        assert(disabled =~= disabled + flat(all.take(0), unsupported_notices()));
        while k < m
            invariant
                k <= m == all.len(),
                index == disabled.len(),
                all == elements_of::<CapabilityKey>(auto_unsupported@),
                flat(all.take(k as int), unsupported_notices()).len() == k,
                inventory@ == notices_text(
                    disabled + flat(all.take(k as int), unsupported_notices()),
                ),
            decreases m - k,
        {
            let ghost so_far = disabled + flat(all.take(k as int), unsupported_notices());
            proof {
                lemma_flat(all, k as int, unsupported_notices());
            }
            insert_inventory_capability(
                &mut inventory,
                index as u128 + k as u128,
                auto_unsupported.element_at(k),
                "unsupported",
                "NVML_NOTSUPPORTED",
            );
            assert((disabled + flat(all.take(k + 1), unsupported_notices())).drop_last()
                =~= so_far);
            k += 1;
        }
        assert(all.take(k as int) =~= all);
        inventory
    }
}

/// Resolves hardware profiles: the rule for each property that a matching
/// profile names, the most specific selector winning.
pub fn load_directory(files: &Vec<ProfileFile>, identity: &HardwareIdentity) -> (r: Result<
    ResolvedCapabilities,
    CapabilityError,
>)
    ensures
        match resolution(files@, identity@) {
            Ok(rules) => r matches Ok(resolved) && resolved@ == rules,
            Err(e) => r matches Err(error) && error@ == e,
        },
{
    let mut ids: Group<String> = Group::new();
    let mut selected: Table<CapabilityKey, Choices> = Table::new();
    let ghost all = files@;
    let mut i: usize = 0;
    while i < files.len()
        invariant
            i <= files@.len(),
            all == files@,
            with_files(all.take(i as int), identity@) == Ok::<Progress, Refusal>(
                Progress { ids: ids@, selection: selected@ },
            ),
        decreases files@.len() - i,
    {
        assert(all.take(i + 1).drop_last() =~= all.take(i as int));
        match select_file(&mut ids, &mut selected, &files[i], identity) {
            Some(e) => {
                proof {
                    lemma_files_stop(all, i + 1, identity@);
                }
                return Err(e);
            },
            None => {},
        }
        i += 1;
    }
    assert(all.take(i as int) =~= all);
    let ghost items = items_of::<CapabilityKey, Candidates>(selected@);
    let n: usize = selected.len();
    let mut rules: Table<CapabilityKey, CapabilityRule> = Table::new();
    let mut k: usize = 0;
    proof {
        lemma_selected(all, identity@);
    }
    while k < n
        invariant
            k <= n == items.len(),
            items == items_of::<CapabilityKey, Candidates>(selected@),
            lists::<CapabilityKey, Candidates>(items, selected@),
            forall|key: Series| #[trigger]
                selected@.contains_key(key) ==> selected@[key].general is Some
                    || selected@[key].specific is Some,
            forall|j: int| 0 <= j < k ==> rules@.contains_key((#[trigger] items[j]).0),
            forall|key: Series| #[trigger]
                rules@.contains_key(key) ==> selected@.contains_key(key) && rules@[key] == winner(
                    selected@[key],
                ),
        decreases n - k,
    {
        let key = selected.key_at(k);
        let choices = selected.value_at(k);
        let rule = match &choices.specific {
            Some(c) => c.rule.duplicate(),
            None => match &choices.general {
                Some(c) => c.rule.duplicate(),
                None => CapabilityRule { policy: CapabilityPolicy::Auto, reason: String::new() },
            },
        };
        rules.insert(key.duplicate(), rule);
        k += 1;
    }
    proof {
        lemma_lists::<CapabilityKey, Candidates>(items, selected@);
        assert forall|key: Series| #[trigger] selected@.contains_key(
            key,
        ) implies rules@.contains_key(key) by {
            let j = choose|j: int| 0 <= j < items.len() && (#[trigger] items[j]).0 == key;
            assert(rules@.contains_key(items[j].0));
        }
        assert(rules@ =~= winners(selected@));
    }
    Ok(ResolvedCapabilities { rules })
}

/// A property is selected only with a candidate.
pub open spec fn all_filled(m: Selection) -> bool {
    forall|k: Series| #[trigger]
        m.contains_key(k) ==> m[k].general is Some || m[k].specific is Some
}

proof fn lemma_selected_capabilities(
    m: Selection,
    cs: Seq<ProfileCapability>,
    specific: bool,
    id: Seq<char>,
)
    requires
        all_filled(m),
    ensures
        with_capabilities(m, cs, specific, id) matches Ok(n) ==> all_filled(n),
    decreases cs.len(),
{
    if cs.len() > 0 {
        lemma_selected_capabilities(m, cs.drop_last(), specific, id);
    }
}

proof fn lemma_selected_profiles(s: Progress, ps: Seq<HardwareProfile>, h: Hardware)
    requires
        all_filled(s.selection),
    ensures
        with_profiles(s, ps, h) matches Ok(t) ==> all_filled(t.selection),
    decreases ps.len(),
{
    if ps.len() > 0 {
        lemma_selected_profiles(s, ps.drop_last(), h);
        match with_profiles(s, ps.drop_last(), h) {
            Ok(t) => {
                let p = ps.last();
                lemma_selected_capabilities(
                    t.selection,
                    p.capability@,
                    is_specific(p.selector),
                    p.id@,
                );
            },
            Err(_) => {},
        }
    }
}

proof fn lemma_selected(fs: Seq<ProfileFile>, h: Hardware)
    ensures
        with_files(fs, h) matches Ok(t) ==> all_filled(t.selection),
    decreases fs.len(),
{
    if fs.len() > 0 {
        lemma_selected(fs.drop_last(), h);
        match with_files(fs.drop_last(), h) {
            Ok(t) => {
                lemma_selected_profiles(t, fs.last().hardware_profile@, h);
            },
            Err(_) => {},
        }
    }
}

// --------------------------------------------------------------------------
// Runtime
// --------------------------------------------------------------------------

/// The rules at work and the properties that turned out to be unsupported.
pub struct CapabilityRuntime {
    identity: HardwareIdentity,
    resolved: ResolvedCapabilities,
    automatic_unsupported: Group<CapabilityKey>,
}

/// The content of a [`CapabilityRuntime`].
#[verifier::ext_equal]
pub struct Knowledge {
    pub hardware: Hardware,
    pub rules: Map<Series, Ruling>,
    pub unsupported: Set<Series>,
}

impl View for CapabilityRuntime {
    type V = Knowledge;

    closed spec fn view(&self) -> Knowledge {
        Knowledge {
            hardware: self.identity@,
            rules: self.resolved@,
            unsupported: self.automatic_unsupported@,
        }
    }
}

/// The rules that a source of profiles gives for some hardware.
pub open spec fn sourced(source: ProfileSource, h: Hardware) -> Result<
    Map<Series, Ruling>,
    Refusal,
> {
    match source {
        ProfileSource::Unconfigured => Ok(Map::empty()),
        ProfileSource::Unreadable => Err(Refusal::Unreadable),
        ProfileSource::Files(fs) => resolution(fs@, h),
    }
}

/// The policy for a property; without a rule it is automatic.
pub open spec fn policy_of(k: Knowledge, p: Series) -> CapabilityPolicy {
    if k.rules.contains_key(p) {
        k.rules[p].policy
    } else {
        CapabilityPolicy::Auto
    }
}

/// Whether a property is queried.
pub open spec fn queried(k: Knowledge, p: Series) -> bool {
    match policy_of(k, p) {
        CapabilityPolicy::Disabled => false,
        CapabilityPolicy::Auto => !k.unsupported.contains(p),
        CapabilityPolicy::Enabled => true,
    }
}

/// What is known after a property turned out to be unsupported.
pub open spec fn after_unsupported(k: Knowledge, p: Series) -> Knowledge {
    if policy_of(k, p) == CapabilityPolicy::Auto {
        Knowledge { unsupported: k.unsupported.insert(p), ..k }
    } else {
        k
    }
}

/// Two identities of one GPU and driver lifecycle.
pub open spec fn same_lifecycle(a: Hardware, b: Hardware) -> bool {
    a.products == b.products && a.pci_ids == b.pci_ids && driver_of(a) == driver_of(b)
}

fn resolve(source: &ProfileSource, identity: &HardwareIdentity) -> (r: Result<
    ResolvedCapabilities,
    CapabilityError,
>)
    ensures
        match sourced(*source, identity@) {
            Ok(rules) => r matches Ok(resolved) && resolved@ == rules,
            Err(e) => r matches Err(error) && error@ == e,
        },
{
    match source {
        ProfileSource::Unconfigured => Ok(ResolvedCapabilities::none()),
        ProfileSource::Unreadable => Err(CapabilityError::Unreadable),
        ProfileSource::Files(files) => load_directory(files, identity),
    }
}

impl CapabilityRuntime {
    /// Loads the rules for some hardware.
    pub fn load(source: &ProfileSource, identity: HardwareIdentity) -> (r: Result<
        Self,
        CapabilityError,
    >)
        ensures
            match sourced(*source, identity@) {
                Ok(rules) => r matches Ok(runtime) && runtime@ == (Knowledge {
                    hardware: identity@,
                    rules,
                    unsupported: Set::empty(),
                }),
                Err(e) => r matches Err(error) && error@ == e,
            },
    {
        match resolve(source, &identity) {
            Ok(resolved) => Ok(
                CapabilityRuntime { identity, resolved, automatic_unsupported: Group::new() },
            ),
            Err(e) => Err(e),
        }
    }

    /// Loads the rules anew and forgets what turned out to be unsupported. What
    /// is refused changes nothing.
    pub fn reload(&mut self, source: &ProfileSource, identity: HardwareIdentity) -> (r: Result<
        (),
        CapabilityError,
    >)
        ensures
            match sourced(*source, identity@) {
                Ok(rules) => r is Ok && final(self)@ == (Knowledge {
                    hardware: identity@,
                    rules,
                    unsupported: Set::empty(),
                }),
                Err(e) => (r matches Err(error) && error@ == e) && final(self)@ == old(self)@,
            },
    {
        match resolve(source, &identity) {
            Ok(resolved) => {
                self.identity = identity;
                self.resolved = resolved;
                self.automatic_unsupported = Group::new();
                Ok(())
            },
            Err(e) => Err(e),
        }
    }

    /// Takes note of the hardware. Where it has changed, what turned out to be
    /// unsupported is forgotten.
    pub fn update_identity(&mut self, identity: HardwareIdentity)
        ensures
            final(self)@ == (if same_lifecycle(identity@, old(self)@.hardware) {
                old(self)@
            } else {
                Knowledge {
                    hardware: identity@,
                    unsupported: Set::empty(),
                    ..old(self)@
                }
            }),
    {
        let driver = match &identity.driver_version {
            Some(version) => version.clone(),
            None => "".to_owned(),
        };
        let known = match &self.identity.driver_version {
            Some(version) => version.clone(),
            None => "".to_owned(),
        };
        if !same_group(&identity.gpu_products, &self.identity.gpu_products) || !same_group(
            &identity.pci_device_ids,
            &self.identity.pci_device_ids,
        ) || !same(driver.as_str(), known.as_str()) {
            self.identity = identity;
            self.automatic_unsupported = Group::new();
        }
    }

    /// The policy for a property.
    #[must_use]
    pub fn policy(&self, key: &CapabilityKey) -> (r: CapabilityPolicy)
        ensures
            r == policy_of(self@, key@),
    {
        match self.resolved.rule(key) {
            Some(rule) => rule.policy,
            None => CapabilityPolicy::Auto,
        }
    }

    /// Whether a property is to be queried.
    #[must_use]
    pub fn should_query(&self, key: &CapabilityKey) -> (r: bool)
        ensures
            r == queried(self@, key@),
    {
        match self.policy(key) {
            CapabilityPolicy::Disabled => false,
            CapabilityPolicy::Auto => !self.automatic_unsupported.contains(key),
            CapabilityPolicy::Enabled => true,
        }
    }

    /// Takes note that a property is unsupported, where the policy leaves that
    /// to be found out.
    pub fn observe_definitive_unsupported(&mut self, key: &CapabilityKey)
        ensures
            final(self)@ == after_unsupported(old(self)@, key@),
    {
        if self.policy(key) == CapabilityPolicy::Auto {
            self.automatic_unsupported.insert(key.duplicate());
        }
    }

    /// The properties that are not queried, as inventory attributes.
    #[must_use]
    pub fn inventory_attributes(&self) -> (r: Attributes)
        ensures
            r@ == notices_text(notices(self@.rules, self@.unsupported)),
    {
        self.resolved.inventory_attributes(&self.automatic_unsupported)
    }
}

// --------------------------------------------------------------------------
// Laws
// --------------------------------------------------------------------------

/// A disabled property is never queried and an enabled one always, whatever
/// turned out to be unsupported.
pub proof fn law_rules_decide_first(k: Knowledge, p: Series, unsupported: Set<Series>)
    ensures
        policy_of(k, p) == CapabilityPolicy::Disabled ==> !queried(
            Knowledge { unsupported, ..k },
            p,
        ),
        policy_of(k, p) == CapabilityPolicy::Enabled ==> queried(
            Knowledge { unsupported, ..k },
            p,
        ),
{
}

/// A property that turned out to be unsupported is not queried again, unless
/// it is enabled, and no other property is affected.
pub proof fn law_unsupported_is_probed_once(k: Knowledge, p: Series, other: Series)
    ensures
        queried(after_unsupported(k, p), p) == (policy_of(k, p) == CapabilityPolicy::Enabled),
        other != p ==> queried(after_unsupported(k, p), other) == queried(k, other),
{
}

/// Identities of one lifecycle have one lifecycle key.
pub proof fn law_lifecycle_key_follows_lifecycle(a: Hardware, b: Hardware)
    requires
        same_lifecycle(a, b),
    ensures
        lifecycle_key_of(a) == lifecycle_key_of(b),
{
}

} // verus!
