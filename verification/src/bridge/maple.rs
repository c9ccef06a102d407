//! A target with an authenticated endpoint that a root-owned credential names.

use super::plugins::{
    OtlpProtocol, OtlpTargetPlugin, Preparation, PreparedOtlpTarget, Target, TargetError,
};
use crate::schema::Attributes;
use crate::table::Table;
use crate::text::{
    alphanumeric, byte_len, chars, concat, contains, has_prefix, is_alphanumeric, is_space,
    length_in_bytes, optional, same, space, starts_with, strip_prefix, strip_prefix_of,
    trim_end_char, trim_end_of, Class,
};
use base64::Engine;
use vstd::prelude::*;
use zeroize::Zeroize;

verus! {

/// The schema of a credential where no other is configured.
pub const MAPLE_CREDENTIAL_SCHEMA: &'static str = "srvmini2-maple-otlp-client/v1";

/// The protocol that a credential has to name.
pub const MAPLE_PROTOCOL: &'static str = "http/protobuf";

/// The largest credential file.
pub const MAX_MAPLE_CREDENTIAL_BYTES: u64 = 16384;

// --------------------------------------------------------------------------
// Settings
// --------------------------------------------------------------------------

/// The settings of the target.
pub struct MapleOptions {
    pub credential: Option<String>,
    pub credential_schema: Option<String>,
    pub producer: Option<String>,
}

impl Default for MapleOptions {
    /// Nothing is set.
    fn default() -> (r: Self)
        ensures
            r.credential is None,
            r.credential_schema is None,
            r.producer is None,
    {
        MapleOptions { credential: None, credential_schema: None, producer: None }
    }
}

/// Some setting is given.
pub open spec fn is_maple_configured(o: MapleOptions) -> bool {
    o.credential is Some || o.credential_schema is Some || o.producer is Some
}

impl MapleOptions {
    /// Whether some setting is given.
    pub fn is_configured(&self) -> (r: bool)
        ensures
            r == is_maple_configured(*self),
    {
        self.credential.is_some() || self.credential_schema.is_some() || self.producer.is_some()
    }
}

/// The target with its settings.
pub struct MaplePlugin<'a> {
    pub credential: &'a str,
    pub schema: &'a str,
    pub producer: &'a str,
}

/// The content of a [`MaplePlugin`].
pub struct MapleSettings {
    pub credential: Seq<char>,
    pub schema: Seq<char>,
    pub producer: Seq<char>,
}

impl<'a> View for MaplePlugin<'a> {
    type V = MapleSettings;

    open spec fn view(&self) -> MapleSettings {
        MapleSettings {
            credential: self.credential@,
            schema: self.schema@,
            producer: self.producer@,
        }
    }
}

/// The settings, all of which have to be given.
pub open spec fn maple_new(o: MapleOptions) -> Result<MapleSettings, TargetError> {
    match (optional(o.credential), optional(o.credential_schema), optional(o.producer)) {
        (None, _, _) => Err(TargetError::CredentialMissing),
        (Some(_), None, _) => Err(TargetError::SchemaMissing),
        (Some(_), Some(_), None) => Err(TargetError::ProducerMissing),
        (Some(credential), Some(schema), Some(producer)) => Ok(
            MapleSettings { credential, schema, producer },
        ),
    }
}

impl<'a> MaplePlugin<'a> {
    pub fn new(options: &'a MapleOptions) -> (r: Result<Self, TargetError>)
        ensures
            match maple_new(*options) {
                Ok(settings) => r matches Ok(p) && p@ == settings,
                Err(e) => r matches Err(x) && x == e,
            },
    {
        let credential = match &options.credential {
            Some(s) => s.as_str(),
            None => {
                return Err(TargetError::CredentialMissing);
            },
        };
        let schema = match &options.credential_schema {
            Some(s) => s.as_str(),
            None => {
                return Err(TargetError::SchemaMissing);
            },
        };
        let producer = match &options.producer {
            Some(s) => s.as_str(),
            None => {
                return Err(TargetError::ProducerMissing);
            },
        };
        Ok(MaplePlugin { credential, schema, producer })
    }
}

// --------------------------------------------------------------------------
// Credentials
// --------------------------------------------------------------------------

/// A credential. Its password is wiped when it is dropped.
pub struct MapleCredential {
    pub schema: String,
    pub endpoint: String,
    pub password: String,
    pub producer: String,
    pub protocol: String,
    pub username: String,
}

/// `zeroize` of a `String`: it overwrites the text and leaves an empty one.
/// That the memory is overwritten is left unsaid: no value shows it.
#[verifier::external_body]
fn wipe(s: &mut String)
    ensures
        final(s)@.len() == 0,
    opens_invariants none
    no_unwind
{
    s.zeroize();
}

impl Drop for MapleCredential {
    fn drop(&mut self)
        opens_invariants none
        no_unwind
    {
        wipe(&mut self.password);
    }
}

/// What follows the scheme of an HTTP URL.
pub open spec fn authority_of(endpoint: Seq<char>) -> Option<Seq<char>> {
    match strip_prefix_of(endpoint, "http://"@) {
        Some(rest) => Some(rest),
        None => strip_prefix_of(endpoint, "https://"@),
    }
}

/// A base endpoint: an HTTP scheme and an authority, without a path.
pub open spec fn is_endpoint(endpoint: Seq<char>) -> bool {
    match authority_of(endpoint) {
        Some(a) => {
            &&& a.len() > 0
            &&& forall|i: int|
                0 <= i < a.len() ==> {
                    let c = #[trigger] a[i];
                    c != '/' && c != '?' && c != '#' && !is_space(c)
                }
        },
        None => false,
    }
}

/// A name that is managed for a producer.
pub open spec fn is_username(username: Seq<char>, producer: Seq<char>) -> bool {
    match strip_prefix_of(username, "maple-"@ + producer + "-"@) {
        Some(suffix) => {
            &&& suffix.len() > 0
            &&& forall|i: int| 0 <= i < suffix.len() ==> is_alphanumeric(#[trigger] suffix[i])
            &&& !username.contains(':')
        },
        None => false,
    }
}

/// A password that fits on a line.
pub open spec fn is_password(password: Seq<char>) -> bool {
    password.len() > 0 && !password.contains('\r') && !password.contains('\n')
}

/// What is wrong with a credential.
pub open spec fn credential_refusal(
    c: MapleCredential,
    schema: Seq<char>,
    producer: Seq<char>,
) -> Option<TargetError> {
    if schema.len() == 0 || c.schema@ != schema {
        Some(TargetError::WrongSchema)
    } else if c.producer@ != producer {
        Some(TargetError::WrongProducer)
    } else if !is_endpoint(c.endpoint@) {
        Some(TargetError::WrongEndpoint)
    } else if c.protocol@ != MAPLE_PROTOCOL@ {
        Some(TargetError::WrongProtocol)
    } else if !is_username(c.username@, producer) {
        Some(TargetError::WrongUsername)
    } else if !is_password(c.password@) {
        Some(TargetError::WrongPassword)
    } else {
        None
    }
}

/// The outcome of a check.
pub open spec fn outcome(refusal: Option<TargetError>) -> Result<(), TargetError> {
    match refusal {
        Some(e) => Err(e),
        None => Ok(()),
    }
}

fn endpoint_allowed(endpoint: &str) -> (r: bool)
    ensures
        r == is_endpoint(endpoint@),
{
    let authority = match strip_prefix(endpoint, "http://") {
        Some(rest) => Some(rest),
        None => strip_prefix(endpoint, "https://"),
    };
    match authority {
        Some(a) => {
            if a.as_str().is_empty() {
                return false;
            }
            let t = chars(a.as_str());
            let mut i: usize = 0;
            while i < t.len()
                invariant
                    i <= t@.len(),
                    t@ == a@,
                    authority_of(endpoint@) == Some(a@),
                    forall|j: int|
                        0 <= j < i ==> {
                            let c = #[trigger] a@[j];
                            c != '/' && c != '?' && c != '#' && !is_space(c)
                        },
                decreases t@.len() - i,
            {
                let c = t[i];
                if c == '/' || c == '?' || c == '#' || space(c) {
                    return false;
                }
                i += 1;
            }
            true
        },
        None => false,
    }
}

fn username_allowed(username: &str, producer: &str) -> (r: bool)
    ensures
        r == is_username(username@, producer@),
{
    let prefix = concat("maple-", producer);
    let prefix = concat(prefix.as_str(), "-");
    match strip_prefix(username, prefix.as_str()) {
        Some(suffix) => {
            if suffix.as_str().is_empty() {
                return false;
            }
            let t = chars(suffix.as_str());
            let mut i: usize = 0;
            while i < t.len()
                invariant
                    i <= t@.len(),
                    t@ == suffix@,
                    strip_prefix_of(username@, "maple-"@ + producer@ + "-"@) == Some(suffix@),
                    forall|j: int| 0 <= j < i ==> is_alphanumeric(#[trigger] suffix@[j]),
                decreases t@.len() - i,
            {
                if !alphanumeric(t[i]) {
                    return false;
                }
                i += 1;
            }
            !contains(username, ':')
        },
        None => false,
    }
}

/// Checks a credential against the configured schema and producer.
pub fn validate_credential(
    credential: &MapleCredential,
    expected_schema: &str,
    expected_producer: &str,
) -> (r: Result<(), TargetError>)
    ensures
        r == outcome(credential_refusal(*credential, expected_schema@, expected_producer@)),
{
    if expected_schema.is_empty() || !same(credential.schema.as_str(), expected_schema) {
        return Err(TargetError::WrongSchema);
    }
    if !same(credential.producer.as_str(), expected_producer) {
        return Err(TargetError::WrongProducer);
    }
    if !endpoint_allowed(credential.endpoint.as_str()) {
        return Err(TargetError::WrongEndpoint);
    }
    if !same(credential.protocol.as_str(), MAPLE_PROTOCOL) {
        return Err(TargetError::WrongProtocol);
    }
    if !username_allowed(credential.username.as_str(), expected_producer) {
        return Err(TargetError::WrongUsername);
    }
    let password = credential.password.as_str();
    if password.is_empty() || contains(password, '\r') || contains(password, '\n') {
        return Err(TargetError::WrongPassword);
    }
    Ok(())
}

/// Checks a credential of the default schema.
pub fn validate_maple_credential(credential: &MapleCredential, expected_producer: &str) -> (r:
    Result<(), TargetError>)
    ensures
        r == outcome(
            credential_refusal(*credential, MAPLE_CREDENTIAL_SCHEMA@, expected_producer@),
        ),
{
    validate_credential(credential, MAPLE_CREDENTIAL_SCHEMA, expected_producer)
}

// --------------------------------------------------------------------------
// Files
// --------------------------------------------------------------------------

/// Whether a path starts at the root.
pub open spec fn is_absolute(path: Seq<char>) -> bool {
    has_prefix(path, "/"@)
}

/// Checks that the path of a credential is absolute.
pub fn validate_credential_path(path: &str) -> (r: Result<(), TargetError>)
    ensures
        r == outcome(
            if is_absolute(path@) {
                None
            } else {
                Some(TargetError::PathNotAbsolute)
            },
        ),
{
    if starts_with(path, "/") {
        Ok(())
    } else {
        Err(TargetError::PathNotAbsolute)
    }
}

/// What the system says of a directory.
#[derive(Clone, Copy, Debug, Eq, PartialEq, Structural)]
pub struct DirectoryMetadata {
    pub symlink: bool,
    pub directory: bool,
    pub owner: u32,
    pub mode: u32,
}

/// Neither the group nor others may write.
pub open spec fn only_owner_writes(mode: u32) -> bool {
    (mode / 16) % 2 == 0 && (mode / 2) % 2 == 0
}

/// What is wrong with a parent directory of a credential.
pub open spec fn parent_refusal(m: DirectoryMetadata) -> Option<TargetError> {
    if m.symlink || !m.directory {
        Some(TargetError::ParentNotADirectory)
    } else if m.owner != 0 || !only_owner_writes(m.mode) {
        Some(TargetError::ParentNotRootControlled)
    } else {
        None
    }
}

/// Checks a parent directory of a credential.
pub fn validate_parent_metadata(symlink: bool, directory: bool, owner: u32, mode: u32) -> (r: Result<
    (),
    TargetError,
>)
    ensures
        r == outcome(parent_refusal(DirectoryMetadata { symlink, directory, owner, mode })),
{
    if symlink || !directory {
        return Err(TargetError::ParentNotADirectory);
    }
    assert((mode & 0o022 == 0) == ((mode / 16) % 2 == 0 && (mode / 2) % 2 == 0)) by (bit_vector);
    if owner != 0 || mode & 0o022 != 0 {
        return Err(TargetError::ParentNotRootControlled);
    }
    Ok(())
}

/// What is wrong with the first parent directory with which something is
/// wrong.
pub open spec fn parents_refusal(ms: Seq<Option<DirectoryMetadata>>) -> Option<TargetError>
    decreases ms.len(),
{
    if ms.len() == 0 {
        None
    } else {
        match ms[0] {
            None => Some(TargetError::ParentNotInspected),
            Some(m) => match parent_refusal(m) {
                Some(e) => Some(e),
                None => parents_refusal(ms.skip(1)),
            },
        }
    }
}

/// Checks the parent directories of a credential, from the nearest to the
/// root. What could not be inspected is absent.
pub fn validate_root_owned_parent_chain(parents: &Vec<Option<DirectoryMetadata>>) -> (r: Result<
    (),
    TargetError,
>)
    ensures
        r == outcome(parents_refusal(parents@)),
{
    let ghost all = parents@;
    let mut i: usize = 0;
    assert(all.skip(0) =~= all);
    while i < parents.len()
        invariant
            i <= parents@.len(),
            all == parents@,
            parents_refusal(all) == parents_refusal(all.skip(i as int)),
        decreases parents@.len() - i,
    {
        assert(all.skip(i as int)[0] == all[i as int]);
        assert(all.skip(i as int).skip(1) =~= all.skip(i + 1));
        match parents[i] {
            None => {
                return Err(TargetError::ParentNotInspected);
            },
            Some(m) => match validate_parent_metadata(m.symlink, m.directory, m.owner, m.mode) {
                Err(e) => {
                    return Err(e);
                },
                Ok(()) => {},
            },
        }
        i += 1;
    }
    Ok(())
}

/// What is wrong with a credential file.
pub open spec fn file_refusal(regular_file: bool, owner: u32, mode: u32, size: u64) -> Option<
    TargetError,
> {
    if !regular_file {
        Some(TargetError::NotARegularFile)
    } else if owner != 0 {
        Some(TargetError::NotOwnedByRoot)
    } else if mode % 4096 != 0o600 {
        Some(TargetError::WrongMode)
    } else if size == 0 || size > MAX_MAPLE_CREDENTIAL_BYTES {
        Some(TargetError::WrongSize)
    } else {
        None
    }
}

/// Checks a credential file.
pub fn validate_credential_metadata(regular_file: bool, owner: u32, mode: u32, size: u64) -> (r:
    Result<(), TargetError>)
    ensures
        r == outcome(file_refusal(regular_file, owner, mode, size)),
{
    if !regular_file {
        return Err(TargetError::NotARegularFile);
    }
    if owner != 0 {
        return Err(TargetError::NotOwnedByRoot);
    }
    assert(mode & 0o7777 == mode % 4096) by (bit_vector);
    if mode & 0o7777 != 0o600 {
        return Err(TargetError::WrongMode);
    }
    if size == 0 || size > MAX_MAPLE_CREDENTIAL_BYTES {
        return Err(TargetError::WrongSize);
    }
    Ok(())
}

/// Checks a credential file.
pub fn validate_maple_credential_metadata(regular_file: bool, owner: u32, mode: u32, size: u64) -> (r:
    Result<(), TargetError>)
    ensures
        r == outcome(file_refusal(regular_file, owner, mode, size)),
{
    validate_credential_metadata(regular_file, owner, mode, size)
}

/// What the system says of an open file.
#[derive(Clone, Copy, Debug, Eq, PartialEq, Structural)]
pub struct FileMetadata {
    pub regular_file: bool,
    pub owner: u32,
    pub mode: u32,
    pub size: u64,
}

/// What a credential file holds.
pub struct CredentialContent {
    /// The number of bytes that were read, up to one more than the limit.
    pub size: u64,
    /// The credential that they hold, if they hold one.
    pub credential: Option<MapleCredential>,
}

/// What was found at the path of a credential, as far as it was looked at.
pub struct CredentialFile {
    /// The directories above it, from the nearest to the root. What could not
    /// be inspected is absent.
    pub parents: Vec<Option<DirectoryMetadata>>,
    /// The file, where it could be opened without following a link.
    pub metadata: Option<FileMetadata>,
    /// What the file holds, where it could be read.
    pub content: Option<CredentialContent>,
}

impl Default for CredentialFile {
    /// Nothing was looked at.
    fn default() -> (r: Self)
        ensures
            r.parents@.len() == 0,
            r.metadata is None,
            r.content is None,
    {
        CredentialFile { parents: Vec::new(), metadata: None, content: None }
    }
}

/// What is wrong with the place of a credential.
pub open spec fn location_refusal(
    path: Seq<char>,
    parents: Seq<Option<DirectoryMetadata>>,
) -> Option<TargetError> {
    if !is_absolute(path) {
        Some(TargetError::PathNotAbsolute)
    } else if parents.len() == 0 {
        Some(TargetError::ParentNotInspected)
    } else {
        parents_refusal(parents)
    }
}

/// Checks the place of a credential, which comes before opening it.
pub fn validate_credential_location(path: &str, parents: &Vec<Option<DirectoryMetadata>>) -> (r:
    Result<(), TargetError>)
    ensures
        r == outcome(location_refusal(path@, parents@)),
{
    match validate_credential_path(path) {
        Err(e) => {
            return Err(e);
        },
        Ok(()) => {},
    }
    if parents.len() == 0 {
        return Err(TargetError::ParentNotInspected);
    }
    validate_root_owned_parent_chain(parents)
}

/// The name and the password as they are sent.
pub open spec fn login_of(c: MapleCredential) -> Seq<char> {
    c.username@ + ":"@ + c.password@
}

/// What is wrong with what was read. So few bytes as are accepted cannot hold a
/// login that is longer than they are; one that is counts as too large.
pub open spec fn content_refusal(
    content: CredentialContent,
    schema: Seq<char>,
    producer: Seq<char>,
) -> Option<TargetError> {
    if content.size > MAX_MAPLE_CREDENTIAL_BYTES {
        Some(TargetError::TooLarge)
    } else {
        match content.credential {
            None => Some(TargetError::NotDecoded),
            Some(c) => if byte_len(login_of(c)) > MAX_MAPLE_CREDENTIAL_BYTES {
                Some(TargetError::TooLarge)
            } else {
                credential_refusal(c, schema, producer)
            },
        }
    }
}

/// What is wrong with what was found at the path of a credential: with its
/// place first, then with the file, then with what the file holds.
pub open spec fn load_refusal(
    path: Seq<char>,
    schema: Seq<char>,
    producer: Seq<char>,
    found: CredentialFile,
) -> Option<TargetError> {
    match location_refusal(path, found.parents@) {
        Some(e) => Some(e),
        None => match found.metadata {
            None => Some(TargetError::NotRead),
            Some(m) => match file_refusal(m.regular_file, m.owner, m.mode, m.size) {
                Some(e) => Some(e),
                None => match found.content {
                    None => Some(TargetError::NotRead),
                    Some(content) => content_refusal(content, schema, producer),
                },
            },
        },
    }
}

fn login_fits(c: &MapleCredential) -> (r: bool)
    ensures
        r == (byte_len(login_of(*c)) <= MAX_MAPLE_CREDENTIAL_BYTES),
{
    let mut login = concat(c.username.as_str(), ":");
    let mut basic = concat(login.as_str(), c.password.as_str());
    let fits = length_in_bytes(basic.as_str()) <= MAX_MAPLE_CREDENTIAL_BYTES as usize;
    wipe(&mut login);
    wipe(&mut basic);
    fits
}

/// The credential at a path, if nothing is wrong with what was found there.
pub fn load_credential<'a>(
    path: &str,
    expected_schema: &str,
    expected_producer: &str,
    found: &'a CredentialFile,
) -> (r: Result<&'a MapleCredential, TargetError>)
    ensures
        match load_refusal(path@, expected_schema@, expected_producer@, *found) {
            Some(e) => r matches Err(x) && x == e,
            None => r matches Ok(c) && found.content matches Some(content) && content.credential
                == Some(*c),
        },
{
    match validate_credential_location(path, &found.parents) {
        Err(e) => {
            return Err(e);
        },
        Ok(()) => {},
    }
    match &found.metadata {
        None => {
            return Err(TargetError::NotRead);
        },
        Some(m) => match validate_credential_metadata(m.regular_file, m.owner, m.mode, m.size) {
            Err(e) => {
                return Err(e);
            },
            Ok(()) => {},
        },
    }
    match &found.content {
        None => Err(TargetError::NotRead),
        Some(content) => {
            if content.size > MAX_MAPLE_CREDENTIAL_BYTES {
                return Err(TargetError::TooLarge);
            }
            match &content.credential {
                None => Err(TargetError::NotDecoded),
                Some(c) => {
                    if !login_fits(c) {
                        return Err(TargetError::TooLarge);
                    }
                    match validate_credential(c, expected_schema, expected_producer) {
                        Err(e) => Err(e),
                        Ok(()) => Ok(c),
                    }
                },
            }
        },
    }
}

// --------------------------------------------------------------------------
// Overrides
// --------------------------------------------------------------------------

/// The environment variables that would override what the credential decides.
pub open spec fn override_keys() -> Seq<&'static str> {
    seq![
        "OTEL_EXPORTER_OTLP_ENDPOINT",
        "OTEL_EXPORTER_OTLP_METRICS_ENDPOINT",
        "OTEL_EXPORTER_OTLP_LOGS_ENDPOINT",
        "OTEL_EXPORTER_OTLP_PROTOCOL",
        "OTEL_EXPORTER_OTLP_METRICS_PROTOCOL",
        "OTEL_EXPORTER_OTLP_LOGS_PROTOCOL",
        "OTEL_EXPORTER_OTLP_HEADERS",
        "OTEL_EXPORTER_OTLP_METRICS_HEADERS",
        "OTEL_EXPORTER_OTLP_LOGS_HEADERS",
    ]
}

/// Refuses environment variables that would override the credential. No other
/// variable is asked for.
pub fn reject_otel_overrides_with(is_set: impl Fn(&str) -> bool) -> (r: Result<(), TargetError>)
    requires
        forall|i: int|
            0 <= i < override_keys().len() ==> call_requires(
                is_set,
                (#[trigger] override_keys()[i],),
            ),
    ensures
        r is Ok ==> forall|i: int|
            0 <= i < override_keys().len() ==> call_ensures(
                is_set,
                (#[trigger] override_keys()[i],),
                false,
            ),
        r is Err ==> exists|i: int|
            0 <= i < override_keys().len() && call_ensures(
                is_set,
                (#[trigger] override_keys()[i],),
                true,
            ),
        r matches Err(e) ==> e == TargetError::Overridden,
{
    let ghost keys = override_keys();
    assert(call_requires(is_set, (keys[0],)));
    if is_set("OTEL_EXPORTER_OTLP_ENDPOINT") {
        assert(call_ensures(is_set, (keys[0],), true));
        return Err(TargetError::Overridden);
    }
    assert(call_requires(is_set, (keys[1],)));
    if is_set("OTEL_EXPORTER_OTLP_METRICS_ENDPOINT") {
        assert(call_ensures(is_set, (keys[1],), true));
        return Err(TargetError::Overridden);
    }
    assert(call_requires(is_set, (keys[2],)));
    if is_set("OTEL_EXPORTER_OTLP_LOGS_ENDPOINT") {
        assert(call_ensures(is_set, (keys[2],), true));
        return Err(TargetError::Overridden);
    }
    assert(call_requires(is_set, (keys[3],)));
    if is_set("OTEL_EXPORTER_OTLP_PROTOCOL") {
        assert(call_ensures(is_set, (keys[3],), true));
        return Err(TargetError::Overridden);
    }
    assert(call_requires(is_set, (keys[4],)));
    if is_set("OTEL_EXPORTER_OTLP_METRICS_PROTOCOL") {
        assert(call_ensures(is_set, (keys[4],), true));
        return Err(TargetError::Overridden);
    }
    assert(call_requires(is_set, (keys[5],)));
    if is_set("OTEL_EXPORTER_OTLP_LOGS_PROTOCOL") {
        assert(call_ensures(is_set, (keys[5],), true));
        return Err(TargetError::Overridden);
    }
    assert(call_requires(is_set, (keys[6],)));
    if is_set("OTEL_EXPORTER_OTLP_HEADERS") {
        assert(call_ensures(is_set, (keys[6],), true));
        return Err(TargetError::Overridden);
    }
    assert(call_requires(is_set, (keys[7],)));
    if is_set("OTEL_EXPORTER_OTLP_METRICS_HEADERS") {
        assert(call_ensures(is_set, (keys[7],), true));
        return Err(TargetError::Overridden);
    }
    assert(call_requires(is_set, (keys[8],)));
    if is_set("OTEL_EXPORTER_OTLP_LOGS_HEADERS") {
        assert(call_ensures(is_set, (keys[8],), true));
        return Err(TargetError::Overridden);
    }
    Ok(())
}

/// A name is among those of some variables.
pub open spec fn listed(names: Seq<String>, key: Seq<char>) -> bool {
    exists|i: int| 0 <= i < names.len() && (#[trigger] names[i])@ == key
}

/// Some variable of the environment would override the credential.
pub open spec fn overridden(environment: Seq<String>) -> bool {
    exists|i: int|
        0 <= i < override_keys().len() && listed(environment, (#[trigger] override_keys()[i])@)
}

fn is_listed(names: &Vec<String>, key: &str) -> (r: bool)
    ensures
        r == listed(names@, key@),
{
    let mut i: usize = 0;
    while i < names.len()
        invariant
            i <= names@.len(),
            forall|j: int| 0 <= j < i ==> (#[trigger] names@[j])@ != key@,
        decreases names@.len() - i,
    {
        if same(names[i].as_str(), key) {
            return true;
        }
        i += 1;
    }
    false
}

/// Refuses an environment that would override the credential.
pub fn reject_otel_override_environment(environment: &Vec<String>) -> (r: Result<(), TargetError>)
    ensures
        r == outcome(
            if overridden(environment@) {
                Some(TargetError::Overridden)
            } else {
                None
            },
        ),
{
    let is_set = |key: &str| -> (b: bool)
        ensures
            b == listed(environment@, key@),
        { is_listed(environment, key) };
    let r = reject_otel_overrides_with(is_set);
    proof {
        if r is Ok {
            assert forall|i: int| 0 <= i < override_keys().len() implies !listed(
                environment@,
                (#[trigger] override_keys()[i])@,
            ) by {
                assert(call_ensures(is_set, (override_keys()[i],), false));
            }
        } else {
            let i = choose|i: int|
                0 <= i < override_keys().len() && call_ensures(
                    is_set,
                    (#[trigger] override_keys()[i],),
                    true,
                );
            assert(listed(environment@, override_keys()[i]@));
        }
    }
    match r {
        Ok(()) => Ok(()),
        Err(e) => Err(e),
    }
}

// --------------------------------------------------------------------------
// Exporters
// --------------------------------------------------------------------------

/// The character for six bits.
pub open spec fn base64_symbol(bits: int) -> char {
    "ABCDEFGHIJKLMNOPQRSTUVWXYZabcdefghijklmnopqrstuvwxyz0123456789+/"@[bits]
}

/// The standard Base64 text of some bytes: four characters for every three
/// bytes, six bits each, and padding where bytes are missing in the last three.
pub open spec fn base64_text(bytes: Seq<u8>) -> Seq<char>
    decreases bytes.len(),
{
    let a = bytes[0] as int;
    let b = bytes[1] as int;
    let c = bytes[2] as int;
    if bytes.len() == 0 {
        seq![]
    } else if bytes.len() == 1 {
        seq![base64_symbol(a / 4), base64_symbol(a % 4 * 16), '=', '=']
    } else if bytes.len() == 2 {
        seq![
            base64_symbol(a / 4),
            base64_symbol(a % 4 * 16 + b / 16),
            base64_symbol(b % 16 * 4),
            '=',
        ]
    } else {
        seq![
            base64_symbol(a / 4),
            base64_symbol(a % 4 * 16 + b / 16),
            base64_symbol(b % 16 * 4 + c / 64),
            base64_symbol(c % 64),
        ] + base64_text(bytes.skip(3))
    }
}

/// The Base64 text of so many bytes has a length in range.
pub open spec fn encodable(n: nat) -> bool {
    (n + 2) / 3 * 4 <= usize::MAX
}

/// `base64::engine::general_purpose::STANDARD.encode`: it writes the bytes in
/// the standard alphabet, with padding.
#[verifier::external_body]
fn base64_encode(bytes: &[u8]) -> (r: String)
    requires
        encodable(bytes@.len()),
    ensures
        r@ == base64_text(bytes@),
{
    base64::engine::general_purpose::STANDARD.encode(bytes)
}

/// The value of the authorization header.
pub open spec fn authorization_of(c: MapleCredential) -> Seq<char> {
    "Basic "@ + base64_text(vstd::utf8::encode_utf8(login_of(c)))
}

/// The endpoint of a signal.
pub open spec fn signal_endpoint(c: MapleCredential, path: Seq<char>) -> Seq<char> {
    trim_end_of(c.endpoint@, Class::Only('/')) + path
}

/// Where and how a credential lets export.
pub open spec fn maple_target(c: MapleCredential) -> Target {
    Target {
        plugin_name: "maple"@,
        protocol: OtlpProtocol::HttpProtobuf,
        metrics_endpoint: Some(signal_endpoint(c, "/v1/metrics"@)),
        logs_endpoint: Some(signal_endpoint(c, "/v1/logs"@)),
        headers: Map::empty().insert("authorization"@, authorization_of(c)),
        diagnostics: Map::empty().insert("producer"@, c.producer@),
    }
}

fn authorization(c: &MapleCredential) -> (r: String)
    requires
        encodable(byte_len(login_of(*c))),
    ensures
        r@ == authorization_of(*c),
{
    let mut login = concat(c.username.as_str(), ":");
    let mut basic = concat(login.as_str(), c.password.as_str());
    let mut encoded = base64_encode(basic.as_str().as_bytes());
    wipe(&mut login);
    wipe(&mut basic);
    let header = concat("Basic ", encoded.as_str());
    wipe(&mut encoded);
    header
}

fn endpoint_for(c: &MapleCredential, path: &str) -> (r: String)
    ensures
        r@ == signal_endpoint(*c, path@),
{
    let base = trim_end_char(c.endpoint.as_str(), '/');
    concat(base.as_str(), path)
}

/// Where and how a credential lets export.
pub fn exporter_config(credential: &MapleCredential) -> (r: PreparedOtlpTarget)
    requires
        encodable(byte_len(login_of(*credential))),
    ensures
        r@ == maple_target(*credential),
{
    let mut headers: Attributes = Table::new();
    headers.insert("authorization".to_owned(), authorization(credential));
    let mut diagnostics: Attributes = Table::new();
    diagnostics.insert("producer".to_owned(), credential.producer.clone());
    PreparedOtlpTarget {
        plugin_name: "maple",
        protocol: OtlpProtocol::HttpProtobuf,
        metrics_endpoint: Some(endpoint_for(credential, "/v1/metrics")),
        logs_endpoint: Some(endpoint_for(credential, "/v1/logs")),
        headers,
        diagnostics,
    }
}

/// The endpoints and the headers of the exporters.
pub struct MapleExporterConfig {
    pub metrics_endpoint: String,
    pub logs_endpoint: String,
    pub headers: Attributes,
}

/// The endpoints and the headers that a credential gives.
pub fn maple_exporter_config(credential: &MapleCredential) -> (r: MapleExporterConfig)
    requires
        encodable(byte_len(login_of(*credential))),
    ensures
        r.metrics_endpoint@ == signal_endpoint(*credential, "/v1/metrics"@),
        r.logs_endpoint@ == signal_endpoint(*credential, "/v1/logs"@),
        r.headers@ == Map::<Seq<char>, Seq<char>>::empty().insert(
            "authorization"@,
            authorization_of(*credential),
        ),
{
    let mut headers: Attributes = Table::new();
    headers.insert("authorization".to_owned(), authorization(credential));
    MapleExporterConfig {
        metrics_endpoint: endpoint_for(credential, "/v1/metrics"),
        logs_endpoint: endpoint_for(credential, "/v1/logs"),
        headers,
    }
}

/// The endpoints and the headers that the credential at a path gives, if nothing
/// is wrong with what was found there and it is of the default schema.
pub fn load_maple_exporter_config(path: &str, expected_producer: &str, found: &CredentialFile) -> (r:
    Result<MapleExporterConfig, TargetError>)
    ensures
        match load_refusal(path@, MAPLE_CREDENTIAL_SCHEMA@, expected_producer@, *found) {
            Some(e) => r matches Err(x) && x == e,
            None => r matches Ok(config) && {
                let c = found.content->0.credential->0;
                &&& config.metrics_endpoint@ == signal_endpoint(c, "/v1/metrics"@)
                &&& config.logs_endpoint@ == signal_endpoint(c, "/v1/logs"@)
                &&& config.headers@ == Map::<Seq<char>, Seq<char>>::empty().insert(
                    "authorization"@,
                    authorization_of(c),
                )
            },
        },
{
    match load_credential(path, MAPLE_CREDENTIAL_SCHEMA, expected_producer, found) {
        Err(e) => Err(e),
        Ok(c) => Ok(maple_exporter_config(c)),
    }
}

/// Where and how the target is exported to.
pub open spec fn maple_prepared(s: MapleSettings, given: Preparation) -> Result<
    Target,
    TargetError,
> {
    if overridden(given.environment@) {
        Err(TargetError::Overridden)
    } else {
        match load_refusal(s.credential, s.schema, s.producer, given.credential) {
            Some(e) => Err(e),
            None => Ok(maple_target(given.credential.content->0.credential->0)),
        }
    }
}

impl<'a> OtlpTargetPlugin for MaplePlugin<'a> {
    open spec fn plugin_name(&self) -> Seq<char> {
        "maple"@
    }

    open spec fn prepared(&self, given: Preparation) -> Result<Target, TargetError> {
        maple_prepared(self@, given)
    }

    fn name(&self) -> (r: &'static str) {
        "maple"
    }

    fn prepare(&self, given: &Preparation) -> (r: Result<PreparedOtlpTarget, TargetError>) {
        match reject_otel_override_environment(&given.environment) {
            Err(e) => {
                return Err(e);
            },
            Ok(()) => {},
        }
        match load_credential(self.credential, self.schema, self.producer, &given.credential) {
            Err(e) => Err(e),
            Ok(c) => Ok(exporter_config(c)),
        }
    }
}

/// A directory that only root controls.
pub open spec fn root_controlled(m: DirectoryMetadata) -> bool {
    !m.symlink && m.directory && m.owner == 0 && only_owner_writes(m.mode)
}

proof fn lemma_parents(ms: Seq<Option<DirectoryMetadata>>)
    ensures
        parents_refusal(ms) is None <==> forall|i: int|
            0 <= i < ms.len() ==> (#[trigger] ms[i] matches Some(m) && root_controlled(m)),
    decreases ms.len(),
{
    if ms.len() > 0 {
        lemma_parents(ms.skip(1));
        assert forall|i: int| 1 <= i < ms.len() implies #[trigger] ms[i] == ms.skip(1)[i - 1] by {}
        assert forall|i: int| 0 <= i < ms.len() - 1 implies #[trigger] ms.skip(1)[i] == ms[i
            + 1] by {}
    }
}

/// A target is prepared only from a credential at an absolute path, below
/// directories that only root controls, in a regular file of root's that nobody
/// else can read and that is not too large; and only from one that names the
/// configured schema and producer and has a valid endpoint, name and password,
/// where nothing in the environment can override what it decides.
pub proof fn law_prepared_target_comes_from_a_valid_credential(
    s: MapleSettings,
    given: Preparation,
)
    requires
        maple_prepared(s, given) is Ok,
    ensures
        !overridden(given.environment@),
        is_absolute(s.credential),
        given.credential.parents@.len() > 0,
        forall|i: int|
            0 <= i < given.credential.parents@.len() ==> (#[trigger] given.credential.parents@[i]
                matches Some(m) && root_controlled(m)),
        given.credential.metadata matches Some(m) && {
            &&& m.regular_file
            &&& m.owner == 0
            &&& m.mode % 4096 == 0o600
            &&& 0 < m.size <= MAX_MAPLE_CREDENTIAL_BYTES
        },
        given.credential.content matches Some(CredentialContent { size, credential: Some(c) }) && {
            &&& size <= MAX_MAPLE_CREDENTIAL_BYTES
            &&& c.schema@ == s.schema
            &&& c.producer@ == s.producer
            &&& is_endpoint(c.endpoint@)
            &&& c.protocol@ == MAPLE_PROTOCOL@
            &&& is_username(c.username@, s.producer)
            &&& is_password(c.password@)
            &&& maple_prepared(s, given) == Ok::<Target, TargetError>(maple_target(c))
        },
{
    lemma_parents(given.credential.parents@);
}

/// The endpoints of the signals lie directly below the base endpoint of a
/// valid credential.
pub proof fn law_signal_endpoints_extend_the_endpoint(
    c: MapleCredential,
    schema: Seq<char>,
    producer: Seq<char>,
    path: Seq<char>,
)
    requires
        credential_refusal(c, schema, producer) is None,
    ensures
        signal_endpoint(c, path) == c.endpoint@ + path,
{
    let e = c.endpoint@;
    let a = authority_of(e)->0;
    assert(a.last() != '/');
    assert(e.last() == a.last());
}

} // verus!
