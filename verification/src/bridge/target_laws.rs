//! What holds of the targets of the telemetry.

use super::maple::{
    base64_text, content_refusal, credential_refusal, file_refusal, is_endpoint,
    is_maple_configured, is_password, is_username, listed, load_refusal, location_refusal,
    maple_new, maple_prepared, maple_target, override_keys, overridden, parent_refusal,
    parents_refusal, signal_endpoint, CredentialContent, CredentialFile, DirectoryMetadata,
    MapleCredential, MapleOptions, MapleSettings,
};
use super::plugins::{OtlpProtocol, Preparation, TargetError, TargetOptions};
use super::standard::{standard_new, standard_target};
use crate::text::{byte_len, is_alphanumeric, is_space};
use vstd::prelude::*;

verus! {

// --------------------------------------------------------------------------
// Credentials
// --------------------------------------------------------------------------

proof fn lemma_begins(p: Seq<char>, rest: Seq<char>)
    ensures
        (p + rest).take(p.len() as int) == p,
        (p + rest).skip(p.len() as int) == rest,
{
    assert((p + rest).take(p.len() as int) =~= p);
    assert((p + rest).skip(p.len() as int) =~= rest);
}

/// A character of an authority: neither white space nor one that begins a path,
/// a query or a fragment.
pub open spec fn stands_in_authority(c: char) -> bool {
    c != '/' && c != '?' && c != '#' && !is_space(c)
}

/// An HTTP scheme with a plain authority is an endpoint; one with a path, a
/// query, a fragment or white space is none, and neither is an empty one.
pub proof fn law_endpoints_have_an_authority_alone(authority: Seq<char>, i: int)
    ensures
        authority.len() > 0 && (forall|j: int|
            0 <= j < authority.len() ==> stands_in_authority(#[trigger] authority[j]))
            ==> is_endpoint("http://"@ + authority) && is_endpoint("https://"@ + authority),
        0 <= i < authority.len() && !stands_in_authority(authority[i]) ==> !is_endpoint(
            "http://"@ + authority,
        ) && !is_endpoint("https://"@ + authority),
        authority.len() == 0 ==> !is_endpoint("http://"@ + authority) && !is_endpoint(
            "https://"@ + authority,
        ),
{
    let plain = "http://"@;
    let safe = "https://"@;
    lemma_begins(plain, authority);
    lemma_begins(safe, authority);
    reveal_strlit("http://");
    reveal_strlit("https://");
    assert(plain.len() == 7 && safe.len() == 8 && plain[4] == ':' && safe[4] == 's');
    assert((safe + authority).take(7)[4] == 's');
    assert((safe + authority).take(7) != plain);
    let all = forall|j: int|
        0 <= j < authority.len() ==> stands_in_authority(#[trigger] authority[j]);
    if all && authority.len() > 0 {
        assert forall|j: int| 0 <= j < authority.len() implies {
            let c = #[trigger] authority[j];
            c != '/' && c != '?' && c != '#' && !is_space(c)
        } by {
            assert(stands_in_authority(authority[j]));
        }
    }
}

/// An HTTP scheme and an authority.
pub open spec fn is_url(endpoint: Seq<char>, authority: Seq<char>) -> bool {
    endpoint == "http://"@ + authority || endpoint == "https://"@ + authority
}

/// Nothing but an HTTP scheme begins an endpoint.
pub proof fn law_endpoints_have_a_scheme(endpoint: Seq<char>)
    requires
        is_endpoint(endpoint),
    ensures
        exists|authority: Seq<char>| is_url(endpoint, authority),
{
    if endpoint.take("http://"@.len() as int) == "http://"@ && "http://"@.len() <= endpoint.len() {
        let authority = endpoint.skip("http://"@.len() as int);
        assert(endpoint =~= endpoint.take("http://"@.len() as int) + authority);
        assert(is_url(endpoint, authority));
    } else {
        let authority = endpoint.skip("https://"@.len() as int);
        assert(endpoint =~= endpoint.take("https://"@.len() as int) + authority);
        assert(is_url(endpoint, authority));
    }
}

/// The names of a producer are made of a fixed word, the producer and letters or
/// digits behind it; a name with anything else behind the producer is not one of
/// them.
pub proof fn law_names_belong_to_their_producer(producer: Seq<char>, tail: Seq<char>, i: int)
    ensures
        ({
            let username = "maple-"@ + producer + "-"@ + tail;
            &&& tail.len() > 0 && (forall|j: int|
                0 <= j < tail.len() ==> is_alphanumeric(#[trigger] tail[j]))
                && !producer.contains(':') ==> is_username(username, producer)
            &&& tail.len() == 0 ==> !is_username(username, producer)
            &&& 0 <= i < tail.len() && !is_alphanumeric(tail[i]) ==> !is_username(
                username,
                producer,
            )
            &&& producer.contains(':') ==> !is_username(username, producer)
        }),
{
    let head = "maple-"@ + producer + "-"@;
    let username = head + tail;
    lemma_begins(head, tail);
    reveal_strlit("maple-");
    reveal_strlit("-");
    if tail.len() > 0 && (forall|j: int|
        0 <= j < tail.len() ==> is_alphanumeric(#[trigger] tail[j])) && !producer.contains(':') {
        if username.contains(':') {
            let k = choose|k: int| 0 <= k < username.len() && username[k] == ':';
            if k < 6 {
                assert(username[k] == "maple-"@[k]);
            } else if k < 6 + producer.len() {
                assert(producer[k - 6] == ':');
            } else if k == 6 + producer.len() {
                assert(username[k] == '-');
            } else {
                assert(is_alphanumeric(tail[k - 7 - producer.len()]));
            }
        }
    }
    if producer.contains(':') {
        let k = choose|k: int| 0 <= k < producer.len() && producer[k] == ':';
        assert(username[k + 6] == ':');
    }
}

/// A password is a text that is not empty and fits on a line.
pub proof fn law_passwords_fit_on_a_line(password: Seq<char>, i: int)
    ensures
        password.len() == 0 ==> !is_password(password),
        0 <= i < password.len() && (password[i] == '\r' || password[i] == '\n') ==> !is_password(
            password,
        ),
        password.len() > 0 && (forall|j: int|
            0 <= j < password.len() ==> #[trigger] password[j] != '\r' && password[j] != '\n')
            ==> is_password(password),
{
}

/// A credential is accepted exactly if it names the configured schema, which is
/// not empty, and the configured producer, and its endpoint, protocol, name and
/// password are valid; the first that is not is what it is refused for.
pub proof fn law_credentials_are_checked(
    c: MapleCredential,
    schema: Seq<char>,
    producer: Seq<char>,
)
    ensures
        ({
            let refusal = credential_refusal(c, schema, producer);
            let known = schema.len() > 0 && c.schema@ == schema;
            let own = c.producer@ == producer;
            let reachable = is_endpoint(c.endpoint@);
            let spoken = c.protocol@ == "http/protobuf"@;
            let named = is_username(c.username@, producer);
            let secret = is_password(c.password@);
            &&& refusal is None <==> known && own && reachable && spoken && named && secret
            &&& !known ==> refusal == Some(TargetError::WrongSchema)
            &&& known && !own ==> refusal == Some(TargetError::WrongProducer)
            &&& known && own && !reachable ==> refusal == Some(TargetError::WrongEndpoint)
            &&& known && own && reachable && !spoken ==> refusal == Some(
                TargetError::WrongProtocol,
            )
            &&& known && own && reachable && spoken && !named ==> refusal == Some(
                TargetError::WrongUsername,
            )
            &&& known && own && reachable && spoken && named && !secret ==> refusal == Some(
                TargetError::WrongPassword,
            )
        }),
{
}

// --------------------------------------------------------------------------
// Files
// --------------------------------------------------------------------------

/// A parent directory is accepted exactly if it is a directory of root's, no
/// link, that neither the group nor others may write.
pub proof fn law_parents_are_checked(m: DirectoryMetadata)
    ensures
        parent_refusal(m) is None <==> !m.symlink && m.directory && m.owner == 0 && m.mode & 0o022
            == 0,
        m.symlink || !m.directory ==> parent_refusal(m) == Some(TargetError::ParentNotADirectory),
        !m.symlink && m.directory && (m.owner != 0 || m.mode & 0o022 != 0) ==> parent_refusal(m)
            == Some(TargetError::ParentNotRootControlled),
{
    let mode = m.mode;
    assert((mode / 16) % 2 == 0 && (mode / 2) % 2 == 0 <==> mode & 0o022 == 0) by (bit_vector);
}

/// All parent directories have to be accepted; the nearest that is not, or could
/// not be inspected, is what is refused.
pub proof fn law_all_parents_are_checked(ms: Seq<Option<DirectoryMetadata>>, k: int)
    requires
        0 <= k <= ms.len(),
        forall|j: int|
            0 <= j < k ==> (#[trigger] ms[j] matches Some(m) && parent_refusal(m) is None),
    ensures
        k == ms.len() ==> parents_refusal(ms) is None,
        k < ms.len() && ms[k] is None ==> parents_refusal(ms) == Some(
            TargetError::ParentNotInspected,
        ),
        k < ms.len() ==> (ms[k] matches Some(m) ==> (parent_refusal(m) is Some ==> parents_refusal(
            ms,
        ) == parent_refusal(m))),
    decreases k,
{
    if k > 0 {
        let rest = ms.skip(1);
        assert forall|j: int| 0 <= j < k - 1 implies (#[trigger] rest[j] matches Some(m)
            && parent_refusal(m) is None) by {
            assert(rest[j] == ms[j + 1]);
        }
        assert(ms[0] is Some);
        law_all_parents_are_checked(rest, k - 1);
        if k < ms.len() {
            assert(rest[k - 1] == ms[k]);
        }
    }
}

/// A credential file is accepted exactly if it is a regular file of root's that
/// root alone may read and write, with 1 to 16384 bytes.
pub proof fn law_files_are_checked(regular_file: bool, owner: u32, mode: u32, size: u64)
    ensures
        ({
            let refusal = file_refusal(regular_file, owner, mode, size);
            let private = mode & 0o7777 == 0o600;
            &&& refusal is None <==> regular_file && owner == 0 && private && 1 <= size <= 16384
            &&& !regular_file ==> refusal == Some(TargetError::NotARegularFile)
            &&& regular_file && owner != 0 ==> refusal == Some(TargetError::NotOwnedByRoot)
            &&& regular_file && owner == 0 && !private ==> refusal == Some(TargetError::WrongMode)
            &&& regular_file && owner == 0 && private && (size == 0 || size > 16384) ==> refusal
                == Some(TargetError::WrongSize)
        }),
{
    assert(mode % 4096 == mode & 0o7777) by (bit_vector);
}

/// The place of a credential is checked first: its path starts at the root, and
/// there is a directory above it.
pub proof fn law_places_are_checked(path: Seq<char>, parents: Seq<Option<DirectoryMetadata>>)
    ensures
        path.len() == 0 || path[0] != '/' ==> location_refusal(path, parents) == Some(
            TargetError::PathNotAbsolute,
        ),
        path.len() > 0 && path[0] == '/' && parents.len() == 0 ==> location_refusal(path, parents)
            == Some(TargetError::ParentNotInspected),
        path.len() > 0 && path[0] == '/' && parents.len() > 0 ==> location_refusal(path, parents)
            == parents_refusal(parents),
{
    reveal_strlit("/");
    assert("/"@ =~= seq!['/']);
    if path.len() > 0 {
        assert(path.take(1) =~= seq![path[0]]);
        assert(seq![path[0]][0] == path[0] && "/"@[0] == '/');
    }
}

/// What was read is refused where it is too large, holds no credential, or holds
/// one that is refused.
pub proof fn law_contents_are_checked(
    content: CredentialContent,
    schema: Seq<char>,
    producer: Seq<char>,
)
    ensures
        content.size > 16384 ==> content_refusal(content, schema, producer) == Some(
            TargetError::TooLarge,
        ),
        content.size <= 16384 && content.credential is None ==> content_refusal(
            content,
            schema,
            producer,
        ) == Some(TargetError::NotDecoded),
        content.size <= 16384 ==> (content.credential matches Some(c) ==> (byte_len(
            c.username@ + ":"@ + c.password@,
        ) <= 16384 ==> content_refusal(content, schema, producer) == credential_refusal(
            c,
            schema,
            producer,
        ))),
        content.size <= 16384 ==> (content.credential matches Some(c) ==> (byte_len(
            c.username@ + ":"@ + c.password@,
        ) > 16384 ==> content_refusal(content, schema, producer) == Some(TargetError::TooLarge))),
{
}

/// A credential is loaded only where its place, then its file and then its
/// content pass; the first that does not is what is refused.
pub proof fn law_loading_checks_in_order(
    path: Seq<char>,
    schema: Seq<char>,
    producer: Seq<char>,
    found: CredentialFile,
)
    ensures
        ({
            let refusal = load_refusal(path, schema, producer, found);
            let place = location_refusal(path, found.parents@);
            &&& place is Some ==> refusal == place
            &&& place is None && found.metadata is None ==> refusal == Some(TargetError::NotRead)
            &&& place is None ==> (found.metadata matches Some(m) ==> (file_refusal(
                m.regular_file,
                m.owner,
                m.mode,
                m.size,
            ) matches Some(e) ==> refusal == Some(e)))
            &&& place is None ==> (found.metadata matches Some(m) ==> (file_refusal(
                m.regular_file,
                m.owner,
                m.mode,
                m.size,
            ) is None ==> (found.content is None ==> refusal == Some(TargetError::NotRead)) && (
            found.content matches Some(content) ==> refusal == content_refusal(
                content,
                schema,
                producer,
            ))))
        }),
{
}

// --------------------------------------------------------------------------
// Targets
// --------------------------------------------------------------------------

/// Each of these variables of the environment overrides what a credential
/// decides, and no other does.
pub proof fn law_variables_override(environment: Seq<String>)
    ensures
        listed(environment, "OTEL_EXPORTER_OTLP_ENDPOINT"@) ==> overridden(environment),
        listed(environment, "OTEL_EXPORTER_OTLP_METRICS_ENDPOINT"@) ==> overridden(environment),
        listed(environment, "OTEL_EXPORTER_OTLP_LOGS_ENDPOINT"@) ==> overridden(environment),
        listed(environment, "OTEL_EXPORTER_OTLP_PROTOCOL"@) ==> overridden(environment),
        listed(environment, "OTEL_EXPORTER_OTLP_METRICS_PROTOCOL"@) ==> overridden(environment),
        listed(environment, "OTEL_EXPORTER_OTLP_LOGS_PROTOCOL"@) ==> overridden(environment),
        listed(environment, "OTEL_EXPORTER_OTLP_HEADERS"@) ==> overridden(environment),
        listed(environment, "OTEL_EXPORTER_OTLP_METRICS_HEADERS"@) ==> overridden(environment),
        listed(environment, "OTEL_EXPORTER_OTLP_LOGS_HEADERS"@) ==> overridden(environment),
        overridden(environment) ==> listed(environment, "OTEL_EXPORTER_OTLP_ENDPOINT"@) || listed(
            environment,
            "OTEL_EXPORTER_OTLP_METRICS_ENDPOINT"@,
        ) || listed(environment, "OTEL_EXPORTER_OTLP_LOGS_ENDPOINT"@) || listed(
            environment,
            "OTEL_EXPORTER_OTLP_PROTOCOL"@,
        ) || listed(environment, "OTEL_EXPORTER_OTLP_METRICS_PROTOCOL"@) || listed(
            environment,
            "OTEL_EXPORTER_OTLP_LOGS_PROTOCOL"@,
        ) || listed(environment, "OTEL_EXPORTER_OTLP_HEADERS"@) || listed(
            environment,
            "OTEL_EXPORTER_OTLP_METRICS_HEADERS"@,
        ) || listed(environment, "OTEL_EXPORTER_OTLP_LOGS_HEADERS"@),
{
    let keys = override_keys();
    assert(keys[0] == "OTEL_EXPORTER_OTLP_ENDPOINT");
    assert(keys[1] == "OTEL_EXPORTER_OTLP_METRICS_ENDPOINT");
    assert(keys[2] == "OTEL_EXPORTER_OTLP_LOGS_ENDPOINT");
    assert(keys[3] == "OTEL_EXPORTER_OTLP_PROTOCOL");
    assert(keys[4] == "OTEL_EXPORTER_OTLP_METRICS_PROTOCOL");
    assert(keys[5] == "OTEL_EXPORTER_OTLP_LOGS_PROTOCOL");
    assert(keys[6] == "OTEL_EXPORTER_OTLP_HEADERS");
    assert(keys[7] == "OTEL_EXPORTER_OTLP_METRICS_HEADERS");
    assert(keys[8] == "OTEL_EXPORTER_OTLP_LOGS_HEADERS");
}

/// A target exports metrics and logs to their own paths below the endpoint of
/// its credential, with its name and password, in protocol buffers.
pub proof fn law_targets_follow_their_credential(c: MapleCredential)
    requires
        is_endpoint(c.endpoint@),
    ensures
        ({
            let t = maple_target(c);
            &&& t.plugin_name == "maple"@
            &&& t.protocol == OtlpProtocol::HttpProtobuf
            &&& t.metrics_endpoint == Some(c.endpoint@ + "/v1/metrics"@)
            &&& t.logs_endpoint == Some(c.endpoint@ + "/v1/logs"@)
            &&& t.headers == map![
                "authorization"@ => "Basic "@ + base64_text(
                    vstd::utf8::encode_utf8(c.username@ + ":"@ + c.password@),
                )
            ]
            &&& t.diagnostics == map!["producer"@ => c.producer@]
        }),
{
    let e = c.endpoint@;
    law_endpoints_have_a_scheme(e);
    let authority = choose|authority: Seq<char>| is_url(e, authority);
    law_endpoints_have_an_authority_alone(authority, authority.len() - 1);
    assert(e.last() == authority.last());
    assert(signal_endpoint(c, "/v1/metrics"@) == e + "/v1/metrics"@);
    assert(signal_endpoint(c, "/v1/logs"@) == e + "/v1/logs"@);
}

/// The target of a conventional collector decides nothing, and takes no settings
/// of another target.
pub proof fn law_the_standard_target_decides_nothing(options: TargetOptions)
    ensures
        ({
            let t = standard_target();
            &&& t.plugin_name == "standard"@
            &&& t.protocol == OtlpProtocol::HttpProtobuf
            &&& t.metrics_endpoint is None
            &&& t.logs_endpoint is None
            &&& t.headers == Map::<Seq<char>, Seq<char>>::empty()
            &&& t.diagnostics == Map::<Seq<char>, Seq<char>>::empty()
        }),
        options.maple.credential is Some || options.maple.credential_schema is Some
            || options.maple.producer is Some ==> standard_new(options) == Some(
            TargetError::ForeignSettings,
        ),
        options.maple.credential is None && options.maple.credential_schema is None
            && options.maple.producer is None ==> standard_new(options) is None,
{
}

/// All settings have to be given, and the first that is not is what is missing.
pub proof fn law_settings_are_complete(o: MapleOptions)
    ensures
        o.credential is None ==> maple_new(o) == Err::<MapleSettings, TargetError>(
            TargetError::CredentialMissing,
        ),
        o.credential is Some && o.credential_schema is None ==> maple_new(o) == Err::<
            MapleSettings,
            TargetError,
        >(TargetError::SchemaMissing),
        o.credential is Some && o.credential_schema is Some && o.producer is None ==> maple_new(o)
            == Err::<MapleSettings, TargetError>(TargetError::ProducerMissing),
        o.credential matches Some(c) ==> (o.credential_schema matches Some(s) ==> (
        o.producer matches Some(p) ==> maple_new(o) == Ok::<MapleSettings, TargetError>(
            MapleSettings { credential: c@, schema: s@, producer: p@ },
        ))),
        is_maple_configured(o) <==> !(o.credential is None && o.credential_schema is None
            && o.producer is None),
{
}

/// A target is refused where the environment overrides it or its credential is
/// refused, and follows its credential otherwise.
pub proof fn law_targets_are_prepared(s: MapleSettings, given: Preparation)
    ensures
        ({
            let r = maple_prepared(s, given);
            let refusal = load_refusal(s.credential, s.schema, s.producer, given.credential);
            &&& overridden(given.environment@) ==> (r matches Err(e) && e
                == TargetError::Overridden)
            &&& !overridden(given.environment@) ==> (refusal matches Some(x) ==> (
            r matches Err(e) && e == x))
            &&& !overridden(given.environment@) && refusal is None ==> (r matches Ok(t)
                && given.credential.content is Some
                && given.credential.content->0.credential is Some && t == maple_target(
                given.credential.content->0.credential->0,
            ))
        }),
{
}

} // verus!
