//! The saved configuration: services, their pipelines of filter instances,
//! the structural rules a config must meet, the built rule set the data
//! plane reads, and how a config blob is committed to and read back from
//! storage.

use vstd::prelude::*;
use crate::filter::FilterInstance;
use crate::filter_error::{BuildError, json_error_text};
use crate::protocol::{ProtocolKind, ProxyMode};
use crate::storage::{Storage, StorageError, StoreModel, VersionRecord, blob_from, opt_str_view};
use crate::text::{concat_str, str_eq};
use crate::verdict::BlockResponse;

verus! {

/// `serde_json::Value`, carried through opaquely: a filter's own config.
#[verifier::external_type_specification]
#[verifier::external_body]
pub struct ExJsonValue(serde_json::Value);

/// `Clone` for a JSON value: a deep copy. Nothing is stated of the copy.
pub assume_specification[ <serde_json::Value as std::clone::Clone>::clone ](v: &serde_json::Value) -> (r: serde_json::Value);

/// The `{:?}` rendering of a string: the text between double quotes, with
/// quotes, backslashes and control characters escaped as Rust escapes them.
pub uninterp spec fn str_debug(s: Seq<char>) -> Seq<char>;

/// `format!("{:?}", s)`: the quoted, escaped rendering of `s`.
#[verifier::external_body]
fn debug_quoted(s: &str) -> (r: String)
    ensures
        r@ == str_debug(s@),
{
    format!("{:?}", s)
}

/// Top-level Minos config. One instance is in effect at any moment; the
/// version history holds previous instances.
#[derive(Debug, Clone)]
pub struct Config {
    /// All defended services, in the order they appear in the UI.
    pub services: Vec<ServiceConfig>,
    /// Default block response when a service doesn't override.
    pub default_block_response: BlockResponse,
}

/// One defended service.
#[derive(Debug, Clone)]
pub struct ServiceConfig {
    /// Operator-supplied display name (used in the UI and in log entries).
    /// Must be unique within the `Config`.
    pub name: String,
    /// How Minos receives traffic for this service.
    pub mode: ProxyMode,
    /// Application-layer protocol Minos should treat the service as speaking.
    pub protocol: ProtocolKind,
    /// Filter pipeline, run in order; first `Block` wins.
    pub pipeline: Vec<FilterInstanceCfg>,
    /// Per-service override of the block response.
    pub block_response_override: Option<BlockResponse>,
    /// Cap on the inspected payload size per logical unit.
    pub max_body_bytes: usize,
}

/// Per-instance filter configuration. The `kind` field selects which filter
/// kind will deserialize `config` and build the runnable filter.
#[derive(Debug, Clone)]
pub struct FilterInstanceCfg {
    /// Stable id for this instance.
    pub id: u128,
    /// Operator-supplied display name.
    pub display_name: String,
    /// Name of the kind that builds this filter.
    pub kind: String,
    /// Opaque per-kind config blob.
    pub config: serde_json::Value,
    /// Whether the executor should run this instance at all.
    pub enabled: bool,
    /// Whether matches should be logged-only instead of blocking.
    pub dry_run: bool,
    /// Inspect inbound packets.
    pub on_inbound: bool,
    /// Inspect outbound packets.
    pub on_outbound: bool,
}

impl Default for Config {
    fn default() -> (r: Self)
        ensures
            r.services@.len() == 0,
            r.default_block_response.is_default_403(),
    {
        Config { services: Vec::new(), default_block_response: BlockResponse::default() }
    }
}

/// Errors from saving or loading a `Config`.
#[derive(Debug)]
pub enum ConfigError {
    /// The config blob couldn't be deserialized.
    Malformed(serde_json::Error),
    /// The storage backend rejected the operation.
    Storage(StorageError),
    /// At least one filter in the config could not be built.
    FilterBuild {
        /// Service name the failing filter belongs to.
        service: String,
        /// Display name of the failing filter instance.
        filter: String,
        /// Underlying registry build error.
        source: BuildError,
    },
    /// The config violates a structural invariant (duplicate service name, etc.).
    Invalid(String),
}

impl ConfigError {
    /// The message of the error, for the variants whose text the crate
    /// determines in full.
    pub open spec fn spec_message(&self) -> Option<Seq<char>> {
        match self {
            ConfigError::Storage(e) => Some("storage: "@ + e.spec_message()),
            ConfigError::Invalid(s) => Some("invalid config: "@ + s@),
            ConfigError::FilterBuild { service, filter, source } => match source.spec_message() {
                Some(m) => Some(
                    "filter build failed for service "@ + service@ + " filter "@ + filter@ + ": "@
                        + m,
                ),
                None => None,
            },
            ConfigError::Malformed(_) => None,
        }
    }

    /// The human-readable message of the error (what `Display` shows).
    pub fn message(&self) -> (r: String)
        ensures
            self.spec_message() matches Some(m) ==> r@ == m,
    {
        match self {
            ConfigError::Malformed(e) => concat_str("malformed config: ", json_error_text(e).as_str()),
            ConfigError::Storage(e) => concat_str("storage: ", e.message().as_str()),
            ConfigError::FilterBuild { service, filter, source } => {
                let mut s = concat_str("filter build failed for service ", service.as_str());
                s.append(" filter ");
                s.append(filter.as_str());
                s.append(": ");
                s.append(source.message().as_str());
                s
            },
            ConfigError::Invalid(s) => concat_str("invalid config: ", s.as_str()),
        }
    }
}

/// Whether an earlier service than `i` has the same name as service `i`.
pub open spec fn name_taken_before(ss: Seq<ServiceConfig>, i: int) -> bool {
    exists|j: int| 0 <= j < i && (#[trigger] ss[j]).name@ == ss[i].name@
}

/// Whether service `i` breaks a structural rule: its name repeats an
/// earlier one, or its body cap is zero.
pub open spec fn service_faulty(ss: Seq<ServiceConfig>, i: int) -> bool {
    name_taken_before(ss, i) || ss[i].max_body_bytes == 0
}

/// The message reporting the fault of service `i`: the repeated name takes
/// precedence over the zero body cap.
pub open spec fn fault_message(ss: Seq<ServiceConfig>, i: int) -> Seq<char> {
    if name_taken_before(ss, i) {
        "duplicate service name "@ + str_debug(ss[i].name@)
    } else {
        "service "@ + str_debug(ss[i].name@) + ": max_body_bytes must be > 0"@
    }
}

/// A config has no faulty service exactly when its service names are
/// pairwise distinct and every body cap is positive.
pub proof fn law_structure_is_unique_names_and_positive_caps(ss: Seq<ServiceConfig>)
    ensures
        (forall|i: int| 0 <= i < ss.len() ==> !service_faulty(ss, i)) <==> {
            &&& forall|i: int, j: int|
                0 <= i < j < ss.len() ==> (#[trigger] ss[i]).name@ != (#[trigger] ss[j]).name@
            &&& forall|i: int| 0 <= i < ss.len() ==> (#[trigger] ss[i]).max_body_bytes > 0
        },
{
    if forall|i: int| 0 <= i < ss.len() ==> !service_faulty(ss, i) {
        assert forall|i: int, j: int| 0 <= i < j < ss.len() implies (#[trigger] ss[i]).name@
            != (#[trigger] ss[j]).name@ by {
            assert(!service_faulty(ss, j));
            if ss[i].name@ == ss[j].name@ {
                assert(name_taken_before(ss, j));
            }
        }
        assert forall|i: int| 0 <= i < ss.len() implies (#[trigger] ss[i]).max_body_bytes > 0 by {
            assert(!service_faulty(ss, i));
        }
    }
}

/// Check the structural rules of a config: service names are unique and
/// every body cap is positive. The first faulty service, in order, is
/// reported as `Invalid`.
pub fn check_structure(cfg: &Config) -> (r: Result<(), ConfigError>)
    ensures
        r is Ok <==> {
            &&& forall|i: int, j: int|
                0 <= i < j < cfg.services@.len() ==> (#[trigger] cfg.services@[i]).name@
                    != (#[trigger] cfg.services@[j]).name@
            &&& forall|i: int|
                0 <= i < cfg.services@.len() ==> (#[trigger] cfg.services@[i]).max_body_bytes > 0
        },
        r is Ok <==> forall|i: int| 0 <= i < cfg.services@.len() ==> !service_faulty(cfg.services@, i),
        r matches Err(e) ==> exists|i: int|
            {
                &&& 0 <= i < cfg.services@.len()
                &&& service_faulty(cfg.services@, i)
                &&& forall|k: int| 0 <= k < i ==> !service_faulty(cfg.services@, k)
                &&& e matches ConfigError::Invalid(m) && m@ == fault_message(cfg.services@, i)
            },
{
    let ghost ss = cfg.services@;
    proof {
        law_structure_is_unique_names_and_positive_caps(ss);
    }
    let mut i: usize = 0;
    while i < cfg.services.len()
        invariant
            ss == cfg.services@,
            i <= ss.len(),
            forall|k: int| 0 <= k < i ==> !service_faulty(ss, k),
        decreases cfg.services.len() - i,
    {
        let name = cfg.services[i].name.as_str();
        let mut j: usize = 0;
        let mut dup = false;
        while j < i
            invariant
                ss == cfg.services@,
                i < ss.len(),
                j <= i,
                name@ == ss[i as int].name@,
                dup ==> name_taken_before(ss, i as int),
                forall|k: int| 0 <= k < i ==> !service_faulty(ss, k),
                !dup ==> forall|k: int| 0 <= k < j ==> ss[k].name@ != ss[i as int].name@,
            decreases i - j,
        {
            if str_eq(cfg.services[j].name.as_str(), name) {
                dup = true;
            }
            j += 1;
        }
        if dup {
            proof {
                reveal_strlit("duplicate service name ");
            }
            let msg = concat_str("duplicate service name ", debug_quoted(name).as_str());
            assert(service_faulty(ss, i as int));
            assert(msg@ == fault_message(ss, i as int));
            return Err(ConfigError::Invalid(msg));
        }
        assert(!name_taken_before(ss, i as int));
        if cfg.services[i].max_body_bytes == 0 {
            proof {
                reveal_strlit("service ");
                reveal_strlit(": max_body_bytes must be > 0");
            }
            let mut msg = concat_str("service ", debug_quoted(name).as_str());
            msg.append(": max_body_bytes must be > 0");
            assert(service_faulty(ss, i as int));
            assert(msg@ == fault_message(ss, i as int));
            return Err(ConfigError::Invalid(msg));
        }
        i += 1;
    }
    Ok(())
}

/// `inst` carries the settings of the config entry `cfg`.
pub open spec fn instance_of(inst: FilterInstance, cfg: FilterInstanceCfg) -> bool {
    &&& inst.id == cfg.id
    &&& inst.display_name@ == cfg.display_name@
    &&& inst.enabled == cfg.enabled
    &&& inst.dry_run == cfg.dry_run
    &&& inst.on_inbound == cfg.on_inbound
    &&& inst.on_outbound == cfg.on_outbound
}

/// Take the outcome of building the next filter of `service`'s pipeline (the
/// one at position `built.len()`): a built filter, in an instance whose
/// settings are then taken from the config entry, becomes the next
/// instance; a build error becomes `FilterBuild` naming the service and the
/// filter, and `built` is left as it was. Building the filters in order and
/// stopping at the first error reports the first filter, in pipeline order,
/// that fails.
pub fn add_built_filter(
    service: &ServiceConfig,
    built: &mut Vec<FilterInstance>,
    outcome: Result<FilterInstance, BuildError>,
) -> (r: Result<(), ConfigError>)
    requires
        old(built)@.len() < service.pipeline@.len(),
    ensures
        match outcome {
            Ok(inst) => {
                &&& r is Ok
                &&& final(built)@.len() == old(built)@.len() + 1
                &&& final(built)@.take(old(built)@.len() as int) == old(built)@
                &&& instance_of(final(built)@.last(), service.pipeline@[old(built)@.len() as int])
                &&& final(built)@.last().filter == inst.filter
            },
            Err(e) => {
                &&& final(built)@ == old(built)@
                &&& r matches Err(ConfigError::FilterBuild { service: sn, filter: fname, source })
                &&& sn@ == service.name@
                &&& fname@ == service.pipeline@[old(built)@.len() as int].display_name@
                &&& source == e
            },
        },
{
    let cfg = &service.pipeline[built.len()];
    match outcome {
        Ok(inst) => {
            let mut inst = inst;
            inst.id = cfg.id;
            inst.display_name = cfg.display_name.clone();
            inst.enabled = cfg.enabled;
            inst.dry_run = cfg.dry_run;
            inst.on_inbound = cfg.on_inbound;
            inst.on_outbound = cfg.on_outbound;
            built.push(inst);
            assert(built@.take(old(built)@.len() as int) =~= old(built)@);
            Ok(())
        },
        Err(source) => Err(
            ConfigError::FilterBuild {
                service: service.name.clone(),
                filter: cfg.display_name.clone(),
                source,
            },
        ),
    }
}

/// The built form of a [`Config`]: the source config plus one pipeline of
/// runnable filter instances per service, in the same order.
pub struct RuleSet {
    /// The config the rule set was built from.
    pub source: Config,
    /// `pipelines[i]` is the built pipeline of `source.services[i]`.
    pub pipelines: Vec<Vec<FilterInstance>>,
}

impl RuleSet {
    /// One pipeline per service.
    pub open spec fn wf(&self) -> bool {
        self.pipelines@.len() == self.source.services@.len()
    }

    /// A rule set for `source` whose pipelines are all empty.
    pub fn empty_for(source: Config) -> (r: Self)
        ensures
            r.wf(),
            r.source.services@ == source.services@,
            forall|i: int| 0 <= i < r.pipelines@.len() ==> (#[trigger] r.pipelines@[i])@.len() == 0,
    {
        let mut pipelines: Vec<Vec<FilterInstance>> = Vec::new();
        let mut i: usize = 0;
        while i < source.services.len()
            invariant
                i <= source.services@.len(),
                pipelines@.len() == i,
                forall|k: int| 0 <= k < i ==> (#[trigger] pipelines@[k])@.len() == 0,
            decreases source.services.len() - i,
        {
            pipelines.push(Vec::new());
            i += 1;
        }
        RuleSet { source, pipelines }
    }

    /// The services, in config order.
    pub fn services(&self) -> (r: &[ServiceConfig])
        ensures
            r@ == self.source.services@,
    {
        self.source.services.as_slice()
    }

    /// The pipeline of service `service_idx`.
    pub fn pipeline_for(&self, service_idx: usize) -> (r: &[FilterInstance])
        requires
            service_idx < self.pipelines@.len(),
        ensures
            r@ == self.pipelines@[service_idx as int]@,
    {
        self.pipelines[service_idx].as_slice()
    }

    /// The index of the first service named `name`, if any.
    pub fn service_index(&self, name: &str) -> (r: Option<usize>)
        ensures
            match r {
                Some(i) => i < self.source.services@.len() && self.source.services@[i as int].name@
                    == name@ && forall|k: int|
                    0 <= k < i ==> (#[trigger] self.source.services@[k]).name@ != name@,
                None => forall|k: int|
                    0 <= k < self.source.services@.len() ==> (
                    #[trigger] self.source.services@[k]).name@ != name@,
            },
    {
        let mut i: usize = 0;
        while i < self.source.services.len()
            invariant
                i <= self.source.services@.len(),
                forall|k: int| 0 <= k < i ==> (#[trigger] self.source.services@[k]).name@ != name@,
            decreases self.source.services.len() - i,
        {
            if str_eq(self.source.services[i].name.as_str(), name) {
                return Some(i);
            }
            i += 1;
        }
        None
    }
}

/// What committing `blob` with `note` to a store in state `before` may lead
/// to: the new version number, with the store now holding the blob as its
/// active version; or a storage error, with the store unchanged or holding
/// the blob without its activation.
pub open spec fn commit_outcome(
    before: StoreModel,
    after: StoreModel,
    blob: Seq<u8>,
    note: Option<Seq<char>>,
    r: Result<u64, ConfigError>,
) -> bool {
    match r {
        Ok(v) => {
            &&& v == before.next_version()
            &&& exists|saved: StoreModel|
                {
                    &&& #[trigger] saved.saved_from(before, blob, note)
                    &&& after == (StoreModel { active: Some(v), ..saved })
                }
        },
        Err(ConfigError::Storage(_)) => after == before || after.saved_from(before, blob, note),
        Err(_) => false,
    }
}

/// A version number held by some record is found by the lookup from any
/// earlier position.
proof fn lemma_blob_found(vs: Seq<VersionRecord>, v: u64, i: int, j: int)
    requires
        0 <= i <= j < vs.len(),
        vs[j].meta.version == v,
    ensures
        blob_from(vs, v, i) is Some,
    decreases j - i,
{
    if vs[i].meta.version != v {
        lemma_blob_found(vs, v, i + 1, j);
    }
}

/// Store `blob` as a new config version with `note` and make it the active
/// version. Returns the new version number. On a store that never fails on
/// its own this always succeeds.
pub fn commit_version<S: Storage>(storage: &mut S, blob: &[u8], note: Option<&str>) -> (r: Result<
    u64,
    ConfigError,
>)
    requires
        old(storage).wf(),
        old(storage).model().versions.len() < u64::MAX,
    ensures
        final(storage).wf(),
        final(storage).never_fails() == old(storage).never_fails(),
        commit_outcome(old(storage).model(), final(storage).model(), blob@, opt_str_view(note), r),
        old(storage).never_fails() ==> r is Ok,
{
    let version = match storage.save_version(blob, note) {
        Ok(v) => v,
        Err(e) => {
            return Err(ConfigError::Storage(e));
        },
    };
    let ghost saved = storage.model();
    proof {
        lemma_blob_found(saved.versions, version, 0, saved.versions.len() - 1);
    }
    match storage.set_active_version(version) {
        Ok(()) => Ok(version),
        Err(e) => Err(ConfigError::Storage(e)),
    }
}

/// Save a config only once it has been checked: `checked` is the config's
/// serialized blob, or the error its validation (or serialization) gave. On
/// an error nothing is written and that error is returned; otherwise the blob
/// is committed as by [`commit_version`].
pub fn save_checked<S: Storage>(
    storage: &mut S,
    checked: Result<Vec<u8>, ConfigError>,
    note: Option<&str>,
) -> (r: Result<u64, ConfigError>)
    requires
        old(storage).wf(),
        old(storage).model().versions.len() < u64::MAX,
    ensures
        final(storage).wf(),
        final(storage).never_fails() == old(storage).never_fails(),
        checked is Ok && old(storage).never_fails() ==> r is Ok,
        match checked {
            Err(e) => r == Err::<u64, ConfigError>(e) && final(storage).model() == old(
                storage,
            ).model(),
            Ok(blob) => commit_outcome(
                old(storage).model(),
                final(storage).model(),
                blob@,
                opt_str_view(note),
                r,
            ),
        },
{
    match checked {
        Err(e) => Err(e),
        Ok(blob) => commit_version(storage, blob.as_slice(), note),
    }
}

/// Read the blob of the active config version. On a store that never fails
/// on its own this succeeds exactly when the active version holds a blob.
pub fn load_active_blob<S: Storage>(storage: &S) -> (r: Result<Vec<u8>, ConfigError>)
    requires
        storage.wf(),
    ensures
        match r {
            Ok(b) => exists|v: u64|
                storage.model().active == Some(v) && #[trigger] storage.model().version_blob(v)
                    == Some(b@),
            Err(ConfigError::Storage(StorageError::NotFound(_))) => storage.model().active is None
                || storage.model().version_blob(storage.model().active->0) is None,
            Err(ConfigError::Storage(e)) => e is Backend || e is Malformed,
            Err(_) => false,
        },
        storage.never_fails() && storage.model().active is Some && storage.model().version_blob(
            storage.model().active->0,
        ) is Some ==> r is Ok,
{
    let version = match storage.active_version() {
        Ok(v) => v,
        Err(e) => {
            return Err(ConfigError::Storage(e));
        },
    };
    match storage.load_version(version) {
        Ok(b) => Ok(b),
        Err(e) => Err(ConfigError::Storage(e)),
    }
}

/// A committed config reads back: after `commit_version` succeeds on a
/// store whose versions are numbered 1, 2, 3, ..., the active version is
/// the new one, it holds exactly the committed blob (so `load_active_blob`
/// can only return that blob or a backend error), the store stays numbered,
/// and every older version is untouched.
pub proof fn law_committed_config_reads_back(
    old: StoreModel,
    saved: StoreModel,
    blob: Seq<u8>,
    note: Option<Seq<char>>,
    other: u64,
)
    requires
        old.numbered(),
        saved.saved_from(old, blob, note),
        other != old.next_version(),
    ensures
        ({
            let v = old.next_version() as u64;
            let now = StoreModel { active: Some(v), ..saved };
            &&& now.active == Some(v)
            &&& now.version_blob(v) == Some(blob)
            &&& now.numbered()
            &&& now.version_blob(other) == old.version_blob(other)
        }),
{
    crate::storage_laws::law_saved_version_reads_back(old, saved, blob, note, other);
}

} // verus!
