//! Expansion dispatcher: resolves the plugin for a requested artifact
//! through the cache, frames one invocation with the environment bracket,
//! and converts every outcome — including an abnormal abort inside the
//! plugin — into a response value.
//!
//! The dispatcher decides; the embedding program performs the steps that
//! touch the operating system (reading file metadata, loading a plugin,
//! writing environment variables, making the native call) and feeds each
//! outcome back into the next decision.
use vstd::prelude::*;
use vstd::string::StringExecFns;

use crate::cache::CacheKey;
use crate::cache::ExpanderCache;
use crate::cache::spec_lookup;
use crate::env_scope::check_distinct_names;
use crate::env_scope::distinct_names;
use crate::env_scope::override_names;

verus! {

/// The kind of a transformation capability a plugin declares.
#[derive(Clone, Copy, PartialEq, Eq, Structural, Debug)]
pub enum MacroKind {
    FunctionLike,
    Attribute,
    Derive,
}

/// One expansion request, immutable once constructed: which artifact, which
/// transformer in it, the input tree (flat-encoded, opaque to the
/// dispatcher), optional attribute tree, the environment overrides for the
/// call, and an optional working-directory override.
pub struct ExpandRequest {
    pub lib: String,
    pub macro_name: String,
    pub macro_body: Vec<u8>,
    pub attributes: Option<Vec<u8>>,
    pub env: Vec<(String, String)>,
    pub current_dir: Option<String>,
}

impl ExpandRequest {
    /// The environment overrides form a mapping: no variable name twice.
    pub open spec fn wf(self) -> bool {
        distinct_names(override_names(self.env@))
    }

    /// Whether the request's environment overrides form a mapping — the
    /// request's well-formedness, decided at run time.
    pub fn check_env_mapping(&self) -> (r: bool)
        ensures
            r == self.wf(),
    {
        check_distinct_names(&self.env)
    }
}

/// A diagnostic from a failed expansion; carries the abort or failure
/// message a plugin produced, or the dispatcher's own complaint.
#[derive(Debug, PartialEq, Eq)]
pub struct PanicMessage(pub String);

/// What became of one native invocation of a transformer, as observed at
/// the call boundary by the embedding program.
#[derive(Debug, PartialEq, Eq)]
pub enum InvokeOutcome {
    /// The transformer returned a transformed tree (flat-encoded).
    Expanded(Vec<u8>),
    /// The transformer reported a failure as a value.
    Failed(String),
    /// The transformer aborted abnormally (an unwind was caught at the
    /// call boundary).
    Aborted(String),
}

/// The dispatcher's answer to "give me the plugin for this artifact".
#[derive(Debug, PartialEq, Eq)]
pub enum HandleResolution {
    /// A plugin loaded from exactly this (path, modification time) identity
    /// is already cached under this handle; no load is needed.
    Ready(u64),
    /// The identity (path, this modification time) has no entry: the
    /// embedding program must load the artifact and report back.
    Missing(u128),
    /// The artifact's metadata could not be read; the diagnostic message.
    Failed(String),
}

/// The dispatcher: owns the expander cache and takes every decision of the
/// expansion flow between the operating-system steps.
pub struct ProcMacroSrv {
    cache: ExpanderCache,
}

impl View for ProcMacroSrv {
    type V = Seq<(CacheKey, u64)>;

    closed spec fn view(&self) -> Seq<(CacheKey, u64)> {
        self.cache@
    }
}

impl ProcMacroSrv {
    pub closed spec fn wf(self) -> bool {
        self.cache.wf()
    }

    pub closed spec fn can_register(self) -> bool {
        self.cache.can_register()
    }

    pub fn new() -> (s: Self)
        ensures
            s.wf(),
            s@ == Seq::<(CacheKey, u64)>::empty(),
            s.can_register(),
    {
        ProcMacroSrv { cache: ExpanderCache::new() }
    }

    /// Whether another plugin can still be registered (a machine limit on
    /// the handle counter, never reached in practice).
    pub fn has_capacity(&self) -> (r: bool)
        ensures
            r == self.can_register(),
    {
        self.cache.has_capacity()
    }

    /// The resolution step of `get_or_load`: given the artifact path and
    /// the outcome of reading its modification time, decide whether a
    /// cached plugin is reused, a fresh load is needed, or the request
    /// fails. The cache is not touched: a failed stat can never insert or
    /// change an entry.
    pub fn resolve_step(&self, path: &String, stat: Result<u128, String>) -> (r: HandleResolution)
        ensures
            stat matches Ok(t) ==> (match spec_lookup(self@, (path@, t)) {
                Some(h) => r == HandleResolution::Ready(h),
                None => r == HandleResolution::Missing(t),
            }),
            stat matches Err(d) ==> r matches HandleResolution::Failed(m) && m@
                == "Failed to get file metadata for "@ + path@ + ": "@ + d@,
    {
        match stat {
            Ok(t) => match self.cache.lookup(path, t) {
                Some(h) => HandleResolution::Ready(h),
                None => HandleResolution::Missing(t),
            },
            Err(d) => HandleResolution::Failed(stat_error_message(path, &d)),
        }
    }

    /// Registers the plugin the embedding program has just loaded for an
    /// identity, and hands back its handle. If the identity gained an entry
    /// meanwhile the existing handle is reused and nothing changes;
    /// otherwise the cache grows by exactly this entry, under a handle no
    /// earlier entry carries.
    pub fn note_loaded(&mut self, path: &String, mtime: u128) -> (h: u64)
        requires
            old(self).wf(),
            old(self).can_register(),
        ensures
            final(self).wf(),
            spec_lookup(final(self)@, (path@, mtime)) == Some(h),
            match spec_lookup(old(self)@, (path@, mtime)) {
                Some(h0) => h == h0 && final(self)@ == old(self)@,
                None => final(self)@ == old(self)@.push(((path@, mtime), h)) && (forall|i: int|
                    0 <= i < old(self)@.len() ==> #[trigger] old(self)@[i].1 != h),
            },
    {
        match self.cache.lookup(path, mtime) {
            Some(h) => h,
            None => self.cache.register(path, mtime),
        }
    }
}

/// The diagnostic for an artifact whose metadata could not be read:
/// the caller likely passed a stale or incorrect path.
pub fn stat_error_message(path: &String, detail: &String) -> (r: String)
    ensures
        r@ == "Failed to get file metadata for "@ + path@ + ": "@ + detail@,
{
    let mut m = String::from_str("Failed to get file metadata for ");
    m.append(path.as_str());
    m.append(": ");
    m.append(detail.as_str());
    m
}

/// The diagnostic for an artifact the native loader rejected: the file
/// exists but is not a valid or compatible transformer plugin.
pub fn load_error_message(path: &String, detail: &String) -> (r: String)
    ensures
        r@ == "Cannot create expander for "@ + path@ + ": "@ + detail@,
{
    let mut m = String::from_str("Cannot create expander for ");
    m.append(path.as_str());
    m.append(": ");
    m.append(detail.as_str());
    m
}

/// In the expansion path a failure to resolve the plugin is a protocol
/// breach — callers are expected to have listed the artifact's
/// capabilities first — so the load diagnostic is wrapped as the call's
/// failure message.
pub fn expand_load_failure(msg: &String) -> (r: PanicMessage)
    ensures
        r.0@ == "failed to load macro: "@ + msg@,
{
    let mut m = String::from_str("failed to load macro: ");
    m.append(msg.as_str());
    PanicMessage(m)
}

/// Converts what the native call boundary observed into the response
/// value. Every outcome becomes a value: a transformed tree on success, a
/// diagnostic on a reported failure, and a diagnostic — never a fault that
/// propagates — when the transformer aborted abnormally, so one
/// misbehaving plugin cannot take the service down.
pub fn expand_conclude(outcome: InvokeOutcome) -> (r: Result<Vec<u8>, PanicMessage>)
    ensures
        outcome matches InvokeOutcome::Expanded(t) ==> r matches Ok(out) && out == t,
        outcome matches InvokeOutcome::Failed(m) ==> r matches Err(p) && p.0 == m,
        outcome matches InvokeOutcome::Aborted(m) ==> r matches Err(p) && p.0@
            == "transformer aborted abnormally: "@ + m@,
{
    match outcome {
        InvokeOutcome::Expanded(t) => Ok(t),
        InvokeOutcome::Failed(m) => Err(PanicMessage(m)),
        InvokeOutcome::Aborted(m) => {
            let mut s = String::from_str("transformer aborted abnormally: ");
            s.append(m.as_str());
            Err(PanicMessage(s))
        },
    }
}

} // verus!
