//! Call environment scoper: the save/override/restore bracket that gives
//! one plugin invocation its requested environment variables and working
//! directory, and puts the process-wide state back exactly afterwards.
//!
//! Reading and writing the real process environment is the embedding
//! program's job; this module decides what to record and what to write
//! back, and proves that the decisions restore the prior state exactly.
use vstd::prelude::*;

verus! {

/// The process environment at the specification level: a map from variable
/// name to value, for the variables that are set.
pub type EnvModel = Map<Seq<char>, Seq<char>>;

/// The value of one variable, `None` when it is unset.
pub open spec fn env_value(env: EnvModel, name: Seq<char>) -> Option<Seq<char>> {
    if env.contains_key(name) {
        Some(env[name])
    } else {
        None
    }
}

pub open spec fn opt_view(o: Option<String>) -> Option<Seq<char>> {
    match o {
        Some(s) => Some(s@),
        None => None,
    }
}

/// The names of a list of variable overrides, in order.
pub open spec fn override_names(ovs: Seq<(String, String)>) -> Seq<Seq<char>> {
    ovs.map_values(|o: (String, String)| o.0@)
}

/// Pairwise distinctness: the overrides form a mapping, no name twice.
pub open spec fn distinct_names(names: Seq<Seq<char>>) -> bool {
    forall|i: int, j: int| 0 <= i < j < names.len() ==> names[i] != names[j]
}

/// Setting every override variable to its requested value, first to last.
pub open spec fn apply_overrides(env: EnvModel, ovs: Seq<(String, String)>) -> EnvModel
    decreases ovs.len(),
{
    if ovs.len() == 0 {
        env
    } else {
        apply_overrides(env.insert(ovs[0].0@, ovs[0].1@), ovs.drop_first())
    }
}

/// One write-back step of the restore phase: re-set a variable that was
/// previously present, remove one that was previously absent.
#[derive(Debug, PartialEq, Eq)]
pub enum EnvAction {
    SetVar(String, String),
    RemoveVar(String),
}

pub open spec fn action_name(a: EnvAction) -> Seq<char> {
    match a {
        EnvAction::SetVar(n, _) => n@,
        EnvAction::RemoveVar(n) => n@,
    }
}

pub open spec fn action_value(a: EnvAction) -> Option<Seq<char>> {
    match a {
        EnvAction::SetVar(_, v) => Some(v@),
        EnvAction::RemoveVar(_) => None,
    }
}

pub open spec fn action_names(acts: Seq<EnvAction>) -> Seq<Seq<char>> {
    acts.map_values(|a: EnvAction| action_name(a))
}

pub open spec fn apply_action(env: EnvModel, a: EnvAction) -> EnvModel {
    match a {
        EnvAction::SetVar(n, v) => env.insert(n@, v@),
        EnvAction::RemoveVar(n) => env.remove(n@),
    }
}

pub open spec fn apply_actions(env: EnvModel, acts: Seq<EnvAction>) -> EnvModel
    decreases acts.len(),
{
    if acts.len() == 0 {
        env
    } else {
        apply_actions(apply_action(env, acts[0]), acts.drop_first())
    }
}

/// The restore action owed to one snapshot entry.
pub open spec fn action_for(e: (String, Option<String>)) -> EnvAction {
    match e.1 {
        Some(v) => EnvAction::SetVar(e.0, v),
        None => EnvAction::RemoveVar(e.0),
    }
}

/// The snapshot records, for each override name in order, exactly the value
/// that `env` gives that name (or its absence).
pub open spec fn records_env(
    saved: Seq<(String, Option<String>)>,
    ovs: Seq<(String, String)>,
    env: EnvModel,
) -> bool {
    &&& saved.len() == ovs.len()
    &&& forall|i: int|
        0 <= i < saved.len() ==> (#[trigger] saved[i]).0@ == ovs[i].0@ && opt_view(saved[i].1)
            == env_value(env, ovs[i].0@)
}

/// The actions carry out the snapshot, entry by entry.
pub open spec fn restores_snapshot(acts: Seq<EnvAction>, saved: Seq<(String, Option<String>)>) -> bool {
    &&& acts.len() == saved.len()
    &&& forall|i: int| 0 <= i < acts.len() ==> #[trigger] acts[i] == action_for(saved[i])
}

/// What one call captured before overriding the process state: the prior
/// value (or absence) of every override variable, and the prior working
/// directory where a directory override was requested and the prior
/// directory could be read.
pub struct EnvSnapshot {
    pub saved: Vec<(String, Option<String>)>,
    pub prev_dir: Option<String>,
}

/// Builds the snapshot for one call. `current` holds, for each override in
/// order, the value the process environment gives its name right now, as
/// the embedding program read it; `prev_dir` the working directory read
/// before a requested directory change, if any.
pub fn capture_env(
    overrides: &Vec<(String, String)>,
    current: &Vec<Option<String>>,
    prev_dir: Option<String>,
) -> (s: EnvSnapshot)
    requires
        overrides@.len() == current@.len(),
    ensures
        s.saved@.len() == overrides@.len(),
        forall|i: int|
            0 <= i < overrides@.len() ==> #[trigger] s.saved@[i] == (overrides@[i].0, current@[i]),
        s.prev_dir == prev_dir,
{
    let mut saved: Vec<(String, Option<String>)> = Vec::new();
    let n = overrides.len();
    let mut i: usize = 0;
    while i < n
        invariant
            n == overrides@.len(),
            current@.len() == n,
            i <= n,
            saved@.len() == i,
            forall|j: int| 0 <= j < i ==> #[trigger] saved@[j] == (overrides@[j].0, current@[j]),
        decreases n - i,
    {
        let name = overrides[i].0.clone();
        let prev = match &current[i] {
            Some(v) => Some(v.clone()),
            None => None,
        };
        saved.push((name, prev));
        i = i + 1;
    }
    EnvSnapshot { saved, prev_dir }
}

/// The write-backs owed once the wrapped invocation has finished, whatever
/// its outcome: one action per recorded variable, re-setting it to its
/// prior value or removing it if it was previously unset.
pub fn restore_actions(snap: &EnvSnapshot) -> (acts: Vec<EnvAction>)
    ensures
        restores_snapshot(acts@, snap.saved@),
{
    let mut acts: Vec<EnvAction> = Vec::new();
    let n = snap.saved.len();
    let mut i: usize = 0;
    while i < n
        invariant
            n == snap.saved@.len(),
            i <= n,
            acts@.len() == i,
            forall|j: int| 0 <= j < i ==> #[trigger] acts@[j] == action_for(snap.saved@[j]),
        decreases n - i,
    {
        let e = &snap.saved[i];
        let a = match &e.1 {
            Some(v) => EnvAction::SetVar(e.0.clone(), v.clone()),
            None => EnvAction::RemoveVar(e.0.clone()),
        };
        acts.push(a);
        i = i + 1;
    }
    acts
}

/// The directory to change back to once the invocation has finished:
/// exactly the one recorded in the snapshot, if any was.
pub fn restore_dir(snap: &EnvSnapshot) -> (d: Option<String>)
    ensures
        d == snap.prev_dir,
{
    match &snap.prev_dir {
        Some(p) => Some(p.clone()),
        None => None,
    }
}

/// A variable whose name no override touches keeps its value through the
/// override phase.
pub proof fn lemma_overrides_frame(env: EnvModel, ovs: Seq<(String, String)>, name: Seq<char>)
    requires
        forall|i: int| 0 <= i < ovs.len() ==> (#[trigger] ovs[i]).0@ != name,
    ensures
        env_value(apply_overrides(env, ovs), name) == env_value(env, name),
    decreases ovs.len(),
{
    if ovs.len() > 0 {
        let env1 = env.insert(ovs[0].0@, ovs[0].1@);
        assert(env_value(env1, name) == env_value(env, name));
        assert forall|i: int| 0 <= i < ovs.drop_first().len() implies (#[trigger] ovs.drop_first()[i]).0@
            != name by {
            assert(ovs.drop_first()[i] == ovs[i + 1]);
        }
        lemma_overrides_frame(env1, ovs.drop_first(), name);
    }
}

/// A variable whose name no restore action touches keeps its value through
/// the restore phase.
pub proof fn lemma_actions_frame(env: EnvModel, acts: Seq<EnvAction>, name: Seq<char>)
    requires
        forall|i: int| 0 <= i < acts.len() ==> action_name(#[trigger] acts[i]) != name,
    ensures
        env_value(apply_actions(env, acts), name) == env_value(env, name),
    decreases acts.len(),
{
    if acts.len() > 0 {
        let env1 = apply_action(env, acts[0]);
        assert(env_value(env1, name) == env_value(env, name));
        assert forall|i: int| 0 <= i < acts.drop_first().len() implies action_name(
            #[trigger] acts.drop_first()[i],
        ) != name by {
            assert(acts.drop_first()[i] == acts[i + 1]);
        }
        lemma_actions_frame(env1, acts.drop_first(), name);
    }
}

/// When the action names are pairwise distinct, the restore phase leaves
/// each touched variable at exactly the value its own action writes,
/// whatever environment the phase starts from.
pub proof fn lemma_actions_hit(env: EnvModel, acts: Seq<EnvAction>, i: int)
    requires
        0 <= i < acts.len(),
        distinct_names(action_names(acts)),
    ensures
        env_value(apply_actions(env, acts), action_name(acts[i])) == action_value(acts[i]),
    decreases acts.len(),
{
    let env1 = apply_action(env, acts[0]);
    let rest = acts.drop_first();
    assert forall|p: int, q: int| 0 <= p < q < rest.len() implies action_names(rest)[p]
        != action_names(rest)[q] by {
        assert(rest[p] == acts[p + 1]);
        assert(rest[q] == acts[q + 1]);
        assert(action_names(acts)[p + 1] != action_names(acts)[q + 1]);
    }
    if i == 0 {
        let name = action_name(acts[0]);
        assert(env_value(env1, name) == action_value(acts[0]));
        assert forall|j: int| 0 <= j < rest.len() implies action_name(#[trigger] rest[j])
            != name by {
            assert(rest[j] == acts[j + 1]);
            assert(action_names(acts)[0] != action_names(acts)[j + 1]);
        }
        lemma_actions_frame(env1, rest, name);
    } else {
        lemma_actions_hit(env1, rest, i - 1);
        assert(rest[i - 1] == acts[i]);
    }
}

/// Environment bracket exactness: overriding any set of variables (with
/// pairwise distinct names), then carrying out the restore actions derived
/// from a snapshot that truthfully recorded their prior values, leaves
/// every variable — touched or not, previously set or previously unset —
/// exactly as it was before the bracket. The wrapped invocation's outcome
/// plays no part in this statement: the same actions restore the same
/// state on every exit path.
pub proof fn lemma_env_bracket_exact(
    env: EnvModel,
    ovs: Seq<(String, String)>,
    saved: Seq<(String, Option<String>)>,
    acts: Seq<EnvAction>,
)
    requires
        distinct_names(override_names(ovs)),
        records_env(saved, ovs, env),
        restores_snapshot(acts, saved),
    ensures
        apply_actions(apply_overrides(env, ovs), acts) == env,
{
    let applied = apply_overrides(env, ovs);
    let restored = apply_actions(applied, acts);
    assert forall|i: int| 0 <= i < acts.len() implies action_name(#[trigger] acts[i])
        == override_names(ovs)[i] && action_value(acts[i]) == env_value(env, ovs[i].0@) by {
        assert(acts[i] == action_for(saved[i]));
    }
    assert forall|p: int, q: int| 0 <= p < q < acts.len() implies action_names(acts)[p]
        != action_names(acts)[q] by {
        assert(action_names(acts)[p] == action_name(acts[p]));
        assert(action_names(acts)[q] == action_name(acts[q]));
        assert(override_names(ovs)[p] != override_names(ovs)[q]);
    }
    assert forall|k: Seq<char>| #[trigger] env_value(restored, k) == env_value(env, k) by {
        if exists|i: int| 0 <= i < ovs.len() && (#[trigger] ovs[i]).0@ == k {
            let i = choose|i: int| 0 <= i < ovs.len() && (#[trigger] ovs[i]).0@ == k;
            assert(action_name(acts[i]) == k);
            lemma_actions_hit(applied, acts, i);
        } else {
            assert forall|i: int| 0 <= i < acts.len() implies action_name(#[trigger] acts[i])
                != k by {
                assert(ovs[i].0@ != k);
            }
            assert forall|i: int| 0 <= i < ovs.len() implies (#[trigger] ovs[i]).0@ != k by {}
            lemma_actions_frame(applied, acts, k);
            lemma_overrides_frame(env, ovs, k);
        }
    }
    assert forall|k: Seq<char>| #[trigger] restored.contains_key(k)
        <==> env.contains_key(k) by {
        assert(env_value(restored, k) == env_value(env, k));
    }
    assert forall|k: Seq<char>| env.contains_key(k) implies #[trigger] restored[k] == env[k] by {
        assert(env_value(restored, k) == env_value(env, k));
    }
    assert(restored =~= env);
}

/// A snapshot whose entries pair each override name with the value the
/// embedding program read for it records `env` truthfully, provided those
/// reads were truthful — the bridge from `capture_env`'s contract to the
/// bracket-exactness hypothesis.
pub proof fn lemma_capture_records(
    saved: Seq<(String, Option<String>)>,
    ovs: Seq<(String, String)>,
    current: Seq<Option<String>>,
    env: EnvModel,
)
    requires
        saved.len() == ovs.len(),
        current.len() == ovs.len(),
        forall|i: int| 0 <= i < ovs.len() ==> #[trigger] saved[i] == (ovs[i].0, current[i]),
        forall|i: int|
            0 <= i < ovs.len() ==> opt_view(#[trigger] current[i]) == env_value(env, ovs[i].0@),
    ensures
        records_env(saved, ovs, env),
{
}

/// The scoper's round trip, end to end: a snapshot captured from truthful
/// readings of the process environment, turned into its restore actions,
/// undoes the application of the overrides exactly — the composition of
/// the contracts of `capture_env` and `restore_actions` with the bracket
/// law.
pub proof fn lemma_scoper_round_trip(
    env: EnvModel,
    ovs: Seq<(String, String)>,
    current: Seq<Option<String>>,
    saved: Seq<(String, Option<String>)>,
    acts: Seq<EnvAction>,
)
    requires
        distinct_names(override_names(ovs)),
        saved.len() == ovs.len(),
        current.len() == ovs.len(),
        forall|i: int| 0 <= i < ovs.len() ==> #[trigger] saved[i] == (ovs[i].0, current[i]),
        forall|i: int|
            0 <= i < ovs.len() ==> opt_view(#[trigger] current[i]) == env_value(env, ovs[i].0@),
        restores_snapshot(acts, saved),
    ensures
        apply_actions(apply_overrides(env, ovs), acts) == env,
{
    lemma_capture_records(saved, ovs, current, env);
    lemma_env_bracket_exact(env, ovs, saved, acts);
}

/// The working directory once the bracket closes: the recorded previous
/// directory where one was captured, otherwise whatever directory the
/// wrapped invocation left the process in.
pub open spec fn dir_after_bracket(prev_dir: Option<String>, dir_during: Seq<char>) -> Seq<char> {
    match prev_dir {
        Some(d) => d@,
        None => dir_during,
    }
}

/// Working-directory bracket: when a directory override was supplied and
/// the previous working directory was recorded, the directory after the
/// bracket equals the directory before it, regardless of the directory the
/// wrapped invocation ran in or left behind.
pub proof fn lemma_dir_bracket(before: Seq<char>, during: Seq<char>, prev: Option<String>)
    requires
        prev matches Some(d) && d@ == before,
    ensures
        dir_after_bracket(prev, during) == before,
{
}

/// Closes the bracket: consumes the snapshot — it restores state exactly
/// once — and hands back everything the embedding program must write:
/// the per-variable restore actions and the directory to change back to.
pub fn close_scope(snap: EnvSnapshot) -> (r: (Vec<EnvAction>, Option<String>))
    ensures
        restores_snapshot(r.0@, snap.saved@),
        r.1 == snap.prev_dir,
{
    let acts = restore_actions(&snap);
    let dir = restore_dir(&snap);
    (acts, dir)
}

/// Whether the overrides form a mapping: no variable name occurs twice.
pub fn check_distinct_names(overrides: &Vec<(String, String)>) -> (r: bool)
    ensures
        r == distinct_names(override_names(overrides@)),
{
    let ghost names = override_names(overrides@);
    let n = overrides.len();
    let mut i: usize = 0;
    while i < n
        invariant
            n == overrides@.len(),
            i <= n,
            names == override_names(overrides@),
            forall|p: int, q: int| 0 <= p < q < i ==> names[p] != names[q],
        decreases n - i,
    {
        let mut j: usize = 0;
        while j < i
            invariant
                i < n,
                n == overrides@.len(),
                j <= i,
                names == override_names(overrides@),
                forall|p: int| 0 <= p < j ==> names[p] != names[i as int],
            decreases i - j,
        {
            if overrides[j].0 == overrides[i].0 {
                proof {
                    assert(names[j as int] == names[i as int]);
                }
                return false;
            }
            j = j + 1;
        }
        i = i + 1;
    }
    true
}

} // verus!
