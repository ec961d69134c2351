//! The patch that turns an environment's current variables into the desired
//! ones: one entry for each name that has to change, and none for any other.

use crate::model::{
    optional_vars, CloudflarePagesDeploymentConfigs, CloudflarePagesEnvVarValue,
    CloudflarePagesEnvVarValueType, CloudflarePagesEnvironment, EnvVarsFile, FullEnvVarsFile,
};
use crate::var_map::{
    lemma_listed_below_ends, lemma_listed_below_step, listed_below, VarMap,
};
use vstd::prelude::*;

verus! {

/// `name` is wanted with a value that it does not have yet.
pub open spec fn must_set(
    current: Map<Seq<char>, Seq<char>>,
    desired: Map<Seq<char>, Seq<char>>,
    name: Seq<char>,
) -> bool {
    desired.contains_key(name) && (!current.contains_key(name) || current[name] != desired[name])
}

/// `name` exists and is no longer wanted.
pub open spec fn must_delete(
    current: Map<Seq<char>, Seq<char>>,
    desired: Map<Seq<char>, Seq<char>>,
    name: Seq<char>,
) -> bool {
    current.contains_key(name) && !desired.contains_key(name)
}

/// The changes that lead from `current` to `desired`: the new text for a name
/// to create or update, `None` for a name to delete. An absent `desired` asks
/// for no change at all.
pub open spec fn env_patch(
    current: Map<Seq<char>, Seq<char>>,
    desired: Option<Map<Seq<char>, Seq<char>>>,
) -> Map<Seq<char>, Option<Seq<char>>> {
    match desired {
        None => Map::empty(),
        Some(desired) => Map::new(
            |name: Seq<char>| must_set(current, desired, name) || must_delete(current, desired, name),
            |name: Seq<char>|
                if desired.contains_key(name) {
                    Some(desired[name])
                } else {
                    None
                },
        ),
    }
}

/// What an environment holds once a patch has been applied to it: a name with
/// a new text has that text, a name with `None` is gone, and a name that the
/// patch does not mention is as it was.
pub open spec fn apply_patch(
    current: Map<Seq<char>, Seq<char>>,
    patch: Map<Seq<char>, Option<Seq<char>>>,
) -> Map<Seq<char>, Seq<char>> {
    Map::new(
        |name: Seq<char>|
            if patch.contains_key(name) {
                patch[name] is Some
            } else {
                current.contains_key(name)
            },
        |name: Seq<char>|
            if patch.contains_key(name) {
                patch[name]->0
            } else {
                current[name]
            },
    )
}

/// A name that has the same text in both states is not in the patch.
pub proof fn lemma_unchanged_name_left_out(
    current: Map<Seq<char>, Seq<char>>,
    desired: Map<Seq<char>, Seq<char>>,
    name: Seq<char>,
)
    requires
        current.contains_key(name),
        desired.contains_key(name),
        current[name] == desired[name],
    ensures
        !env_patch(current, Some(desired)).contains_key(name),
{
}

/// A name that is wanted and is new, or has another text so far, is in the
/// patch with the wanted text. The empty text is a text like any other.
pub proof fn lemma_new_or_changed_name_set(
    current: Map<Seq<char>, Seq<char>>,
    desired: Map<Seq<char>, Seq<char>>,
    name: Seq<char>,
)
    requires
        desired.contains_key(name),
        !current.contains_key(name) || current[name] != desired[name],
    ensures
        env_patch(current, Some(desired)).contains_key(name),
        env_patch(current, Some(desired))[name] == Some(desired[name]),
{
}

/// A name that exists and is not wanted is in the patch as a deletion.
pub proof fn lemma_dropped_name_deleted(
    current: Map<Seq<char>, Seq<char>>,
    desired: Map<Seq<char>, Seq<char>>,
    name: Seq<char>,
)
    requires
        current.contains_key(name),
        !desired.contains_key(name),
    ensures
        env_patch(current, Some(desired)).contains_key(name),
        env_patch(current, Some(desired))[name] == None::<Seq<char>>,
{
}

/// Without a desired state nothing changes, whatever the current state is.
pub proof fn lemma_absent_desired_changes_nothing(current: Map<Seq<char>, Seq<char>>)
    ensures
        env_patch(current, None) == Map::<Seq<char>, Option<Seq<char>>>::empty(),
{
}

/// A state that is wanted as it is needs no change.
pub proof fn lemma_same_state_changes_nothing(current: Map<Seq<char>, Seq<char>>)
    ensures
        env_patch(current, Some(current)) == Map::<Seq<char>, Option<Seq<char>>>::empty(),
{
}

/// The patch leads from the current state to the desired one.
pub proof fn lemma_patch_reaches_desired(
    current: Map<Seq<char>, Seq<char>>,
    desired: Map<Seq<char>, Seq<char>>,
)
    ensures
        apply_patch(current, env_patch(current, Some(desired))) == desired,
{
}

/// The patch is minimal: a patch that leads from the current state to the
/// desired one mentions every name that this one mentions.
pub proof fn lemma_patch_is_minimal(
    current: Map<Seq<char>, Seq<char>>,
    desired: Map<Seq<char>, Seq<char>>,
    other: Map<Seq<char>, Option<Seq<char>>>,
)
    requires
        apply_patch(current, other) == desired,
    ensures
        env_patch(current, Some(desired)).dom().subset_of(other.dom()),
{
    assert forall|name: Seq<char>|
        env_patch(current, Some(desired)).contains_key(name) implies other.contains_key(name) by {
        if !other.contains_key(name) {
            // A name that `other` leaves alone ends as it is in `current`.
            assert(apply_patch(current, other).contains_key(name) == current.contains_key(name));
            assert(current.contains_key(name) ==> apply_patch(current, other)[name]
                == current[name]);
        }
    }
}

/// A project of which each environment is wanted as it is, or is not
/// mentioned at all, gets a patch that changes nothing: such a patch is not to
/// be sent.
pub proof fn lemma_unchanged_project_changes_nothing(
    patch: CloudflarePagesDeploymentConfigs,
    preview: Map<Seq<char>, Seq<char>>,
    production: Map<Seq<char>, Seq<char>>,
    wanted_preview: Option<Map<Seq<char>, Seq<char>>>,
    wanted_production: Option<Map<Seq<char>, Seq<char>>>,
)
    requires
        patch.preview.entries() == env_patch(preview, wanted_preview),
        patch.production.entries() == env_patch(production, wanted_production),
        wanted_preview is None || wanted_preview == Some(preview),
        wanted_production is None || wanted_production == Some(production),
    ensures
        patch.changes_nothing(),
{
    lemma_same_state_changes_nothing(preview);
    lemma_same_state_changes_nothing(production);
}

/// The patch section for one environment. It is always present, and empty
/// where `new_env` is absent or asks for what `old_env` already holds.
pub fn generate_env_patch(old_env: &VarMap<String>, new_env: &Option<VarMap<String>>) -> (patch:
    CloudflarePagesEnvironment)
    ensures
        patch.env_vars is Some,
        patch.entries() == env_patch(old_env@, optional_vars(*new_env)),
{
    let mut changes: VarMap<Option<CloudflarePagesEnvVarValue>> = VarMap::new();
    match new_env {
        Some(new_env) => {
            // New and changed variables.
            let wanted = new_env.len();
            let mut i: usize = 0;
            proof {
                lemma_listed_below_ends(new_env.listing());
            }
            while i < wanted
                invariant
                    i <= wanted == new_env.listing().len(),
                    forall|name: Seq<char>|
                        #![trigger changes@.contains_key(name)]
                        #![trigger listed_below(new_env.listing(), i as int, name)]
                        changes@.contains_key(name) <==> listed_below(
                            new_env.listing(),
                            i as int,
                            name,
                        ) && must_set(old_env@, new_env@, name),
                    forall|name: Seq<char>|
                        changes@.contains_key(name) ==> changes@[name] == Some(new_env@[name]),
                decreases wanted - i,
            {
                let (name, value) = new_env.entry(i);
                let differs = match old_env.get(name.as_str()) {
                    Some(old_value) => !(*value == *old_value),
                    None => true,
                };
                if differs {
                    changes.insert(
                        name.clone(),
                        Some(
                            CloudflarePagesEnvVarValue {
                                kind: CloudflarePagesEnvVarValueType::PlainText,
                                value: value.clone(),
                            },
                        ),
                    );
                }
                proof {
                    lemma_listed_below_step(new_env.listing(), i as int);
                }
                i += 1;
            }
            // Removed variables: each gets an entry without a value.
            let held = old_env.len();
            let ghost set = changes@;
            let mut j: usize = 0;
            proof {
                lemma_listed_below_ends(old_env.listing());
            }
            while j < held
                invariant
                    j <= held == old_env.listing().len(),
                    forall|name: Seq<char>|
                        #![trigger set.contains_key(name)]
                        set.contains_key(name) <==> must_set(old_env@, new_env@, name),
                    forall|name: Seq<char>|
                        set.contains_key(name) ==> set[name] == Some(new_env@[name]),
                    forall|name: Seq<char>|
                        #![trigger changes@.contains_key(name)]
                        #![trigger listed_below(old_env.listing(), j as int, name)]
                        changes@.contains_key(name) <==> set.contains_key(name) || (listed_below(
                            old_env.listing(),
                            j as int,
                            name,
                        ) && must_delete(old_env@, new_env@, name)),
                    forall|name: Seq<char>|
                        changes@.contains_key(name) ==> changes@[name] == (if set.contains_key(
                            name,
                        ) {
                            set[name]
                        } else {
                            None
                        }),
                decreases held - j,
            {
                let (name, _) = old_env.entry(j);
                if !new_env.contains_key(name.as_str()) {
                    changes.insert(name.clone(), None);
                }
                proof {
                    lemma_listed_below_step(old_env.listing(), j as int);
                }
                j += 1;
            }
        },
        None => {},
    }
    CloudflarePagesEnvironment { env_vars: Some(changes) }
}

/// The patch for a project: each environment's section is computed from that
/// environment alone.
pub fn generate_deployment_configs_patch(old_vars: &FullEnvVarsFile, new_vars: &EnvVarsFile) -> (patch:
    CloudflarePagesDeploymentConfigs)
    ensures
        patch.preview.env_vars is Some,
        patch.production.env_vars is Some,
        patch.preview.entries() == env_patch(old_vars.preview@, optional_vars(new_vars.preview)),
        patch.production.entries() == env_patch(
            old_vars.production@,
            optional_vars(new_vars.production),
        ),
{
    CloudflarePagesDeploymentConfigs {
        preview: generate_env_patch(&old_vars.preview, &new_vars.preview),
        production: generate_env_patch(&old_vars.production, &new_vars.production),
    }
}

} // verus!
