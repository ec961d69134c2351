//! The shapes in which a project's environment variables occur: as the remote
//! platform reports and patches them, and flattened to plain name-to-text maps
//! for files and for comparison.

use crate::environment::Environment;
use crate::error::CommandError;
use crate::var_map::{lemma_listed_below_ends, lemma_listed_below_step, listed_below, VarMap};
use vstd::prelude::*;

verus! {

/// The kind of a remote variable. Only plain text is modelled.
#[derive(Clone, Copy, Debug, PartialEq, Eq, Structural)]
pub enum CloudflarePagesEnvVarValueType {
    PlainText,
}

/// The value of a remote variable.
#[derive(Debug, PartialEq, Eq)]
pub struct CloudflarePagesEnvVarValue {
    pub kind: CloudflarePagesEnvVarValueType,
    pub value: String,
}

impl Clone for CloudflarePagesEnvVarValue {
    fn clone(&self) -> (copy: Self)
        ensures
            copy == *self,
    {
        CloudflarePagesEnvVarValue { kind: self.kind, value: self.value.clone() }
    }
}

impl DeepView for CloudflarePagesEnvVarValue {
    type V = Seq<char>;

    /// The text of the value.
    open spec fn deep_view(&self) -> Seq<char> {
        self.value@
    }
}

/// One environment's variables in the remote shape. An absent `env_vars` means
/// that the section was not given, which differs from a section that is there
/// and empty. An entry without a value asks, in a patch, for the deletion of
/// its name.
#[derive(Debug, PartialEq, Eq)]
pub struct CloudflarePagesEnvironment {
    pub env_vars: Option<VarMap<Option<CloudflarePagesEnvVarValue>>>,
}

impl CloudflarePagesEnvironment {
    /// What the section says of each name it mentions; nothing where the
    /// section is absent.
    pub open spec fn entries(&self) -> Map<Seq<char>, Option<Seq<char>>> {
        match self.env_vars {
            Some(vars) => vars@,
            None => Map::empty(),
        }
    }

    /// Whether the section mentions no name: it is absent, or there and empty.
    pub fn is_empty(&self) -> (empty: bool)
        ensures
            empty == (self.entries() == Map::<Seq<char>, Option<Seq<char>>>::empty()),
    {
        match &self.env_vars {
            Some(vars) => vars.is_empty(),
            None => true,
        }
    }
}

/// Both environments of a project in the remote shape: the unit that is
/// fetched from the project and sent to it as a patch.
#[derive(Debug, PartialEq, Eq)]
pub struct CloudflarePagesDeploymentConfigs {
    pub preview: CloudflarePagesEnvironment,
    pub production: CloudflarePagesEnvironment,
}

impl CloudflarePagesDeploymentConfigs {
    /// Neither section mentions a name. As a patch such a value changes
    /// nothing and is not to be sent.
    pub open spec fn changes_nothing(&self) -> bool {
        &&& self.preview.entries() == Map::<Seq<char>, Option<Seq<char>>>::empty()
        &&& self.production.entries() == Map::<Seq<char>, Option<Seq<char>>>::empty()
    }

    /// Whether neither section mentions a name.
    pub fn is_empty(&self) -> (empty: bool)
        ensures
            empty == self.changes_nothing(),
    {
        let is_preview_empty = self.preview.is_empty();
        let is_production_empty = self.production.is_empty();
        is_preview_empty && is_production_empty
    }
}

/// Both environments flattened, each always present.
#[derive(Debug, PartialEq, Eq)]
pub struct FullEnvVarsFile {
    pub production: VarMap<String>,
    pub preview: VarMap<String>,
}

/// Both environments flattened, each possibly absent. As a desired state an
/// absent environment is one to leave untouched.
#[derive(Debug, PartialEq, Eq)]
pub struct EnvVarsFile {
    pub production: Option<VarMap<String>>,
    pub preview: Option<VarMap<String>>,
}

/// The map of an environment that may be absent.
pub open spec fn optional_vars(vars: Option<VarMap<String>>) -> Option<Map<Seq<char>, Seq<char>>> {
    match vars {
        Some(vars) => Some(vars@),
        None => None,
    }
}

impl EnvVarsFile {
    /// The section of `environment`.
    pub open spec fn section(&self, environment: Environment) -> Option<VarMap<String>> {
        match environment {
            Environment::Production => self.production,
            Environment::Preview => self.preview,
        }
    }
}

/// A project as the remote platform reports it.
#[derive(Debug, PartialEq, Eq)]
pub struct CloudflarePagesProject {
    pub id: String,
    pub name: String,
    pub deployment_configs: CloudflarePagesDeploymentConfigs,
}

/// One deployment as the remote platform reports it: the environment it
/// belongs to and the variables it was built with.
#[derive(Debug, PartialEq, Eq)]
pub struct CloudflarePagesDeployment {
    pub id: String,
    pub environment: Environment,
    pub vars: CloudflarePagesEnvironment,
}

/// The body of a request that patches a project.
#[derive(Debug, PartialEq, Eq)]
pub struct CloudflarePagesPatchRequest {
    pub deployment_configs: CloudflarePagesDeploymentConfigs,
}

/// The envelope round every answer of the remote platform.
#[derive(Debug, PartialEq, Eq)]
pub struct CloudflareResponse<T> {
    pub result: T,
    pub success: bool,
}

impl<T> CloudflareResponse<T> {
    /// The payload of an answer that reports success. An answer that does not
    /// is a failure, whatever else it holds.
    pub fn into_result(self) -> (r: Result<T, CommandError>)
        ensures
            self.success ==> r == Ok::<T, CommandError>(self.result),
            !self.success ==> r == Err::<T, CommandError>(CommandError::UnsuccessfulRequest),
    {
        if self.success {
            Ok(self.result)
        } else {
            Err(CommandError::UnsuccessfulRequest)
        }
    }
}

/// The plain text of each entry: the value's text, or the empty text where an
/// entry has no value.
pub open spec fn flattened(entries: Map<Seq<char>, Option<Seq<char>>>) -> Map<Seq<char>, Seq<char>> {
    entries.map_values(
        |value: Option<Seq<char>>|
            match value {
                Some(text) => text,
                None => Seq::<char>::empty(),
            },
    )
}

impl From<CloudflarePagesEnvironment> for VarMap<String> {
    /// Flattens one environment. An absent section gives an empty map. An
    /// entry without a value gives the empty text, so that afterwards it cannot
    /// be told from a variable whose text is empty.
    fn from(value: CloudflarePagesEnvironment) -> (vars: Self)
        ensures
            vars@ == flattened(value.entries()),
    {
        let mut vars: VarMap<String> = VarMap::new();
        match &value.env_vars {
            Some(env_vars) => {
                let n = env_vars.len();
                let mut i: usize = 0;
                proof {
                    lemma_listed_below_ends(env_vars.listing());
                }
                while i < n
                    invariant
                        i <= n == env_vars.listing().len(),
                        forall|name: Seq<char>|
                            #![trigger vars@.contains_key(name)]
                            #![trigger listed_below(env_vars.listing(), i as int, name)]
                            vars@.contains_key(name) <==> listed_below(
                                env_vars.listing(),
                                i as int,
                                name,
                            ),
                        forall|name: Seq<char>|
                            vars@.contains_key(name) ==> vars@[name] == flattened(
                                env_vars@,
                            )[name],
                    decreases n - i,
                {
                    let (name, var_value) = env_vars.entry(i);
                    let text = match var_value {
                        Some(var_value) => var_value.value.clone(),
                        None => String::new(),
                    };
                    vars.insert(name.clone(), text);
                    proof {
                        lemma_listed_below_step(env_vars.listing(), i as int);
                    }
                    i += 1;
                }
            },
            None => {},
        }
        vars
    }
}

/// What `from` returns is stated by its own `ensures`: no specification
/// function can build a map value, so the conversion does not go by
/// `from_spec`.
impl vstd::std_specs::convert::FromSpecImpl<CloudflarePagesEnvironment> for VarMap<String> {
    open spec fn obeys_from_spec() -> bool {
        false
    }

    open spec fn from_spec(value: CloudflarePagesEnvironment) -> Self {
        arbitrary()
    }
}

impl From<CloudflarePagesDeploymentConfigs> for FullEnvVarsFile {
    /// Flattens both environments, each by itself.
    fn from(value: CloudflarePagesDeploymentConfigs) -> (file: Self)
        ensures
            file.production@ == flattened(value.production.entries()),
            file.preview@ == flattened(value.preview.entries()),
    {
        FullEnvVarsFile { production: value.production.into(), preview: value.preview.into() }
    }
}

/// What `from` returns is stated by its own `ensures`.
impl vstd::std_specs::convert::FromSpecImpl<CloudflarePagesDeploymentConfigs> for FullEnvVarsFile {
    open spec fn obeys_from_spec() -> bool {
        false
    }

    open spec fn from_spec(value: CloudflarePagesDeploymentConfigs) -> Self {
        arbitrary()
    }
}

impl From<CloudflarePagesDeploymentConfigs> for EnvVarsFile {
    /// Flattens both environments, each by itself; both are present in the
    /// result.
    fn from(value: CloudflarePagesDeploymentConfigs) -> (file: Self)
        ensures
            optional_vars(file.production) == Some(flattened(value.production.entries())),
            optional_vars(file.preview) == Some(flattened(value.preview.entries())),
    {
        EnvVarsFile {
            production: Some(value.production.into()),
            preview: Some(value.preview.into()),
        }
    }
}

/// What `from` returns is stated by its own `ensures`.
impl vstd::std_specs::convert::FromSpecImpl<CloudflarePagesDeploymentConfigs> for EnvVarsFile {
    open spec fn obeys_from_spec() -> bool {
        false
    }

    open spec fn from_spec(value: CloudflarePagesDeploymentConfigs) -> Self {
        arbitrary()
    }
}

impl From<CloudflarePagesDeployment> for EnvVarsFile {
    /// Flattens the variables of one deployment into the section of the
    /// environment that the deployment reports; the other section is absent.
    fn from(value: CloudflarePagesDeployment) -> (file: Self)
        ensures
            optional_vars(file.section(value.environment)) == Some(
                flattened(value.vars.entries()),
            ),
            value.environment == Environment::Production ==> file.preview is None,
            value.environment == Environment::Preview ==> file.production is None,
    {
        let environment = value.environment;
        let vars: VarMap<String> = value.vars.into();
        match environment {
            Environment::Production => EnvVarsFile { production: Some(vars), preview: None },
            Environment::Preview => EnvVarsFile { production: None, preview: Some(vars) },
        }
    }
}

/// What `from` returns is stated by its own `ensures`.
impl vstd::std_specs::convert::FromSpecImpl<CloudflarePagesDeployment> for EnvVarsFile {
    open spec fn obeys_from_spec() -> bool {
        false
    }

    open spec fn from_spec(value: CloudflarePagesDeployment) -> Self {
        arbitrary()
    }
}

} // verus!
