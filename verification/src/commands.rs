//! The three commands, as far as they compute: which address a command asks,
//! what it makes of the answer, and what it sends or writes. Asking, reading
//! and writing are left to the caller.

use crate::diff::{env_patch, generate_deployment_configs_patch};
use crate::environment::Environment;
use crate::error::CommandError;
use crate::model::{
    flattened, optional_vars, CloudflarePagesDeployment, CloudflarePagesPatchRequest,
    CloudflarePagesProject, CloudflareResponse, EnvVarsFile, FullEnvVarsFile,
};
use crate::render::{env_file_text, render_env_file, values_shown_on_one_line};
use crate::var_map::sorted_listing;
use vstd::prelude::*;
use vstd::string::*;

verus! {

/// The account and the access token under which the remote platform is asked.
#[derive(Clone, Debug, PartialEq, Eq)]
pub struct CredentialsArgs {
    pub account: String,
    pub token: String,
}

/// Fetches the variables of a project, or of one of its deployments, into a
/// local file.
#[derive(Debug, PartialEq, Eq)]
pub struct GetEnvVars {
    pub credentials: CredentialsArgs,
    pub project: String,
    pub deployment: Option<String>,
    pub output: Option<String>,
}

/// Brings the variables of a project to the state that a local file describes.
#[derive(Debug, PartialEq, Eq)]
pub struct SetEnvVars {
    pub credentials: CredentialsArgs,
    pub project: String,
    pub file: String,
}

/// Writes one environment of a local file as an env-file.
#[derive(Debug, PartialEq, Eq)]
pub struct ToEnvFile {
    pub environment: Environment,
    pub empty: bool,
    pub output: Option<String>,
    pub file: String,
}

/// What is left to do once the current and the desired state are known.
#[derive(Debug, PartialEq, Eq)]
pub enum PushPlan {
    /// The states agree: nothing is sent.
    NoChanges,
    /// The request that brings the project to the desired state.
    Submit(CloudflarePagesPatchRequest),
}

/// The address of a project of an account.
pub open spec fn project_address(account: Seq<char>, project: Seq<char>) -> Seq<char> {
    "https://api.cloudflare.com/client/v4/accounts/"@ + account + "/pages/projects/"@ + project
}

/// The address of a deployment of a project.
pub open spec fn deployment_address(
    account: Seq<char>,
    project: Seq<char>,
    deployment: Seq<char>,
) -> Seq<char> {
    project_address(account, project) + "/deployments/"@ + deployment
}

/// The address of a project of an account.
pub fn project_url(account: &str, project: &str) -> (url: String)
    ensures
        url@ == project_address(account@, project@),
{
    let mut url = String::from_str("https://api.cloudflare.com/client/v4/accounts/");
    url.append(account);
    url.append("/pages/projects/");
    url.append(project);
    url
}

/// The address of a deployment of a project.
pub fn deployment_url(account: &str, project: &str, deployment: &str) -> (url: String)
    ensures
        url@ == deployment_address(account@, project@, deployment@),
{
    let mut url = project_url(account, project);
    url.append("/deployments/");
    url.append(deployment);
    url
}

impl CredentialsArgs {
    /// The value of the `Authorization` header: the token as a bearer token.
    pub fn authorization(&self) -> (header: String)
        ensures
            header@ == "Bearer "@ + self.token@,
    {
        let mut header = String::from_str("Bearer ");
        header.append(self.token.as_str());
        header
    }
}

impl GetEnvVars {
    /// The address to fetch: that of the deployment where one is named, else
    /// that of the project.
    pub fn url(&self) -> (url: String)
        ensures
            url@ == (match self.deployment {
                Some(deployment) => deployment_address(
                    self.credentials.account@,
                    self.project@,
                    deployment@,
                ),
                None => project_address(self.credentials.account@, self.project@),
            }),
    {
        match &self.deployment {
            Some(deployment) => deployment_url(
                self.credentials.account.as_str(),
                self.project.as_str(),
                deployment.as_str(),
            ),
            None => project_url(self.credentials.account.as_str(), self.project.as_str()),
        }
    }

    /// The file for the answer to a fetch of one deployment: the deployment's
    /// variables under its own environment, and no other section.
    pub fn deployment_vars(response: CloudflareResponse<CloudflarePagesDeployment>) -> (r: Result<
        EnvVarsFile,
        CommandError,
    >)
        ensures
            !response.success ==> r matches Err(CommandError::UnsuccessfulRequest),
            response.success ==> r is Ok,
            r matches Ok(file) ==> {
                &&& optional_vars(file.section(response.result.environment)) == Some(
                    flattened(response.result.vars.entries()),
                )
                &&& response.result.environment == Environment::Production ==> file.preview is None
                &&& response.result.environment == Environment::Preview ==> file.production
                    is None
            },
    {
        match response.into_result() {
            Ok(deployment) => Ok(deployment.into()),
            Err(error) => Err(error),
        }
    }

    /// The file for the answer to a fetch of the project: both environments.
    pub fn project_vars(response: CloudflareResponse<CloudflarePagesProject>) -> (r: Result<
        EnvVarsFile,
        CommandError,
    >)
        ensures
            !response.success ==> r matches Err(CommandError::UnsuccessfulRequest),
            response.success ==> r is Ok,
            r matches Ok(file) ==> {
                &&& optional_vars(file.production) == Some(
                    flattened(response.result.deployment_configs.production.entries()),
                )
                &&& optional_vars(file.preview) == Some(
                    flattened(response.result.deployment_configs.preview.entries()),
                )
            },
    {
        match response.into_result() {
            Ok(project) => Ok(project.deployment_configs.into()),
            Err(error) => Err(error),
        }
    }
}

impl SetEnvVars {
    /// The address of the project, for the fetch and for the patch.
    pub fn url(&self) -> (url: String)
        ensures
            url@ == project_address(self.credentials.account@, self.project@),
    {
        project_url(self.credentials.account.as_str(), self.project.as_str())
    }

    /// The current state for the answer to the fetch of the project: both
    /// environments, flattened. An answer without success is a failure.
    pub fn existing_vars(response: CloudflareResponse<CloudflarePagesProject>) -> (r: Result<
        FullEnvVarsFile,
        CommandError,
    >)
        ensures
            !response.success ==> r matches Err(CommandError::UnsuccessfulRequest),
            response.success ==> r is Ok,
            r matches Ok(file) ==> {
                &&& file.production@ == flattened(
                    response.result.deployment_configs.production.entries(),
                )
                &&& file.preview@ == flattened(
                    response.result.deployment_configs.preview.entries(),
                )
            },
    {
        match response.into_result() {
            Ok(project) => Ok(project.deployment_configs.into()),
            Err(error) => Err(error),
        }
    }

    /// Decides what to send, from the current and the desired state: the
    /// patch that leads from the one to the other, unless it changes nothing.
    pub fn plan(existing_vars: &FullEnvVarsFile, new_vars: &EnvVarsFile) -> (plan: PushPlan)
        ensures
            ({
                let preview = env_patch(existing_vars.preview@, optional_vars(new_vars.preview));
                let production = env_patch(
                    existing_vars.production@,
                    optional_vars(new_vars.production),
                );
                let nothing = Map::<Seq<char>, Option<Seq<char>>>::empty();
                match plan {
                    PushPlan::NoChanges => preview == nothing && production == nothing,
                    PushPlan::Submit(request) => {
                        &&& !(preview == nothing && production == nothing)
                        &&& request.deployment_configs.preview.env_vars is Some
                        &&& request.deployment_configs.production.env_vars is Some
                        &&& request.deployment_configs.preview.entries() == preview
                        &&& request.deployment_configs.production.entries() == production
                    },
                }
            }),
    {
        let deployment_configs_patch = generate_deployment_configs_patch(existing_vars, new_vars);
        if deployment_configs_patch.is_empty() {
            PushPlan::NoChanges
        } else {
            PushPlan::Submit(
                CloudflarePagesPatchRequest { deployment_configs: deployment_configs_patch },
            )
        }
    }
}

impl ToEnvFile {
    /// The text of the env-file for the chosen environment of `all_vars`. A
    /// file without a section for that environment is refused: no empty
    /// env-file is made up for it.
    pub fn render(&self, all_vars: &EnvVarsFile) -> (r: Result<String, CommandError>)
        ensures
            all_vars.section(self.environment) is None ==> r matches Err(
                CommandError::EmptyEnvironment,
            ),
            all_vars.section(self.environment) is Some ==> r is Ok,
            all_vars.section(self.environment) matches Some(vars) ==> {
                &&& r matches Ok(text) ==> text@ == env_file_text(vars.listing(), self.empty)
                &&& sorted_listing(vars.listing())
                &&& values_shown_on_one_line(vars.listing(), self.empty)
            },
    {
        let target_env_vars = match self.environment {
            Environment::Production => &all_vars.production,
            Environment::Preview => &all_vars.preview,
        };
        match target_env_vars {
            Some(vars) => render_env_file(vars, self.empty),
            None => Err(CommandError::EmptyEnvironment),
        }
    }
}

} // verus!
