use vstd::prelude::*;
use crate::logger::LogLevel;
use crate::pipeline::Pipeline;
use crate::project::Project;

verus! {

/// The daemon's configuration.
pub struct Configuration {
    /// Seconds between two polls of the repositories.
    pub update_interval: u32,
    pub log_level: LogLevel,
    pub default_deploy_path: String,
    pub default_log_path: String,
    pub api: Option<ApiConfiguration>,
    pub projects: Vec<Project>,
}

/// Configuration of the management surface.
#[derive(Clone, Copy, Debug, PartialEq, Eq, Structural)]
pub struct ApiConfiguration {
    pub http: Option<HttpApiConfiguration>,
}

#[derive(Clone, Copy, Debug, PartialEq, Eq, Structural)]
pub struct HttpApiConfiguration {
    pub port: u16,
}

/// Polling interval, in seconds, where the configuration gives none.
pub fn default_update_interval() -> (r: u32)
    ensures
        r == 30,
{
    30
}

/// HTTP port of the management surface where the configuration gives none.
pub fn default_http_api_port() -> (r: u16)
    ensures
        r == 4200,
{
    4200
}

/// Why the management surface cannot be started.
#[derive(Clone, Copy, Debug, PartialEq, Eq, Structural)]
pub enum ApiSetupError {
    MissingApiConfiguration,
    MissingHttpConfiguration,
}

impl Configuration {
    /// Marks every project, and every pipeline of each, persistent: what was read
    /// from the configuration file outlives a restart.
    pub fn mark_persistent(&mut self)
        ensures
            final(self).update_interval == old(self).update_interval,
            final(self).log_level == old(self).log_level,
            final(self).default_deploy_path == old(self).default_deploy_path,
            final(self).default_log_path == old(self).default_log_path,
            final(self).api == old(self).api,
            final(self).projects@.len() == old(self).projects@.len(),
            forall|i: int|
                0 <= i < final(self).projects@.len() ==> {
                    let (p, q) = (#[trigger] final(self).projects@[i], old(self).projects@[i]);
                    &&& p.persistent
                    &&& p.url == q.url
                    &&& p.branches == q.branches
                    &&& p.pipelines@.len() == q.pipelines@.len()
                    &&& forall|j: int|
                        0 <= j < p.pipelines@.len() ==> #[trigger] p.pipelines@[j] == (Pipeline {
                            persistent: true,
                            ..q.pipelines@[j]
                        })
                },
    {
        let ghost orig = self.projects@;
        let mut pending: Vec<Project> = Vec::new();
        std::mem::swap(&mut self.projects, &mut pending);
        let mut done: Vec<Project> = Vec::new();
        while pending.len() > 0
            invariant
                orig == old(self).projects@,
                done@.len() + pending@.len() == orig.len(),
                pending@ == orig.subrange(done@.len() as int, orig.len() as int),
                forall|i: int|
                    0 <= i < done@.len() ==> {
                        let (p, q) = (#[trigger] done@[i], orig[i]);
                        &&& p.persistent
                        &&& p.url == q.url
                        &&& p.branches == q.branches
                        &&& p.pipelines@.len() == q.pipelines@.len()
                        &&& forall|j: int|
                            0 <= j < p.pipelines@.len() ==> #[trigger] p.pipelines@[j] == (Pipeline {
                                persistent: true,
                                ..q.pipelines@[j]
                            })
                    },
            decreases pending@.len(),
        {
            let mut p = pending.remove(0);
            p.mark_persistent();
            done.push(p);
            assert(pending@ =~= orig.subrange(done@.len() as int, orig.len() as int));
        }
        self.projects = done;
    }

    /// The port the HTTP management surface binds to.
    pub fn http_api_port(&self) -> (r: Result<u16, ApiSetupError>)
        ensures
            self.api is None ==> r == Err::<u16, ApiSetupError>(
                ApiSetupError::MissingApiConfiguration,
            ),
            self.api matches Some(api) ==> (api.http is None ==> r == Err::<u16, ApiSetupError>(
                ApiSetupError::MissingHttpConfiguration,
            )),
            self.api matches Some(api) ==> (api.http matches Some(http) ==> r == Ok::<
                u16,
                ApiSetupError,
            >(http.port)),
    {
        match &self.api {
            None => Err(ApiSetupError::MissingApiConfiguration),
            Some(api) => match &api.http {
                None => Err(ApiSetupError::MissingHttpConfiguration),
                Some(http) => Ok(http.port),
            },
        }
    }
}

} // verus!
