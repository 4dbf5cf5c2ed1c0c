//! Starting the service: where the models are, which of them can be launched, and
//! whether the engine can be used.

use vstd::prelude::*;

use super::error::ServiceError;
use crate::api::auth::AuthError;
use crate::domain::error::optional_text;
use crate::launcher::capability::{EngineCapabilities, LaunchSettings};
use crate::launcher::config::{clone_models, ConfigDiagnostic, LauncherConfig};
use crate::launcher::error::AppError;
use crate::launcher::lifecycle::LifecycleSnapshot;
use crate::launcher::model::{ModelId, ModelRecord, ModelState};
use crate::text::joined;

verus! {

/// A step of the start.
#[derive(Clone, Copy, Debug, PartialEq, Eq, Structural)]
pub enum StartStep {
    LoadConfig,
    ReconcileCatalog,
    LoadTokens,
    StartWatcher,
    ProbeEngine,
    SpawnLifecycle,
    BuildGateway,
    StartGateway,
    Running,
}

impl StartStep {
    /// The place of a step among the steps.
    pub open spec fn number(self) -> int {
        match self {
            StartStep::LoadConfig => 0,
            StartStep::ReconcileCatalog => 1,
            StartStep::LoadTokens => 2,
            StartStep::StartWatcher => 3,
            StartStep::ProbeEngine => 4,
            StartStep::SpawnLifecycle => 5,
            StartStep::BuildGateway => 6,
            StartStep::StartGateway => 7,
            StartStep::Running => 8,
        }
    }

    /// The step that follows a step that succeeded.
    pub fn next(self) -> (result: StartStep)
        ensures
            self != StartStep::Running ==> result.number() == self.number() + 1,
            self == StartStep::Running ==> result == StartStep::Running,
    {
        match self {
            StartStep::LoadConfig => StartStep::ReconcileCatalog,
            StartStep::ReconcileCatalog => StartStep::LoadTokens,
            StartStep::LoadTokens => StartStep::StartWatcher,
            StartStep::StartWatcher => StartStep::ProbeEngine,
            StartStep::ProbeEngine => StartStep::SpawnLifecycle,
            StartStep::SpawnLifecycle => StartStep::BuildGateway,
            StartStep::BuildGateway => StartStep::StartGateway,
            StartStep::StartGateway => StartStep::Running,
            StartStep::Running => StartStep::Running,
        }
    }

    /// The lifecycle exists at this step.
    pub open spec fn has_lifecycle(self) -> bool {
        self.number() > StartStep::SpawnLifecycle.number()
    }

    /// Whether the lifecycle has to be shut down when this step fails.
    pub fn cleans_up(self) -> (result: bool)
        ensures
            result == self.has_lifecycle(),
    {
        match self {
            StartStep::BuildGateway | StartStep::StartGateway | StartStep::Running => true,
            _ => false,
        }
    }

    /// Whether the service starts all the same when this step fails: an engine that
    /// cannot be used is only reported.
    pub fn is_optional(self) -> (result: bool)
        ensures
            result == (self == StartStep::ProbeEngine),
    {
        match self {
            StartStep::ProbeEngine => true,
            _ => false,
        }
    }
}

/// Where the models are: where the configuration says, or else at the usual place.
pub fn catalog_root(config: &LauncherConfig, usual: &str) -> (result: String)
    ensures
        result@ == (match config.catalog_directory {
            Some(root) => root@,
            None => usual@,
        }),
{
    match &config.catalog_directory {
        Some(root) => root.clone(),
        None => usual.to_owned(),
    }
}

/// Whether the directory is made: only the usual one, where it does not exist.
pub fn creates_root(configured: bool, is_directory: bool) -> (result: bool)
    ensures
        result == (!configured && !is_directory),
{
    !configured && !is_directory
}

/// What a user is told of the directory.
pub open spec fn directory_report(create_error: Option<Seq<char>>, is_directory: bool) -> Option<Seq<char>> {
    match create_error {
        Some(reason) => Some("model directory is unavailable: "@ + reason),
        None => if is_directory {
            None
        } else {
            Some("model directory is unavailable"@)
        },
    }
}

pub open spec fn optional_reason(reason: Option<&str>) -> Option<Seq<char>> {
    match reason {
        Some(text) => Some(text@),
        None => None,
    }
}

/// What a user is told of the directory: why it could not be made, or that it does
/// not exist.
pub fn catalog_diagnostic(create_error: Option<&str>, is_directory: bool) -> (result: Option<String>)
    ensures
        optional_text(result) == directory_report(optional_reason(create_error), is_directory),
{
    match create_error {
        Some(reason) => Some(joined("model directory is unavailable: ", reason)),
        None => if is_directory {
            None
        } else {
            Some("model directory is unavailable".to_owned())
        },
    }
}

/// A model whose file cannot be found.
pub open spec fn missing(model: ModelRecord) -> ModelRecord {
    ModelRecord { state: ModelState::Missing, ..model }
}

/// The configuration while there is no directory: every model is missing.
pub fn without_catalog(config: LauncherConfig) -> (result: LauncherConfig)
    ensures
        result.same_but_models(config),
        result.models@ == config.models@.map_values(|model: ModelRecord| missing(model)),
{
    let mut result = config;
    let ghost all = config.models@.map_values(|model: ModelRecord| missing(model));
    let mut models: Vec<ModelRecord> = Vec::new();
    for index in 0..result.models.len()
        invariant
            result == config,
            all == config.models@.map_values(|model: ModelRecord| missing(model)),
            models@ == all.take(index as int),
    {
        let mut model = result.models[index].clone();
        model.state = ModelState::Missing;
        models.push(model);
        assert(all.take(index + 1) =~= all.take(index as int).push(all[index as int]));
    }
    assert(all.take(all.len() as int) =~= all);
    result.models = models;
    result
}

/// The engine that the configuration names, if it names one completely.
pub fn engine_place(config: &LauncherConfig) -> (result: Option<(String, String)>)
    ensures
        match result {
            Some((distribution, executable)) => optional_text(config.engine_distribution) == Some(distribution@)
                && optional_text(config.engine_executable) == Some(executable@),
            None => config.engine_distribution is None || config.engine_executable is None,
        },
{
    match (&config.engine_distribution, &config.engine_executable) {
        (Some(distribution), Some(executable)) => Some((distribution.clone(), executable.clone())),
        _ => None,
    }
}

/// Whether the directory is watched.
pub fn starts_watcher(is_directory: bool, wanted: bool) -> (result: bool)
    ensures
        result == (is_directory && wanted),
{
    is_directory && wanted
}

/// Why stored tokens cannot be used.
pub fn token_error(error: AuthError) -> (result: ServiceError)
    ensures
        result.message_text() == "authentication token: "@ + error.message_text(),
{
    ServiceError::Authentication(error.to_string())
}

/// Whether the engine can be used, and why not.
#[derive(Debug)]
pub struct EngineHealth {
    pub valid: bool,
    pub diagnostic: Option<String>,
}

impl EngineHealth {
    /// What asking the engine for its options tells. One that does not answer has
    /// none.
    pub fn probed(answer: Result<EngineCapabilities, AppError>) -> (result: (EngineCapabilities, Self))
        ensures
            match answer {
                Ok(capabilities) => result.0 == capabilities && result.1.valid && result.1.diagnostic is None,
                Err(error) => result.0 == EngineCapabilities::none() && !result.1.valid && optional_text(
                    result.1.diagnostic,
                ) == Some(error.message_text()),
            },
    {
        match answer {
            Ok(capabilities) => (capabilities, EngineHealth { valid: true, diagnostic: None }),
            Err(error) => (
                EngineCapabilities::default(),
                EngineHealth { valid: false, diagnostic: Some(error.to_string()) },
            ),
        }
    }

    /// Refuses to launch anything while the engine cannot be used.
    pub fn guard(&self) -> (result: Result<(), AppError>)
        ensures
            result == (if self.valid {
                Ok(())
            } else {
                Err(AppError::EngineUnavailable)
            }),
    {
        if self.valid {
            Ok(())
        } else {
            Err(AppError::EngineUnavailable)
        }
    }
}

/// What the service knows.
#[derive(Debug)]
pub struct ServiceState {
    pub config: LauncherConfig,
    pub capabilities: EngineCapabilities,
    pub health: EngineHealth,
    pub recent: Vec<ModelId>,
    pub catalog_root: String,
    pub catalog_diagnostic: Option<String>,
    pub config_diagnostic: Option<ConfigDiagnostic>,
    pub changes: u64,
}

/// What was found out on the way to a running service.
#[derive(Debug)]
pub struct StartFindings {
    /// The configuration as it was loaded.
    pub config: LauncherConfig,
    /// What was wrong with its file.
    pub config_diagnostic: Option<ConfigDiagnostic>,
    /// The place of the models where the configuration names none.
    pub usual_root: String,
    /// Whether the place of the models is a directory, once it was made.
    pub root_is_directory: bool,
    /// Why it could not be made.
    pub create_error: Option<String>,
    /// The configuration after the directory was scanned.
    pub reconciled: Option<LauncherConfig>,
    /// What the engine answered.
    pub probe: Result<EngineCapabilities, AppError>,
}

impl ServiceState {
    /// The state that a service starts with.
    pub fn start(findings: StartFindings) -> (result: Self)
        ensures
            result.recent@.len() == 0,
            result.changes == 0,
            result.config_diagnostic == findings.config_diagnostic,
            result.catalog_root@ == (match findings.config.catalog_directory {
                Some(root) => root@,
                None => findings.usual_root@,
            }),
            optional_text(result.catalog_diagnostic) == directory_report(
                optional_text(findings.create_error),
                findings.root_is_directory,
            ),
            if findings.root_is_directory && findings.reconciled is Some {
                result.config == findings.reconciled->0
            } else {
                &&& result.config.same_but_models(findings.config)
                &&& result.config.models@ == findings.config.models@.map_values(
                    |model: ModelRecord| missing(model),
                )
            },
            match findings.probe {
                Ok(capabilities) => result.capabilities == capabilities && result.health.valid
                    && result.health.diagnostic is None,
                Err(error) => result.capabilities == EngineCapabilities::none() && !result.health.valid
                    && optional_text(result.health.diagnostic) == Some(error.message_text()),
            },
    {
        let catalog_root = catalog_root(&findings.config, findings.usual_root.as_str());
        let reason = match &findings.create_error {
            Some(text) => Some(text.as_str()),
            None => None,
        };
        let catalog_diagnostic = catalog_diagnostic(reason, findings.root_is_directory);
        let config = if findings.root_is_directory {
            match findings.reconciled {
                Some(config) => config,
                None => without_catalog(findings.config),
            }
        } else {
            without_catalog(findings.config)
        };
        let (capabilities, health) = EngineHealth::probed(findings.probe);
        ServiceState {
            config,
            capabilities,
            health,
            recent: Vec::new(),
            catalog_root,
            catalog_diagnostic,
            config_diagnostic: findings.config_diagnostic,
            changes: 0,
        }
    }

    /// Tells those who watch that something changed.
    pub fn changed(&mut self)
        ensures
            *final(self) == (ServiceState {
                changes: if old(self).changes == u64::MAX {
                    0
                } else {
                    (old(self).changes + 1) as u64
                },
                ..*old(self)
            }),
    {
        self.changes = if self.changes == u64::MAX {
            0
        } else {
            self.changes + 1
        };
    }

    /// The settings that a user can change.
    pub fn launcher_settings(&self) -> (result: LauncherSettings)
        ensures
            result.catalog_directory@ == self.catalog_root@,
            result.engine_distribution@ == optional_text(self.config.engine_distribution).unwrap_or(Seq::empty()),
            result.engine_executable@ == optional_text(self.config.engine_executable).unwrap_or(Seq::empty()),
            result.default_launch_settings == self.config.default_launch_settings,
    {
        LauncherSettings {
            catalog_directory: self.catalog_root.clone(),
            engine_distribution: match &self.config.engine_distribution {
                Some(text) => text.clone(),
                None => String::new(),
            },
            engine_executable: match &self.config.engine_executable {
                Some(text) => text.clone(),
                None => String::new(),
            },
            default_launch_settings: self.config.default_launch_settings.clone(),
        }
    }

    /// What others see of the service.
    pub fn snapshot(&self, lifecycle: LifecycleSnapshot) -> (result: ServiceSnapshot)
        ensures
            result.models@ == self.config.models@,
            result.lifecycle == lifecycle,
            result.engine_valid == self.health.valid,
            optional_text(result.engine_diagnostic) == optional_text(self.health.diagnostic),
            optional_text(result.catalog_diagnostic) == optional_text(self.catalog_diagnostic),
            result.config_diagnostic == self.config_diagnostic,
    {
        ServiceSnapshot {
            models: clone_models(&self.config.models),
            lifecycle,
            engine_valid: self.health.valid,
            engine_diagnostic: self.health.diagnostic.clone(),
            config_diagnostic: match &self.config_diagnostic {
                Some(diagnostic) => Some(diagnostic.clone()),
                None => None,
            },
            catalog_diagnostic: self.catalog_diagnostic.clone(),
        }
    }
}

/// The settings that a user can change.
#[derive(Debug)]
pub struct LauncherSettings {
    pub catalog_directory: String,
    pub engine_distribution: String,
    pub engine_executable: String,
    pub default_launch_settings: LaunchSettings,
}

/// What others see of the service.
#[derive(Debug)]
pub struct ServiceSnapshot {
    pub models: Vec<ModelRecord>,
    pub lifecycle: LifecycleSnapshot,
    pub engine_valid: bool,
    pub engine_diagnostic: Option<String>,
    pub config_diagnostic: Option<ConfigDiagnostic>,
    pub catalog_diagnostic: Option<String>,
}

} // verus!
