//! Changing settings while the service runs. A change is saved before it takes
//! effect for good, and one that fails leaves things as they were.

use vstd::prelude::*;

use super::error::ServiceError;
use super::startup::{LauncherSettings, ServiceState};
use crate::api::auth::{CreatedToken, TokenStore};
use crate::api::gateway::HostAddress;
use crate::domain::error::optional_text;
use crate::launcher::capability::EngineCapabilities;
use crate::launcher::catalog::ScanResult;
use crate::launcher::config::LauncherConfig;
use crate::launcher::model::ModelId;
use crate::launcher::reconcile::{
    applied, decisions, keys_fit, record_views, remaining, try_reconcile, Decision, ReconcileOptions,
};

verus! {

/// Where the interface listens.
#[derive(Clone, Copy, Debug, PartialEq, Eq, Structural)]
pub struct ServerAddress {
    pub host: HostAddress,
    pub port: u16,
}

/// Every address of the machine at once.
pub open spec fn unspecified(host: HostAddress) -> bool {
    match host {
        HostAddress::V4(number) => number == 0,
        HostAddress::V6(number) => number == 0,
    }
}

fn is_unspecified(host: HostAddress) -> (result: bool)
    ensures
        result == unspecified(host),
{
    match host {
        HostAddress::V4(number) => number == 0,
        HostAddress::V6(number) => number == 0,
    }
}

/// The new listener can only start once the old one has stopped: they would share
/// the port.
pub open spec fn shares_port(requested: ServerAddress, current: ServerAddress) -> bool {
    requested.port == current.port && requested.host != current.host && (unspecified(requested.host) || unspecified(
        current.host,
    ))
}

/// What is being done to change where the interface listens.
#[derive(Clone, Copy, Debug, PartialEq, Eq, Structural)]
pub enum ServerStage {
    /// The address stays: only the configuration is saved.
    SaveOnly,
    Build,
    StopOld,
    StartNew,
    SaveNew,
    /// The new listener is stopped because the change could not be saved.
    StopNew,
    RestoreOld,
    /// The change is made; the old listener is stopped.
    RetireOld,
    Done,
}

/// A change of where the interface listens and who may use it.
#[derive(Debug)]
pub struct ServerChange {
    pub requested: ServerAddress,
    pub current: ServerAddress,
    pub auth_enabled: bool,
    pub stage: ServerStage,
    pub old_live: bool,
    pub new_live: bool,
    pub saved: bool,
    pub error: Option<ServiceError>,
}

/// What every stage of a change keeps.
pub open spec fn change_sound(change: ServerChange) -> bool {
    let handoff = shares_port(change.requested, change.current);
    match change.stage {
        ServerStage::SaveOnly => change.old_live && !change.new_live && !change.saved && change.error is None
            && change.requested == change.current,
        ServerStage::Build => change.old_live && !change.new_live && !change.saved && change.error is None
            && change.requested != change.current,
        ServerStage::StopOld => handoff && change.old_live && !change.new_live && !change.saved && change.error is None
            && change.requested != change.current,
        ServerStage::StartNew => change.old_live == !handoff && !change.new_live && !change.saved && change.error
            is None && change.requested != change.current,
        ServerStage::SaveNew => change.old_live == !handoff && change.new_live && !change.saved && change.error
            is None && change.requested != change.current,
        ServerStage::StopNew => change.old_live == !handoff && change.new_live && !change.saved && change.error
            is Some && change.requested != change.current,
        ServerStage::RestoreOld => handoff && !change.old_live && !change.new_live && !change.saved && change.error
            is Some && change.requested != change.current,
        ServerStage::RetireOld => !handoff && change.old_live && change.new_live && change.saved && change.error
            is None && change.requested != change.current,
        ServerStage::Done => match change.error {
            None => change.saved && (if change.requested == change.current {
                change.old_live && !change.new_live
            } else {
                !change.old_live && change.new_live
            }),
            Some(_) => !change.saved && !change.new_live && (change.old_live || handoff),
        },
    }
}

/// What follows a stage that succeeded or failed. Stopping a listener always
/// counts as done.
pub open spec fn change_after(change: ServerChange, failed: bool) -> (ServerStage, bool, bool, bool) {
    let handoff = shares_port(change.requested, change.current);
    match change.stage {
        ServerStage::SaveOnly => (ServerStage::Done, change.old_live, change.new_live, !failed),
        ServerStage::Build => if failed {
            (ServerStage::Done, change.old_live, change.new_live, change.saved)
        } else if handoff {
            (ServerStage::StopOld, change.old_live, change.new_live, change.saved)
        } else {
            (ServerStage::StartNew, change.old_live, change.new_live, change.saved)
        },
        ServerStage::StopOld => (ServerStage::StartNew, false, change.new_live, change.saved),
        ServerStage::StartNew => if !failed {
            (ServerStage::SaveNew, change.old_live, true, change.saved)
        } else if handoff {
            (ServerStage::RestoreOld, change.old_live, change.new_live, change.saved)
        } else {
            (ServerStage::Done, change.old_live, change.new_live, change.saved)
        },
        ServerStage::SaveNew => if failed {
            (ServerStage::StopNew, change.old_live, change.new_live, change.saved)
        } else if change.old_live {
            (ServerStage::RetireOld, change.old_live, change.new_live, true)
        } else {
            (ServerStage::Done, change.old_live, change.new_live, true)
        },
        ServerStage::StopNew => if handoff {
            (ServerStage::RestoreOld, change.old_live, false, change.saved)
        } else {
            (ServerStage::Done, change.old_live, false, change.saved)
        },
        ServerStage::RestoreOld => (ServerStage::Done, !failed, change.new_live, change.saved),
        ServerStage::RetireOld => (ServerStage::Done, false, change.new_live, change.saved),
        ServerStage::Done => (ServerStage::Done, change.old_live, change.new_live, change.saved),
    }
}

/// The error that a change reports: the first one, unless the old listener could
/// not be restored after it.
pub open spec fn change_error(change: ServerChange, outcome: Result<(), ServiceError>) -> Option<ServiceError> {
    match outcome {
        Ok(_) => change.error,
        Err(error) => match change.stage {
            ServerStage::StopOld | ServerStage::StopNew | ServerStage::RetireOld | ServerStage::Done => change.error,
            _ => Some(error),
        },
    }
}

impl ServerChange {
    /// Begins a change. A port has to be named.
    pub fn begin(running: bool, requested: ServerAddress, current: ServerAddress, auth_enabled: bool) -> (result: Result<
        Self,
        ServiceError,
    >)
        ensures
            match result {
                Ok(change) => {
                    &&& running && requested.port != 0
                    &&& change_sound(change)
                    &&& change.requested == requested && change.current == current
                    &&& change.auth_enabled == auth_enabled
                    &&& change.stage == (if requested == current {
                        ServerStage::SaveOnly
                    } else {
                        ServerStage::Build
                    })
                },
                Err(error) => if running {
                    requested.port == 0 && error.message_text() == "invalid server settings: "@
                        + "port must be between 1 and 65535"@
                } else {
                    error == ServiceError::ShuttingDown
                },
            },
    {
        if !running {
            return Err(ServiceError::ShuttingDown);
        }
        if requested.port == 0 {
            return Err(ServiceError::InvalidServerSettings("port must be between 1 and 65535".to_owned()));
        }
        let stage = if requested == current {
            ServerStage::SaveOnly
        } else {
            ServerStage::Build
        };
        Ok(
            ServerChange {
                requested,
                current,
                auth_enabled,
                stage,
                old_live: true,
                new_live: false,
                saved: false,
                error: None,
            },
        )
    }

    /// Takes note of how the stage came out.
    pub fn advance(&mut self, outcome: Result<(), ServiceError>)
        requires
            change_sound(*old(self)),
        ensures
            change_sound(*final(self)),
            final(self).requested == old(self).requested,
            final(self).current == old(self).current,
            final(self).auth_enabled == old(self).auth_enabled,
            (final(self).stage, final(self).old_live, final(self).new_live, final(self).saved) == change_after(
                *old(self),
                outcome is Err,
            ),
            final(self).error == change_error(*old(self), outcome),
    {
        let handoff = self.requested.port == self.current.port && self.requested.host != self.current.host && (
        is_unspecified(self.requested.host) || is_unspecified(self.current.host));
        let failed = outcome.is_err();
        let stage = self.stage;
        match stage {
            ServerStage::StopOld => {
                self.old_live = false;
                self.stage = ServerStage::StartNew;
            },
            ServerStage::StopNew => {
                self.new_live = false;
                self.stage = if handoff {
                    ServerStage::RestoreOld
                } else {
                    ServerStage::Done
                };
            },
            ServerStage::RetireOld => {
                self.old_live = false;
                self.stage = ServerStage::Done;
            },
            ServerStage::Done => {},
            ServerStage::SaveOnly => {
                self.saved = !failed;
                self.stage = ServerStage::Done;
            },
            ServerStage::Build => {
                self.stage = if failed {
                    ServerStage::Done
                } else if handoff {
                    ServerStage::StopOld
                } else {
                    ServerStage::StartNew
                };
            },
            ServerStage::StartNew => {
                self.new_live = !failed;
                self.stage = if !failed {
                    ServerStage::SaveNew
                } else if handoff {
                    ServerStage::RestoreOld
                } else {
                    ServerStage::Done
                };
            },
            ServerStage::SaveNew => {
                self.saved = !failed;
                self.stage = if failed {
                    ServerStage::StopNew
                } else if self.old_live {
                    ServerStage::RetireOld
                } else {
                    ServerStage::Done
                };
            },
            ServerStage::RestoreOld => {
                self.old_live = !failed;
                self.stage = ServerStage::Done;
            },
        }
        match stage {
            ServerStage::StopOld | ServerStage::StopNew | ServerStage::RetireOld | ServerStage::Done => {},
            _ => {
                if let Err(error) = outcome {
                    self.error = Some(error);
                }
            },
        }
    }
}

/// A change that is over either was saved and took effect, or left the saved
/// configuration alone and the new address unused; the old listener is then still
/// there, unless it had to make room and could not be restored.
pub proof fn law_change_is_made_or_undone(change: ServerChange)
    requires
        change_sound(change),
        change.stage == ServerStage::Done,
    ensures
        change.error is None ==> change.saved && change.old_live != change.new_live,
        change.error is Some ==> !change.saved && !change.new_live,
        change.error is Some && !shares_port(change.requested, change.current) ==> change.old_live,
{
}

/// While a change goes on, somebody listens, unless the two listeners would share
/// the port.
pub proof fn law_somebody_listens(change: ServerChange)
    requires
        change_sound(change),
        !shares_port(change.requested, change.current),
    ensures
        change.old_live || change.new_live,
{
}

/// Writes a change into the configuration.
pub fn set_server(config: &mut LauncherConfig, bind_address: String, port: u16, auth_enabled: bool)
    ensures
        final(config).bind_address == bind_address,
        final(config).port == port,
        final(config).auth_enabled == auth_enabled,
        final(config).models == old(config).models,
        final(config).catalog_directory == old(config).catalog_directory,
        final(config).engine_distribution == old(config).engine_distribution,
        final(config).engine_executable == old(config).engine_executable,
        final(config).default_launch_settings == old(config).default_launch_settings,
        final(config).auth_token_hashes == old(config).auth_token_hashes,
{
    config.bind_address = bind_address;
    config.port = port;
    config.auth_enabled = auth_enabled;
}

/// Whether an engine can be chosen now.
pub fn check_engine_change(running: bool, configurable: bool) -> (result: Result<(), ServiceError>)
    ensures
        match result {
            Ok(_) => running && configurable,
            Err(error) => if !running {
                error == ServiceError::ShuttingDown
            } else {
                !configurable && error.message_text() == "authentication token: "@
                    + "engine settings are not configurable"@
            },
        },
{
    if !running {
        return Err(ServiceError::ShuttingDown);
    }
    if !configurable {
        return Err(ServiceError::Authentication("engine settings are not configurable".to_owned()));
    }
    Ok(())
}

/// Whether the launcher's settings can be changed now.
pub fn check_launcher_change(running: bool, is_directory: bool, configurable: bool) -> (result: Result<
    (),
    ServiceError,
>)
    ensures
        match result {
            Ok(_) => running && is_directory && configurable,
            Err(error) => if !running {
                error == ServiceError::ShuttingDown
            } else if !is_directory {
                error.message_text() == "authentication token: "@ + "model directory must be an existing directory"@
            } else {
                !configurable && error.message_text() == "authentication token: "@
                    + "engine settings are not configurable"@
            },
        },
{
    if !running {
        return Err(ServiceError::ShuttingDown);
    }
    if !is_directory {
        return Err(ServiceError::Authentication("model directory must be an existing directory".to_owned()));
    }
    check_engine_change(running, configurable)
}

/// What asking the chosen engine comes to, given whether the service still runs.
pub fn check_engine_answer(answer: Result<EngineCapabilities, String>, running: bool) -> (result: Result<
    EngineCapabilities,
    ServiceError,
>)
    ensures
        match answer {
            Ok(capabilities) => result == (if running {
                Ok(capabilities)
            } else {
                Err(ServiceError::ShuttingDown)
            }),
            Err(reason) => result == Err::<EngineCapabilities, ServiceError>(ServiceError::Authentication(reason)),
        },
{
    match answer {
        Ok(capabilities) => if running {
            Ok(capabilities)
        } else {
            Err(ServiceError::ShuttingDown)
        },
        Err(reason) => Err(ServiceError::Authentication(reason)),
    }
}

/// A directory that could not be scanned completely is not taken over.
pub fn check_scan(complete: bool) -> (result: Result<(), ServiceError>)
    ensures
        match result {
            Ok(_) => complete,
            Err(error) => !complete && error.message_text() == "authentication token: "@
                + "model directory could not be scanned completely"@,
        },
{
    if complete {
        Ok(())
    } else {
        Err(ServiceError::Authentication("model directory could not be scanned completely".to_owned()))
    }
}

/// The engine that was chosen is in effect.
pub fn commit_engine(state: &mut ServiceState, distribution: String, executable: String, capabilities: EngineCapabilities)
    ensures
        final(state).config == (LauncherConfig {
            engine_distribution: Some(distribution),
            engine_executable: Some(executable),
            ..old(state).config
        }),
        final(state).capabilities == capabilities,
        final(state).health.valid,
        final(state).health.diagnostic is None,
        final(state).recent == old(state).recent,
        final(state).catalog_root == old(state).catalog_root,
        final(state).catalog_diagnostic == old(state).catalog_diagnostic,
        final(state).config_diagnostic == old(state).config_diagnostic,
        final(state).changes == (if old(state).changes == u64::MAX {
            0
        } else {
            old(state).changes + 1
        }),
{
    state.config.engine_distribution = Some(distribution);
    state.config.engine_executable = Some(executable);
    state.capabilities = capabilities;
    state.health.valid = true;
    state.health.diagnostic = None;
    state.changed();
}

/// The configuration with changed settings.
pub open spec fn with_settings(config: LauncherConfig, changed: LauncherConfig, settings: LauncherSettings) -> bool {
    &&& optional_text(changed.catalog_directory) == Some(settings.catalog_directory@)
    &&& optional_text(changed.engine_distribution) == Some(settings.engine_distribution@)
    &&& optional_text(changed.engine_executable) == Some(settings.engine_executable@)
    &&& changed.default_launch_settings == settings.default_launch_settings
    &&& changed.auth_token_hashes@ == config.auth_token_hashes@
    &&& changed.bind_address == config.bind_address
    &&& changed.port == config.port
    &&& changed.auth_enabled == config.auth_enabled
}

/// What becomes of each model of a directory: nothing is removed from the list.
pub open spec fn directory_decisions(config: LauncherConfig, scanned: ScanResult, ignore_case: bool) -> Seq<Decision> {
    decisions(remaining(config.models@, Seq::empty()), scanned.models@, scanned.models@.len(), ignore_case)
}

/// The configuration with changed settings and the models of the chosen directory,
/// whose paths are compared with or without regard to case. `ids` are the
/// identifiers for models that are new. There is no configuration where a new key
/// would be too long.
pub fn changed_config(
    config: &LauncherConfig,
    settings: &LauncherSettings,
    scanned: ScanResult,
    ids: &Vec<ModelId>,
    ignore_case: bool,
) -> (result: Option<LauncherConfig>)
    requires
        scanned.complete,
        ids@.len() >= scanned.models@.len(),
        config.models@.len() + scanned.models@.len() < 0x7fff_fff0,
    ensures
        match result {
            Some(changed) => {
                &&& with_settings(*config, changed, *settings)
                &&& keys_fit(directory_decisions(*config, scanned, ignore_case))
                &&& record_views(changed.models@) == applied(
                    remaining(config.models@, Seq::empty()),
                    scanned.models@,
                    directory_decisions(*config, scanned, ignore_case),
                    ids@,
                    settings.default_launch_settings,
                    scanned.models@.len(),
                )
            },
            None => !keys_fit(directory_decisions(*config, scanned, ignore_case)),
        },
{
    let mut base = config.clone();
    base.catalog_directory = Some(settings.catalog_directory.clone());
    base.engine_distribution = Some(settings.engine_distribution.clone());
    base.engine_executable = Some(settings.engine_executable.clone());
    base.default_launch_settings = settings.default_launch_settings.clone();
    let options = ReconcileOptions { remove_missing: Vec::new(), ignore_case };
    assert(options.remove_missing@ =~= Seq::empty());
    match try_reconcile(&base, scanned, options, ids) {
        Some(result) => Some(result.config),
        None => None,
    }
}

/// The settings that were changed are in effect.
pub fn commit_launcher(state: &mut ServiceState, config: LauncherConfig, root: String, capabilities: EngineCapabilities)
    ensures
        final(state).config == config,
        final(state).catalog_root == root,
        final(state).catalog_diagnostic is None,
        final(state).config_diagnostic == old(state).config_diagnostic,
        final(state).capabilities == capabilities,
        final(state).health.valid,
        final(state).health.diagnostic is None,
        final(state).recent == old(state).recent,
        final(state).changes == (if old(state).changes == u64::MAX {
            0
        } else {
            old(state).changes + 1
        }),
{
    state.config = config;
    state.catalog_root = root;
    state.catalog_diagnostic = None;
    state.capabilities = capabilities;
    state.health.valid = true;
    state.health.diagnostic = None;
    state.changed();
}

/// Whether a token can be made now.
pub fn check_token_request(running: bool, auth_enabled: bool) -> (result: Result<(), ServiceError>)
    ensures
        match result {
            Ok(_) => running && auth_enabled,
            Err(error) => if !running {
                error == ServiceError::ShuttingDown
            } else {
                !auth_enabled && error.message_text() == "authentication token: "@ + "authentication is disabled"@
            },
        },
{
    if !running {
        return Err(ServiceError::ShuttingDown);
    }
    if !auth_enabled {
        return Err(ServiceError::Authentication("authentication is disabled".to_owned()));
    }
    Ok(())
}

/// A token was made and its hash was saved, or not. One that was not saved is
/// taken back.
pub fn finish_token(tokens: &mut TokenStore, created: CreatedToken, saved: Result<(), ServiceError>) -> (result: Result<
    CreatedToken,
    ServiceError,
>)
    requires
        old(tokens)@.hashes.len() > 0,
    ensures
        match saved {
            Ok(_) => result == Ok::<CreatedToken, ServiceError>(created) && final(tokens)@ == old(tokens)@,
            Err(error) => {
                &&& result == Err::<CreatedToken, ServiceError>(error)
                &&& final(tokens)@.hashes == old(tokens)@.hashes.drop_last()
                &&& final(tokens)@.dummy == old(tokens)@.dummy
            },
        },
{
    match saved {
        Ok(_) => Ok(created),
        Err(error) => {
            tokens.remove_last();
            Err(error)
        },
    }
}

} // verus!
