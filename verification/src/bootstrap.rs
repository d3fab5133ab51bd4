//! From the startup intent to a running application.

use crate::app_handle::AppHandle;
use crate::app_instance::AppInstance;
use crate::browser_handle::ThreadToken;
use crate::error::RuntimeError;
use crate::layout::Platform;
use crate::path::PathRoot;
use crate::runtime_spec::RuntimeSpec;
use crate::services::RuntimeServices;
use crate::settings::{build_settings, settings_for, RuntimeLayout, Settings};
use vstd::prelude::*;

verus! {

/// What the caller has to do next to bring CEF up.
#[derive(Clone, Copy, Debug, PartialEq, Eq, Structural)]
pub enum BootStage {
    /// Load CEF and install the application object (macOS).
    InitNsApp,
    /// Declare the API version to CEF.
    DeclareApiVersion,
    /// Make the services known to the application object (macOS).
    SetServices,
    /// Let CEF run this process if it is one of its subprocesses.
    ExecuteProcess,
    /// Resolve the runtime layout.
    ResolveLayout,
    /// Initialize CEF with the settings handed out.
    Initialize,
    /// Install the application delegate (macOS).
    SetupAppDelegate,
    /// Install the interrupt handler.
    InstallCtrlcHandler,
    /// Nothing: CEF is up, or will not come up.
    Finished,
}

/// What came of the last thing that was done.
pub enum BootReply {
    /// It was done.
    Done,
    NsApp(Result<(), RuntimeError>),
    /// What CEF returned from running the process.
    ExitCode(i32),
    /// The layout, if it resolved, and whether the executable runs from a
    /// bundle with a helper app.
    Layout(Result<RuntimeLayout, RuntimeError>, bool),
    /// What CEF returned from its initialization.
    Initialized(i32),
}

/// What to do after a reply.
pub enum BootAction {
    /// Go on with the current stage.
    Proceed,
    /// Go on with [`BootStage::Initialize`], using these settings.
    InitializeWith(Settings),
    /// This was a subprocess: exit the process with this code.
    ExitProcess(i32),
    /// Give up.
    Fail(RuntimeError),
    /// The runtime is up.
    Ready,
}

/// The exit code for a process that was a CEF subprocess. The browser process
/// has none and goes on.
pub open spec fn subprocess_exit(exit_code: i32) -> Option<i32> {
    if exit_code >= 0 {
        Some(exit_code)
    } else {
        None
    }
}

/// Tells a CEF subprocess, which has to exit with the code that CEF returned,
/// from the browser process, which goes on.
pub fn execute_subprocesses(exit_code: i32) -> (exit: Option<i32>)
    ensures
        exit == subprocess_exit(exit_code),
        exit is Some <==> exit_code >= 0,
        exit matches Some(code) ==> code == exit_code,
{
    if exit_code >= 0 {
        Some(exit_code)
    } else {
        None
    }
}

/// The startup in progress.
#[derive(Clone, Copy, Debug, PartialEq, Eq, Structural)]
pub struct Bootstrap {
    pub platform: Platform,
    /// The host application manages windows and lifecycle itself.
    pub embedded_mode: bool,
    pub persist_session_cookies: bool,
    pub external_message_pump: bool,
    pub stage: BootStage,
}

/// The first thing to do.
pub open spec fn first_stage(platform: Platform) -> BootStage {
    if platform == Platform::MacOs {
        BootStage::InitNsApp
    } else {
        BootStage::DeclareApiVersion
    }
}

/// What follows `stage` when it succeeds.
pub open spec fn stage_after(
    stage: BootStage,
    platform: Platform,
    embedded_mode: bool,
) -> BootStage {
    let macos = platform == Platform::MacOs;
    match stage {
        BootStage::InitNsApp => BootStage::DeclareApiVersion,
        BootStage::DeclareApiVersion => if macos {
            BootStage::SetServices
        } else {
            BootStage::ExecuteProcess
        },
        BootStage::SetServices => BootStage::ExecuteProcess,
        BootStage::ExecuteProcess => BootStage::ResolveLayout,
        BootStage::ResolveLayout => BootStage::Initialize,
        BootStage::Initialize => if macos {
            BootStage::SetupAppDelegate
        } else {
            last_stage(embedded_mode)
        },
        BootStage::SetupAppDelegate => last_stage(embedded_mode),
        _ => BootStage::Finished,
    }
}

/// An embedded runtime leaves interrupts to its host.
pub open spec fn last_stage(embedded_mode: bool) -> BootStage {
    if embedded_mode {
        BootStage::Finished
    } else {
        BootStage::InstallCtrlcHandler
    }
}

/// What a reply to a stage comes to.
pub enum BootVerdict {
    /// It answers another question.
    Unrelated,
    Success,
    /// The process is a subprocess and exits.
    Exit,
    Failure,
}

/// What `reply` to `stage` comes to.
pub open spec fn boot_verdict(stage: BootStage, reply: BootReply) -> BootVerdict {
    match (stage, reply) {
        (BootStage::InitNsApp, BootReply::NsApp(result)) => if result is Ok {
            BootVerdict::Success
        } else {
            BootVerdict::Failure
        },
        (BootStage::DeclareApiVersion, BootReply::Done) => BootVerdict::Success,
        (BootStage::SetServices, BootReply::Done) => BootVerdict::Success,
        (BootStage::SetupAppDelegate, BootReply::Done) => BootVerdict::Success,
        (BootStage::InstallCtrlcHandler, BootReply::Done) => BootVerdict::Success,
        (BootStage::ExecuteProcess, BootReply::ExitCode(code)) => if subprocess_exit(
            code,
        ) is Some {
            BootVerdict::Exit
        } else {
            BootVerdict::Success
        },
        (BootStage::ResolveLayout, BootReply::Layout(layout, _)) => if layout is Ok {
            BootVerdict::Success
        } else {
            BootVerdict::Failure
        },
        (BootStage::Initialize, BootReply::Initialized(result)) => if result == 1 {
            BootVerdict::Success
        } else {
            BootVerdict::Failure
        },
        _ => BootVerdict::Unrelated,
    }
}

/// Where `reply` takes the startup.
pub open spec fn boot_next(boot: Bootstrap, reply: BootReply) -> Bootstrap {
    Bootstrap {
        stage: match boot_verdict(boot.stage, reply) {
            BootVerdict::Unrelated => boot.stage,
            BootVerdict::Success => stage_after(boot.stage, boot.platform, boot.embedded_mode),
            _ => BootStage::Finished,
        },
        ..boot
    }
}

/// The error that `reply` to `stage` ends the startup with.
pub open spec fn is_boot_error(stage: BootStage, reply: BootReply, error: RuntimeError) -> bool {
    match (stage, reply) {
        (BootStage::InitNsApp, BootReply::NsApp(Err(e))) => error == e,
        (BootStage::ResolveLayout, BootReply::Layout(Err(e), _)) => error == e,
        (BootStage::Initialize, BootReply::Initialized(_)) => error is CefInitializeFailed,
        _ => false,
    }
}

/// `action` is what `reply` leads to.
pub open spec fn is_boot_action(boot: Bootstrap, reply: BootReply, action: BootAction) -> bool {
    match boot_verdict(boot.stage, reply) {
        BootVerdict::Unrelated => action is Proceed,
        BootVerdict::Exit => {
            &&& reply matches BootReply::ExitCode(code)
            &&& action == BootAction::ExitProcess(code)
        },
        BootVerdict::Failure => {
            &&& action matches BootAction::Fail(error)
            &&& is_boot_error(boot.stage, reply, error)
        },
        BootVerdict::Success => match reply {
            BootReply::Layout(Ok(layout), has_helper_app) => {
                &&& action matches BootAction::InitializeWith(settings)
                &&& settings@ == settings_for(
                    boot.platform,
                    layout@,
                    boot.persist_session_cookies,
                    boot.external_message_pump,
                    has_helper_app,
                )
            },
            _ => if boot_next(boot, reply).stage == BootStage::Finished {
                action is Ready
            } else {
                action is Proceed
            },
        },
    }
}

/// Begins to bring CEF up for `spec`.
pub fn initialize_cef(platform: Platform, spec: &RuntimeSpec, embedded_mode: bool) -> (boot:
    Bootstrap)
    ensures
        boot == (Bootstrap {
            platform,
            embedded_mode,
            persist_session_cookies: spec.persist_session_cookies,
            external_message_pump: spec.has_scheduler,
            stage: first_stage(platform),
        }),
{
    let stage = match platform {
        Platform::MacOs => BootStage::InitNsApp,
        _ => BootStage::DeclareApiVersion,
    };
    Bootstrap {
        platform,
        embedded_mode,
        persist_session_cookies: spec.persist_session_cookies,
        external_message_pump: spec.has_scheduler,
        stage,
    }
}

impl Bootstrap {
    /// Moves on from a stage that succeeded.
    fn advance(&mut self) -> (action: BootAction)
        ensures
            *final(self) == (Bootstrap {
                stage: stage_after(old(self).stage, old(self).platform, old(self).embedded_mode),
                ..*old(self)
            }),
            if final(self).stage == BootStage::Finished {
                action is Ready
            } else {
                action is Proceed
            },
    {
        let macos = match self.platform {
            Platform::MacOs => true,
            _ => false,
        };
        let last = if self.embedded_mode {
            BootStage::Finished
        } else {
            BootStage::InstallCtrlcHandler
        };
        let next = match self.stage {
            BootStage::InitNsApp => BootStage::DeclareApiVersion,
            BootStage::DeclareApiVersion => if macos {
                BootStage::SetServices
            } else {
                BootStage::ExecuteProcess
            },
            BootStage::SetServices => BootStage::ExecuteProcess,
            BootStage::ExecuteProcess => BootStage::ResolveLayout,
            BootStage::ResolveLayout => BootStage::Initialize,
            BootStage::Initialize => if macos {
                BootStage::SetupAppDelegate
            } else {
                last
            },
            BootStage::SetupAppDelegate => last,
            BootStage::InstallCtrlcHandler => BootStage::Finished,
            BootStage::Finished => BootStage::Finished,
        };
        self.stage = next;
        match next {
            BootStage::Finished => BootAction::Ready,
            _ => BootAction::Proceed,
        }
    }

    /// Gives up.
    fn fail(&mut self, error: RuntimeError) -> (action: BootAction)
        ensures
            *final(self) == (Bootstrap { stage: BootStage::Finished, ..*old(self) }),
            action == BootAction::Fail(error),
    {
        self.stage = BootStage::Finished;
        BootAction::Fail(error)
    }

    /// Takes in what came of the last thing that was done.
    pub fn step(&mut self, reply: BootReply) -> (action: BootAction)
        ensures
            *final(self) == boot_next(*old(self), reply),
            is_boot_action(*old(self), reply, action),
    {
        match (self.stage, reply) {
            (BootStage::InitNsApp, BootReply::NsApp(result)) => match result {
                Ok(_) => self.advance(),
                Err(error) => self.fail(error),
            },
            (BootStage::DeclareApiVersion, BootReply::Done) => self.advance(),
            (BootStage::SetServices, BootReply::Done) => self.advance(),
            (BootStage::SetupAppDelegate, BootReply::Done) => self.advance(),
            (BootStage::InstallCtrlcHandler, BootReply::Done) => self.advance(),
            (BootStage::ExecuteProcess, BootReply::ExitCode(code)) => {
                match execute_subprocesses(code) {
                    Some(exit) => {
                        self.stage = BootStage::Finished;
                        BootAction::ExitProcess(exit)
                    },
                    None => self.advance(),
                }
            },
            (BootStage::ResolveLayout, BootReply::Layout(layout, has_helper_app)) => {
                match layout {
                    Ok(layout) => {
                        let settings = build_settings(
                            self.platform,
                            &layout,
                            self.persist_session_cookies,
                            self.external_message_pump,
                            has_helper_app,
                        );
                        let _ = self.advance();
                        BootAction::InitializeWith(settings)
                    },
                    Err(error) => self.fail(error),
                }
            },
            (BootStage::Initialize, BootReply::Initialized(result)) => if result == 1 {
                self.advance()
            } else {
                self.fail(RuntimeError::CefInitializeFailed)
            },
            _ => BootAction::Proceed,
        }
    }
}

/// Brings the runtime up.
pub struct RuntimeBootstrap;

impl RuntimeBootstrap {
    /// Initialize CEF without entering a message loop.
    pub fn start(platform: Platform, spec: &RuntimeSpec) -> (boot: Bootstrap)
        ensures
            boot == (Bootstrap {
                platform,
                embedded_mode: false,
                persist_session_cookies: spec.persist_session_cookies,
                external_message_pump: spec.has_scheduler,
                stage: first_stage(platform),
            }),
    {
        initialize_cef(platform, spec, false)
    }

    /// Initialize CEF in embedded mode (no window created by CEF Views).
    pub fn start_embedded(platform: Platform, spec: &RuntimeSpec) -> (boot: Bootstrap)
        ensures
            boot == (Bootstrap {
                platform,
                embedded_mode: true,
                persist_session_cookies: spec.persist_session_cookies,
                external_message_pump: spec.has_scheduler,
                stage: first_stage(platform),
            }),
    {
        initialize_cef(platform, spec, true)
    }

    /// The application that starts up on `ui_thread_id`: nothing is open in
    /// it, and nobody has asked it to end.
    pub fn instance(ui_thread_id: ThreadToken) -> (app: AppInstance)
        ensures
            app.wf(),
            app.handle.ui_thread_id == ui_thread_id,
            !app.handle.cef_shutdown_called,
            !app.handle.services.shutdown_signal.requested,
            app.handle.live_browsers().len() == 0,
            app.handle.services.browser_registry.next_id == 0,
            app.handle.open_windows().len() == 0,
            app.handle.services.window_registry.next_id == 0,
    {
        AppInstance { handle: AppHandle::new(RuntimeServices::new(), ui_thread_id) }
    }
}

/// The stages from `stage` on, when every one of them succeeds.
pub open spec fn boot_path(stage: BootStage, platform: Platform, embedded_mode: bool) -> Seq<
    BootStage,
>
    decreases stages_left(stage),
{
    if stage == BootStage::Finished {
        Seq::empty()
    } else {
        seq![stage] + boot_path(
            stage_after(stage, platform, embedded_mode),
            platform,
            embedded_mode,
        )
    }
}

/// How far `stage` is from the end at most.
pub open spec fn stages_left(stage: BootStage) -> nat {
    match stage {
        BootStage::InitNsApp => 8,
        BootStage::DeclareApiVersion => 7,
        BootStage::SetServices => 6,
        BootStage::ExecuteProcess => 5,
        BootStage::ResolveLayout => 4,
        BootStage::Initialize => 3,
        BootStage::SetupAppDelegate => 2,
        BootStage::InstallCtrlcHandler => 1,
        BootStage::Finished => 0,
    }
}

/// What a startup that meets no failure does, in order: the macOS stages on
/// macOS alone, and the interrupt handler, last, unless the host embeds the
/// runtime.
pub proof fn lemma_boot_order(platform: Platform, embedded_mode: bool)
    ensures
        ({
            let macos = platform == Platform::MacOs;
            let none = Seq::<BootStage>::empty();
            let ns_app = if macos {
                seq![BootStage::InitNsApp]
            } else {
                none
            };
            let services = if macos {
                seq![BootStage::SetServices]
            } else {
                none
            };
            let delegate = if macos {
                seq![BootStage::SetupAppDelegate]
            } else {
                none
            };
            let ctrlc = if embedded_mode {
                none
            } else {
                seq![BootStage::InstallCtrlcHandler]
            };
            boot_path(first_stage(platform), platform, embedded_mode) == ns_app + seq![
                BootStage::DeclareApiVersion,
            ] + services + seq![
                BootStage::ExecuteProcess,
                BootStage::ResolveLayout,
                BootStage::Initialize,
            ] + delegate + ctrlc
        }),
{
    reveal_with_fuel(boot_path, 9);
}

/// An embedded runtime never gets to the interrupt handler, whatever the replies.
pub proof fn lemma_embedded_leaves_interrupts_alone(boot: Bootstrap, reply: BootReply)
    requires
        boot.embedded_mode,
        boot.stage != BootStage::InstallCtrlcHandler,
    ensures
        boot_next(boot, reply).embedded_mode,
        boot_next(boot, reply).stage != BootStage::InstallCtrlcHandler,
{
}

/// A startup that has ended rests: no reply changes it or leads to anything.
pub proof fn lemma_finished_startup_rests(boot: Bootstrap, reply: BootReply)
    requires
        boot.stage == BootStage::Finished,
    ensures
        boot_next(boot, reply) == boot,
        boot_verdict(boot.stage, reply) == BootVerdict::Unrelated,
{
}

/// A process that CEF ran as one of its own exits with the code that CEF
/// returned; only the browser process goes on.
pub proof fn lemma_subprocesses_exit(exit_code: i32)
    ensures
        exit_code < 0 ==> subprocess_exit(exit_code) is None,
        exit_code >= 0 ==> subprocess_exit(exit_code) == Some(exit_code),
{
}

/// What each reply leads to: CEF's exit code ends a subprocess, an error ends
/// the startup as that error, CEF comes up exactly when it returns one, and is
/// initialized with the settings of the layout that was resolved. A reply to
/// another question changes nothing.
pub proof fn lemma_boot_step_says_what_happened(
    boot: Bootstrap,
    reply: BootReply,
    action: BootAction,
)
    requires
        is_boot_action(boot, reply, action),
    ensures
        ({
            let next = boot_next(boot, reply);
            &&& next.platform == boot.platform
            &&& next.embedded_mode == boot.embedded_mode
            &&& next.persist_session_cookies == boot.persist_session_cookies
            &&& next.external_message_pump == boot.external_message_pump
            &&& match (boot.stage, reply) {
                (BootStage::InitNsApp, BootReply::NsApp(Ok(_))) => {
                    action is Proceed && next.stage == BootStage::DeclareApiVersion
                },
                (BootStage::InitNsApp, BootReply::NsApp(Err(e))) => {
                    action == BootAction::Fail(e) && next.stage == BootStage::Finished
                },
                (BootStage::DeclareApiVersion, BootReply::Done) => {
                    &&& action is Proceed
                    &&& next.stage == BootStage::SetServices <==> boot.platform == Platform::MacOs
                    &&& next.stage == BootStage::ExecuteProcess <==> boot.platform
                        != Platform::MacOs
                },
                (BootStage::SetServices, BootReply::Done) => {
                    action is Proceed && next.stage == BootStage::ExecuteProcess
                },
                (BootStage::ExecuteProcess, BootReply::ExitCode(code)) => if code >= 0 {
                    action == BootAction::ExitProcess(code) && next.stage == BootStage::Finished
                } else {
                    action is Proceed && next.stage == BootStage::ResolveLayout
                },
                (BootStage::ResolveLayout, BootReply::Layout(Err(e), _)) => {
                    action == BootAction::Fail(e) && next.stage == BootStage::Finished
                },
                (BootStage::ResolveLayout, BootReply::Layout(Ok(layout), has_helper_app)) => {
                    &&& next.stage == BootStage::Initialize
                    &&& action matches BootAction::InitializeWith(settings)
                    &&& settings.persist_session_cookies == 1 <==> boot.persist_session_cookies
                    &&& settings.external_message_pump == 1 <==> boot.external_message_pump
                    &&& settings.no_sandbox == 1
                    &&& settings.cache_path matches Some(cache)
                    &&& cache@ == layout.cache_dir@
                    &&& settings.browser_subprocess_path matches Some(program)
                    &&& (boot.platform == Platform::MacOs && has_helper_app) || program@
                        == layout.exe@
                    &&& boot.platform == Platform::MacOs && has_helper_app ==> program.root
                        == PathRoot::HelperApp && program.parts@.len() == 0
                    &&& settings.framework_dir_path is Some <==> boot.platform == Platform::MacOs
                },
                (BootStage::Initialize, BootReply::Initialized(returned)) => if returned != 1 {
                    &&& action matches BootAction::Fail(RuntimeError::CefInitializeFailed)
                    &&& next.stage == BootStage::Finished
                } else if boot.platform == Platform::MacOs {
                    action is Proceed && next.stage == BootStage::SetupAppDelegate
                } else if boot.embedded_mode {
                    action is Ready && next.stage == BootStage::Finished
                } else {
                    action is Proceed && next.stage == BootStage::InstallCtrlcHandler
                },
                (BootStage::SetupAppDelegate, BootReply::Done) => if boot.embedded_mode {
                    action is Ready && next.stage == BootStage::Finished
                } else {
                    action is Proceed && next.stage == BootStage::InstallCtrlcHandler
                },
                (BootStage::InstallCtrlcHandler, BootReply::Done) => {
                    action is Ready && next.stage == BootStage::Finished
                },
                _ => action is Proceed && next.stage == boot.stage,
            }
        }),
{
    if let BootAction::InitializeWith(settings) = action {
        if let Some(program) = settings.browser_subprocess_path {
            assert(program@.parts.len() == program.parts@.len());
        }
    }
}

/// Startup begins with the application object on macOS, and elsewhere with the
/// API version.
pub proof fn lemma_startup_begins(platform: Platform)
    ensures
        first_stage(platform) == BootStage::InitNsApp <==> platform == Platform::MacOs,
        first_stage(platform) == BootStage::DeclareApiVersion <==> platform != Platform::MacOs,
{
}

} // verus!
