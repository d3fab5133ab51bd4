//! macOS: loading CEF, the application object, and its events.

use crate::app_handle::AppHandle;
use crate::error::RuntimeError;
use crate::interrupt::{close_all_browsers_and_windows, close_all_steps, steps_view, CloseStep};
use crate::path::{LayoutPath, PathRoot, PathView};
use crate::settings::optional_path;
use vstd::prelude::*;

verus! {

/// `text` begins with `prefix`.
pub open spec fn begins_with(text: Seq<char>, prefix: Seq<char>) -> bool {
    prefix.len() <= text.len() && text.take(prefix.len() as int) == prefix
}

/// Whether `text` begins with `prefix`.
fn starts_with(text: &str, prefix: &str) -> (starts: bool)
    ensures
        starts == begins_with(text@, prefix@),
{
    let n = prefix.unicode_len();
    if text.unicode_len() < n {
        return false;
    }
    let mut i: usize = 0;
    while i < n
        invariant
            n == prefix@.len(),
            n <= text@.len(),
            i <= n,
            forall|j: int| 0 <= j < i ==> text@[j] == prefix@[j],
        decreases n - i,
    {
        if text.get_char(i) != prefix.get_char(i) {
            proof {
                assert(text@.take(n as int)[i as int] != prefix@[i as int]);
            }
            return false;
        }
        i += 1;
    }
    assert(text@.take(n as int) =~= prefix@);
    true
}

/// Some argument names the role of a CEF subprocess.
pub open spec fn names_role(args: Seq<String>) -> bool {
    exists|i: int| 0 <= i < args.len() && begins_with((#[trigger] args[i])@, "--type="@)
}

/// Whether CEF re-executed this binary for a non-browser role.
pub fn is_subprocess(args: &Vec<String>) -> (is: bool)
    ensures
        is == names_role(args@),
{
    let mut i: usize = 0;
    while i < args.len()
        invariant
            i <= args@.len(),
            forall|j: int| 0 <= j < i ==> !begins_with((#[trigger] args@[j])@, "--type="@),
        decreases args@.len() - i,
    {
        if starts_with(args[i].as_str(), "--type=") {
            return true;
        }
        i += 1;
    }
    false
}

/// What is left to do after CEF has been loaded.
#[derive(Clone, Copy, Debug, PartialEq, Eq, Structural)]
pub enum NsAppStep {
    /// Nothing: a subprocess gets the library alone, and no Dock tile.
    LibraryAlone,
    /// Install the application object that CEF requires.
    InstallApplication,
}

/// Goes on once loading CEF has or has not succeeded.
pub fn init_ns_app(loaded: Result<(), RuntimeError>, args: &Vec<String>) -> (step: Result<
    NsAppStep,
    RuntimeError,
>)
    ensures
        match loaded {
            Ok(_) => step == Ok::<NsAppStep, RuntimeError>(
                if names_role(args@) {
                    NsAppStep::LibraryAlone
                } else {
                    NsAppStep::InstallApplication
                },
            ),
            Err(error) => step == Err::<NsAppStep, RuntimeError>(error),
        },
{
    match loaded {
        Err(error) => Err(error),
        Ok(_) => if is_subprocess(args) {
            Ok(NsAppStep::LibraryAlone)
        } else {
            Ok(NsAppStep::InstallApplication)
        },
    }
}

/// What the caller has to do next to load the framework.
#[derive(Clone, Copy, Debug, PartialEq, Eq, Structural)]
pub enum FrameworkStage {
    /// Detect the CEF root.
    DetectCefRoot,
    /// Canonicalize the path of the framework.
    CanonicalizeFramework,
    /// Load the library at the path that was settled on.
    LoadLibrary,
    /// Nothing: the framework is loaded, or will not be.
    Finished,
}

/// What came of the last thing that was done.
pub enum FrameworkReply {
    /// Whether a root was found.
    Detected(bool),
    /// The bytes of the canonical path, if the path resolved.
    Canonical(Option<Vec<u8>>),
    /// What loading the library returned.
    Loaded(i32),
}

/// What a reply comes to.
pub enum FrameworkOutcome {
    /// More has to be done.
    Pending,
    Loaded,
    NotInstalled,
    Invalid(Seq<char>),
}

/// What `reply` to `stage` comes to. A path that holds a zero byte cannot be
/// handed to the loader. A reply to another question comes to nothing.
pub open spec fn framework_outcome(
    stage: FrameworkStage,
    reply: FrameworkReply,
) -> FrameworkOutcome {
    match (stage, reply) {
        (FrameworkStage::DetectCefRoot, FrameworkReply::Detected(false)) => {
            FrameworkOutcome::NotInstalled
        },
        (FrameworkStage::CanonicalizeFramework, FrameworkReply::Canonical(path)) => match path {
            None => FrameworkOutcome::NotInstalled,
            Some(bytes) => if bytes@.contains(0) {
                FrameworkOutcome::Invalid("invalid framework path"@)
            } else {
                FrameworkOutcome::Pending
            },
        },
        (FrameworkStage::LoadLibrary, FrameworkReply::Loaded(returned)) => if returned == 1 {
            FrameworkOutcome::Loaded
        } else {
            FrameworkOutcome::Invalid("failed to load Chromium Embedded Framework"@)
        },
        _ => FrameworkOutcome::Pending,
    }
}

/// Where `reply` takes the loading.
pub open spec fn framework_next(stage: FrameworkStage, reply: FrameworkReply) -> FrameworkStage {
    if framework_outcome(stage, reply) !is Pending {
        FrameworkStage::Finished
    } else {
        match (stage, reply) {
            (FrameworkStage::DetectCefRoot, FrameworkReply::Detected(_)) => {
                FrameworkStage::CanonicalizeFramework
            },
            (FrameworkStage::CanonicalizeFramework, FrameworkReply::Canonical(_)) => {
                FrameworkStage::LoadLibrary
            },
            _ => stage,
        }
    }
}

/// `result` is what `outcome` says.
pub open spec fn is_framework_result(
    result: Option<Result<(), RuntimeError>>,
    outcome: FrameworkOutcome,
) -> bool {
    match outcome {
        FrameworkOutcome::Pending => result is None,
        FrameworkOutcome::Loaded => result matches Some(Ok(_)),
        FrameworkOutcome::NotInstalled => {
            result matches Some(Err(RuntimeError::CefNotInstalled))
        },
        FrameworkOutcome::Invalid(message) => {
            &&& result matches Some(Err(RuntimeError::InvalidCefInstallation(text)))
            &&& text@ == message
        },
    }
}

/// Whether `bytes` holds a zero byte.
fn holds_zero(bytes: &Vec<u8>) -> (holds: bool)
    ensures
        holds == bytes@.contains(0),
{
    let mut i: usize = 0;
    while i < bytes.len()
        invariant
            i <= bytes@.len(),
            forall|j: int| 0 <= j < i ==> bytes@[j] != 0,
        decreases bytes@.len() - i,
    {
        if bytes[i] == 0 {
            return true;
        }
        i += 1;
    }
    false
}

/// The loading of the Chromium Embedded Framework in progress.
pub struct FrameworkLoader {
    /// Where the framework stands below the CEF root.
    pub framework: String,
    /// The bytes of the path to load the library from, once it is settled.
    pub library: Vec<u8>,
    pub stage: FrameworkStage,
}

/// Begins to load the Chromium Embedded Framework, which stands at `framework`
/// below the CEF root.
pub fn load_framework(framework: &str) -> (loader: FrameworkLoader)
    ensures
        loader.framework@ == framework@,
        loader.library@.len() == 0,
        loader.stage == FrameworkStage::DetectCefRoot,
        loader.wf(),
{
    FrameworkLoader {
        framework: framework.to_owned(),
        library: Vec::new(),
        stage: FrameworkStage::DetectCefRoot,
    }
}

impl FrameworkLoader {
    /// A library is loaded only from a path without a zero byte.
    pub open spec fn wf(&self) -> bool {
        self.stage == FrameworkStage::LoadLibrary ==> !self.library@.contains(0)
    }

    /// The path to canonicalize, when that is next.
    pub fn path(&self) -> (path: Option<LayoutPath>)
        ensures
            optional_path(path) == (if self.stage == FrameworkStage::CanonicalizeFramework {
                Some(PathView::at(PathRoot::DetectedCefRoot).join(self.framework@))
            } else {
                None
            }),
    {
        match self.stage {
            FrameworkStage::CanonicalizeFramework => Some(
                LayoutPath::at(PathRoot::DetectedCefRoot).join(self.framework.as_str()),
            ),
            _ => None,
        }
    }

    /// Takes in what came of the last thing that was done. Returns success or
    /// the first failure, once there is either.
    pub fn step(&mut self, reply: FrameworkReply) -> (result: Option<Result<(), RuntimeError>>)
        ensures
            final(self).framework == old(self).framework,
            final(self).stage == framework_next(old(self).stage, reply),
            final(self).library@ == (match (old(self).stage, reply) {
                (
                    FrameworkStage::CanonicalizeFramework,
                    FrameworkReply::Canonical(Some(bytes)),
                ) if !bytes@.contains(0) => bytes@,
                _ => old(self).library@,
            }),
            old(self).wf() ==> final(self).wf(),
            is_framework_result(result, framework_outcome(old(self).stage, reply)),
    {
        match (self.stage, reply) {
            (FrameworkStage::DetectCefRoot, FrameworkReply::Detected(found)) => if found {
                self.stage = FrameworkStage::CanonicalizeFramework;
                None
            } else {
                self.stage = FrameworkStage::Finished;
                Some(Err(RuntimeError::CefNotInstalled))
            },
            (FrameworkStage::CanonicalizeFramework, FrameworkReply::Canonical(path)) => {
                match path {
                    None => {
                        self.stage = FrameworkStage::Finished;
                        Some(Err(RuntimeError::CefNotInstalled))
                    },
                    Some(bytes) => if holds_zero(&bytes) {
                        self.stage = FrameworkStage::Finished;
                        Some(
                            Err(
                                RuntimeError::InvalidCefInstallation(
                                    "invalid framework path".to_owned(),
                                ),
                            ),
                        )
                    } else {
                        self.library = bytes;
                        self.stage = FrameworkStage::LoadLibrary;
                        None
                    },
                }
            },
            (FrameworkStage::LoadLibrary, FrameworkReply::Loaded(returned)) => {
                self.stage = FrameworkStage::Finished;
                if returned == 1 {
                    Some(Ok(()))
                } else {
                    Some(
                        Err(
                            RuntimeError::InvalidCefInstallation(
                                "failed to load Chromium Embedded Framework".to_owned(),
                            ),
                        ),
                    )
                }
            },
            _ => None,
        }
    }
}

/// What a list of replies comes to, taken from `stage` on: the first that
/// comes to anything decides.
pub open spec fn framework_replies_outcome(
    stage: FrameworkStage,
    replies: Seq<FrameworkReply>,
) -> FrameworkOutcome
    decreases replies.len(),
{
    if replies.len() == 0 {
        FrameworkOutcome::Pending
    } else {
        match framework_outcome(stage, replies[0]) {
            FrameworkOutcome::Pending => framework_replies_outcome(
                framework_next(stage, replies[0]),
                replies.drop_first(),
            ),
            decided => decided,
        }
    }
}

/// The framework is loaded exactly when a CEF root is found, the framework
/// resolves to a path without a zero byte, and the library loads from there;
/// otherwise the first of these that fails says why.
pub proof fn lemma_first_framework_failure_decides(
    detected: bool,
    canonical: Option<Vec<u8>>,
    returned: i32,
)
    ensures
        framework_replies_outcome(
            FrameworkStage::DetectCefRoot,
            seq![
                FrameworkReply::Detected(detected),
                FrameworkReply::Canonical(canonical),
                FrameworkReply::Loaded(returned),
            ],
        ) == (match canonical {
            _ if !detected => FrameworkOutcome::NotInstalled,
            None => FrameworkOutcome::NotInstalled,
            Some(bytes) => if bytes@.contains(0) {
                FrameworkOutcome::Invalid("invalid framework path"@)
            } else if returned == 1 {
                FrameworkOutcome::Loaded
            } else {
                FrameworkOutcome::Invalid("failed to load Chromium Embedded Framework"@)
            },
        }),
{
    let all = seq![
        FrameworkReply::Detected(detected),
        FrameworkReply::Canonical(canonical),
        FrameworkReply::Loaded(returned),
    ];
    reveal_with_fuel(framework_replies_outcome, 4);
    assert(all.drop_first()[0] == all[1]);
    assert(all.drop_first().drop_first()[0] == all[2]);
}

/// Application termination becomes an orderly shutdown: everything is closed,
/// and CEF leaves its run loop by itself. Nothing happens before the services
/// are known.
pub fn terminate(services: Option<&AppHandle>) -> (steps: Vec<CloseStep>)
    ensures
        match services {
            Some(app) => steps_view(steps@) == close_all_steps(app.live_browsers()),
            None => steps@.len() == 0,
        },
{
    match services {
        Some(app) => close_all_browsers_and_windows(app),
        None => Vec::new(),
    }
}

/// Whether the application object is handling an event.
#[derive(Clone, Copy, Debug, PartialEq, Eq, Structural)]
pub struct SendEventState {
    pub handling: bool,
}

/// Sets or leaves the flag when an event comes in.
pub open spec fn event_begun(s: SendEventState) -> SendEventState {
    SendEventState { handling: true }
}

/// Resets or leaves the flag when an event is done with, `was_handling` being
/// what the flag was when it came in.
pub open spec fn event_ended(s: SendEventState, was_handling: bool) -> SendEventState {
    if was_handling {
        s
    } else {
        SendEventState { handling: false }
    }
}

impl SendEventState {
    /// An event comes in. Returns what the flag was, for [`SendEventState::end_event`].
    pub fn begin_event(&mut self) -> (was_handling: bool)
        ensures
            was_handling == old(self).handling,
            *final(self) == event_begun(*old(self)),
    {
        let was_handling = self.handling;
        if !was_handling {
            self.handling = true;
        }
        was_handling
    }

    /// The event is done with.
    pub fn end_event(&mut self, was_handling: bool)
        ensures
            *final(self) == event_ended(*old(self), was_handling),
    {
        if !was_handling {
            self.handling = false;
        }
    }
}

/// The flag after an event during which `depth` further events came in, each
/// within the one before.
pub open spec fn nested_events(s: SendEventState, depth: nat) -> SendEventState
    decreases depth,
{
    let begun = event_begun(s);
    event_ended(
        if depth == 0 {
            begun
        } else {
            nested_events(begun, (depth - 1) as nat)
        },
        s.handling,
    )
}

/// However deep events nest, handling one leaves the flag as it found it.
pub proof fn lemma_events_restore_the_flag(s: SendEventState, depth: nat)
    ensures
        nested_events(s, depth) == s,
    decreases depth,
{
    if depth > 0 {
        lemma_events_restore_the_flag(event_begun(s), (depth - 1) as nat);
    }
}

/// A text begins with another exactly when something follows that other to make it.
pub proof fn lemma_beginning_is_a_prefix(text: Seq<char>, prefix: Seq<char>, rest: Seq<char>)
    ensures
        begins_with(prefix + rest, prefix),
        begins_with(text, prefix) ==> exists|tail: Seq<char>| text == #[trigger] (prefix + tail),
{
    assert((prefix + rest).take(prefix.len() as int) =~= prefix);
    if begins_with(text, prefix) {
        let tail = text.skip(prefix.len() as int);
        assert(text =~= prefix + tail);
    }
}

/// A process is a subprocess exactly when one of its arguments is `--type=`
/// and some role.
pub proof fn lemma_subprocess_is_told_by_its_role(args: Seq<String>)
    ensures
        names_role(args) <==> exists|i: int, role: Seq<char>|
            0 <= i < args.len() && (#[trigger] args[i])@ == #[trigger] ("--type="@ + role),
{
    if names_role(args) {
        let i = choose|i: int|
            0 <= i < args.len() && begins_with((#[trigger] args[i])@, "--type="@);
        lemma_beginning_is_a_prefix(args[i]@, "--type="@, Seq::empty());
        let role = choose|tail: Seq<char>| args[i]@ == #[trigger] ("--type="@ + tail);
        assert(args[i]@ == "--type="@ + role);
    }
    if exists|i: int, role: Seq<char>|
        0 <= i < args.len() && (#[trigger] args[i])@ == #[trigger] ("--type="@ + role) {
        let (i, role) = choose|i: int, role: Seq<char>|
            0 <= i < args.len() && (#[trigger] args[i])@ == #[trigger] ("--type="@ + role);
        lemma_beginning_is_a_prefix(args[i]@, "--type="@, role);
        assert(begins_with(args[i]@, "--type="@));
    }
}

/// What each reply comes to: the library is loaded only from a path that
/// resolved and holds no zero byte, loading succeeds exactly when it returns
/// one, and the result names the failure that the reply reports. A reply to
/// another question changes nothing.
pub proof fn lemma_framework_step_says_what_happened(
    stage: FrameworkStage,
    reply: FrameworkReply,
    result: Option<Result<(), RuntimeError>>,
)
    requires
        is_framework_result(result, framework_outcome(stage, reply)),
    ensures
        ({
            let next = framework_next(stage, reply);
            match (stage, reply) {
                (FrameworkStage::DetectCefRoot, FrameworkReply::Detected(found)) => if found {
                    result is None && next == FrameworkStage::CanonicalizeFramework
                } else {
                    &&& next == FrameworkStage::Finished
                    &&& result matches Some(Err(RuntimeError::CefNotInstalled))
                },
                (FrameworkStage::CanonicalizeFramework, FrameworkReply::Canonical(None)) => {
                    &&& next == FrameworkStage::Finished
                    &&& result matches Some(Err(RuntimeError::CefNotInstalled))
                },
                (
                    FrameworkStage::CanonicalizeFramework,
                    FrameworkReply::Canonical(Some(bytes)),
                ) => if exists|i: int| 0 <= i < bytes@.len() && bytes@[i] == 0 {
                    &&& next == FrameworkStage::Finished
                    &&& result matches Some(Err(RuntimeError::InvalidCefInstallation(text)))
                    &&& text@ == "invalid framework path"@
                } else {
                    result is None && next == FrameworkStage::LoadLibrary
                },
                (FrameworkStage::LoadLibrary, FrameworkReply::Loaded(returned)) => {
                    &&& next == FrameworkStage::Finished
                    &&& if returned == 1 {
                        result matches Some(Ok(_))
                    } else {
                        &&& result matches Some(Err(RuntimeError::InvalidCefInstallation(text)))
                        &&& text@ == "failed to load Chromium Embedded Framework"@
                    }
                },
                _ => result is None && next == stage,
            }
        }),
{
}

/// While an event is being handled the flag is set, however deep it came in;
/// the one that found it unset is the one that unsets it.
pub proof fn lemma_flag_is_set_during_events(s: SendEventState, was_handling: bool)
    ensures
        event_begun(s).handling,
        was_handling ==> event_ended(s, was_handling) == s,
        !was_handling ==> !event_ended(s, was_handling).handling,
{
}

} // verus!
