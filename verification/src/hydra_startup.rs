//! The check whether a preview renderer starts at all.
//!
//! Some renderers hang or crash on some machines, so a separate process tries first. The
//! caller runs that process; what is decided here is what to do next and what to show.

use crate::hydra_view::{delegate_label, delegate_name, named};
use crate::paths::{paths_equal, same_path};
use crate::text::{chars_of, decimal, decimal_text, opt_view, same_text, text_of};
use vstd::prelude::*;

verus! {

/// How long, in milliseconds, the check may take.
pub const STARTUP_LIMIT_MS: u64 = 15_000;

/// A check that is under way, or has failed with a message.
pub struct HydraStartup {
    pub stage_path: String,
    pub delegate: Option<String>,
    pub failure: Option<String>,
}

/// A check as a value of the specification.
pub struct StartupModel {
    pub stage_path: Seq<char>,
    pub delegate: Option<Seq<char>>,
    pub failure: Option<Seq<char>>,
}

impl View for HydraStartup {
    type V = StartupModel;

    open spec fn view(&self) -> StartupModel {
        StartupModel {
            stage_path: self.stage_path@,
            delegate: opt_view(self.delegate),
            failure: opt_view(self.failure),
        }
    }
}

/// An optional check as a value of the specification.
pub open spec fn state_view(state: Option<HydraStartup>) -> Option<StartupModel> {
    match state {
        Some(s) => Some(s@),
        None => None,
    }
}

impl StartupModel {
    /// Whether the check is about this stage and this renderer.
    pub open spec fn is_about(self, stage_path: Seq<char>, delegate: Option<Seq<char>>) -> bool {
        same_path(self.stage_path, stage_path) && self.delegate == delegate
    }
}

/// What the caller has to do next.
#[derive(Clone, Copy, Debug, PartialEq, Eq, Structural)]
pub enum StartupStep {
    /// Open the renderer.
    Ready,
    /// Start the process.
    Start,
    /// Ask the process how it is doing.
    Poll,
    /// Show why it failed.
    Failed,
}

/// What the process said.
pub enum ProbeStatus {
    Succeeded,
    Exited(Option<i32>),
    Pending { elapsed_ms: u64 },
    Unknown(String),
}

/// What is shown while there is no picture.
pub struct StartupOverlay {
    pub title: String,
    pub detail: String,
    pub retry: bool,
}

/// The name under which a renderer is shown.
pub open spec fn shown_name(delegate: Option<Seq<char>>) -> Seq<char> {
    match delegate {
        Some(id) => delegate_name(id),
        None => "Hydra"@,
    }
}

/// The name under which a renderer is shown.
fn shown_label(delegate: &Option<String>) -> (r: String)
    ensures
        r@ == shown_name(opt_view(*delegate)),
{
    match delegate {
        Some(id) => text_of(&chars_of(delegate_label(id.as_str()))),
        None => String::from_str("Hydra"),
    }
}

/// The identifier of a renderer, where it says something.
fn named_delegate(delegate: Option<&str>) -> (r: Option<String>)
    ensures
        opt_view(r) == named(delegate),
{
    match delegate {
        Some(id) => if id.is_empty() {
            None
        } else {
            Some(text_of(&chars_of(id)))
        },
        None => None,
    }
}

impl HydraStartup {
    /// Whether the check is about this stage and this renderer.
    pub fn matches(&self, stage_path: &str, delegate: Option<&str>) -> (r: bool)
        ensures
            r == self@.is_about(stage_path@, named(delegate)),
    {
        if !paths_equal(self.stage_path.as_str(), stage_path) {
            return false;
        }
        match (&self.delegate, named_delegate(delegate)) {
            (Some(a), Some(b)) => same_text(a.as_str(), b.as_str()),
            (None, None) => true,
            _ => false,
        }
    }

    /// The step that a check asks for.
    pub open spec fn step(state: Option<StartupModel>, needs_probe: bool) -> StartupStep {
        if !needs_probe {
            StartupStep::Ready
        } else {
            match state {
                None => StartupStep::Start,
                Some(s) => if s.failure is Some {
                    StartupStep::Failed
                } else {
                    StartupStep::Poll
                },
            }
        }
    }

    /// What is left of a check: nothing, if it is about another stage or renderer.
    pub open spec fn remembered(
        state: Option<StartupModel>,
        stage_path: Seq<char>,
        delegate: Option<Seq<char>>,
    ) -> Option<StartupModel> {
        match state {
            Some(s) if s.is_about(stage_path, delegate) => Some(s),
            _ => None,
        }
    }

    /// Looks at the check before the renderer is opened. One that is about another stage or
    /// another renderer is forgotten.
    pub fn begin(
        state: &mut Option<HydraStartup>,
        stage_path: &str,
        delegate: Option<&str>,
        needs_probe: bool,
    ) -> (r: StartupStep)
        ensures
            state_view(*final(state)) == HydraStartup::remembered(
                state_view(*old(state)),
                stage_path@,
                named(delegate),
            ),
            r == HydraStartup::step(state_view(*final(state)), needs_probe),
    {
        let keep = match &*state {
            Some(s) => s.matches(stage_path, delegate),
            None => false,
        };
        if !keep {
            *state = None;
        }
        if !needs_probe {
            return StartupStep::Ready;
        }
        match &*state {
            None => StartupStep::Start,
            Some(s) => if s.failure.is_some() {
                StartupStep::Failed
            } else {
                StartupStep::Poll
            },
        }
    }

    /// The check after the process was started, or could not be.
    pub fn launched(stage_path: &str, delegate: Option<&str>, problem: Option<String>) -> (r:
        HydraStartup)
        ensures
            r@ == (StartupModel {
                stage_path: stage_path@,
                delegate: named(delegate),
                failure: match problem {
                    None => None,
                    Some(e) => Some(
                        "Could not start the "@ + shown_name(named(delegate))
                            + " startup check: "@ + e@,
                    ),
                },
            }),
    {
        let id = named_delegate(delegate);
        let label = shown_label(&id);
        let failure = match problem {
            None => None,
            Some(e) => Some(
                String::from_str("Could not start the ").concat(label.as_str()).concat(
                    " startup check: ",
                ).concat(e.as_str()),
            ),
        };
        HydraStartup { stage_path: text_of(&chars_of(stage_path)), delegate: id, failure }
    }

    /// What is said of a process that ended.
    pub open spec fn exit_text(code: Option<i32>) -> Seq<char> {
        match code {
            None => "terminated before reporting an exit code"@,
            Some(c) => "exit code "@ + if c < 0 {
                seq!['-'] + decimal((-c) as nat)
            } else {
                decimal(c as nat)
            },
        }
    }

    /// The check after the process was asked: over when it succeeded, else going on or
    /// failed.
    pub open spec fn after(s: StartupModel, status: ProbeStatus) -> Option<StartupModel> {
        let name = shown_name(s.delegate);
        match status {
            ProbeStatus::Succeeded => None,
            ProbeStatus::Exited(code) => Some(
                StartupModel {
                    failure: Some(
                        name + " startup check failed ("@ + HydraStartup::exit_text(code)
                            + "). See forge-paint.log beside forge-paint.exe for the Hydra breadcrumb."@,
                    ),
                    ..s
                },
            ),
            ProbeStatus::Pending { elapsed_ms } => if elapsed_ms >= STARTUP_LIMIT_MS {
                Some(
                    StartupModel {
                        failure: Some(
                            name + " startup check timed out after "@ + decimal(
                                (STARTUP_LIMIT_MS / 1000) as nat,
                            )
                                + "s. The UI stayed alive; see forge-paint.log for the last Hydra breadcrumb."@,
                        ),
                        ..s
                    },
                )
            } else {
                Some(s)
            },
            ProbeStatus::Unknown(e) => Some(
                StartupModel {
                    failure: Some(name + " startup check failed to report status: "@ + e@),
                    ..s
                },
            ),
        }
    }

    /// The check after the process was asked how it is doing. There is none any more when
    /// it succeeded, and only then.
    pub fn polled(self, status: ProbeStatus) -> (r: Option<HydraStartup>)
        ensures
            state_view(r) == HydraStartup::after(self@, status),
            r is None <==> status is Succeeded,
    {
        let label = shown_label(&self.delegate);
        let failure = match status {
            ProbeStatus::Succeeded => return None,
            ProbeStatus::Exited(code) => {
                let ended = match code {
                    None => String::from_str("terminated before reporting an exit code"),
                    Some(c) => {
                        let mut text = String::from_str("exit code ");
                        let mut digits = String::new();
                        if c < 0 {
                            digits.push('-');
                            let size = decimal_text((-(c as i64)) as u64);
                            proof {
                                assert(digits@ + size@ =~= seq!['-'] + decimal((-c) as nat));
                            }
                            digits.append(size.as_str());
                        } else {
                            digits = decimal_text(c as u64);
                        }
                        text.append(digits.as_str());
                        text
                    },
                };
                label.concat(" startup check failed (").concat(ended.as_str()).concat(
                    "). See forge-paint.log beside forge-paint.exe for the Hydra breadcrumb.",
                )
            },
            ProbeStatus::Pending { elapsed_ms } => {
                if elapsed_ms < STARTUP_LIMIT_MS {
                    return Some(self);
                }
                let seconds = decimal_text(STARTUP_LIMIT_MS / 1000);
                label.concat(" startup check timed out after ").concat(seconds.as_str()).concat(
                    "s. The UI stayed alive; see forge-paint.log for the last Hydra breadcrumb.",
                )
            },
            ProbeStatus::Unknown(e) => label.concat(
                " startup check failed to report status: ",
            ).concat(e.as_str()),
        };
        Some(
            HydraStartup {
                stage_path: self.stage_path,
                delegate: self.delegate,
                failure: Some(failure),
            },
        )
    }

    /// What is shown while there is no picture: how long the check has been running, or
    /// why it failed together with a way to try again.
    pub fn overlay(&self, elapsed_seconds: &str) -> (r: StartupOverlay)
        ensures
            match self@.failure {
                None => {
                    &&& r.title@ == "Starting "@ + shown_name(self@.delegate)
                    &&& r.detail@ == "Checking "@ + shown_name(self@.delegate)
                        + " outside the UI process ("@ + elapsed_seconds@ + "s)."@
                    &&& !r.retry
                },
                Some(message) => {
                    &&& r.title@ == shown_name(self@.delegate) + " did not start"@
                    &&& r.detail@ == message
                    &&& r.retry
                },
            },
    {
        let label = shown_label(&self.delegate);
        match &self.failure {
            None => {
                let detail = String::from_str("Checking ").concat(label.as_str()).concat(
                    " outside the UI process (",
                ).concat(elapsed_seconds).concat("s).");
                StartupOverlay {
                    title: String::from_str("Starting ").concat(label.as_str()),
                    detail,
                    retry: false,
                }
            },
            Some(message) => StartupOverlay {
                title: label.concat(" did not start"),
                detail: message.clone(),
                retry: true,
            },
        }
    }
}

/// A failed check stays failed: as long as stage and renderer stay the same, the next look
/// at it shows the failure and starts nothing.
pub proof fn failure_stays_until_dismissed(
    s: StartupModel,
    stage_path: Seq<char>,
    delegate: Option<Seq<char>>,
)
    requires
        s.failure is Some,
        s.is_about(stage_path, delegate),
    ensures
        HydraStartup::remembered(Some(s), stage_path, delegate) == Some(s),
        HydraStartup::step(
            HydraStartup::remembered(Some(s), stage_path, delegate),
            true,
        ) == StartupStep::Failed,
{
}

/// A renderer that needs no check is opened; one that does is checked first, and is not opened
/// while the check runs or after it failed. A check of another stage or another renderer does
/// not count.
pub proof fn renderers_are_checked_before_they_open(
    state: Option<StartupModel>,
    stage_path: Seq<char>,
    delegate: Option<Seq<char>>,
    needs_probe: bool,
)
    ensures
        HydraStartup::step(state, needs_probe) == StartupStep::Ready <==> !needs_probe,
        needs_probe && state is None ==> HydraStartup::step(state, needs_probe) == StartupStep::Start,
        needs_probe && (state matches Some(s) && s.failure is Some) ==> HydraStartup::step(
            state,
            needs_probe,
        ) == StartupStep::Failed,
        needs_probe && (state matches Some(s) && s.failure is None) ==> HydraStartup::step(
            state,
            needs_probe,
        ) == StartupStep::Poll,
        ({
            let r = HydraStartup::remembered(state, stage_path, delegate);
            &&& r is Some ==> r == state
            &&& state matches Some(s) ==> (r is Some <==> same_path(s.stage_path, stage_path)
                && s.delegate == delegate)
        }),
{
}

/// A check that succeeded is over; one that ended otherwise has failed, and one that runs has
/// failed only once its time is up. It stays the check of its own stage and renderer.
pub proof fn checks_end(s: StartupModel, status: ProbeStatus)
    ensures
        ({
            let r = HydraStartup::after(s, status);
            &&& r is None <==> status is Succeeded
            &&& status is Exited ==> r->0.failure is Some
            &&& status is Unknown ==> r->0.failure is Some
            &&& status matches ProbeStatus::Pending { elapsed_ms } ==> if elapsed_ms
                >= STARTUP_LIMIT_MS {
                r->0.failure is Some
            } else {
                r->0.failure == s.failure
            }
            &&& r matches Some(t) ==> t.stage_path == s.stage_path && t.delegate == s.delegate
        }),
{
}

} // verus!
