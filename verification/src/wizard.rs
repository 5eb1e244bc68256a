//! The wizard state machine: a strictly linear sequence of steps,
//! gated forward by validation, free to move backward, with a global
//! abort.  The machine owns the configuration aggregate and commits
//! one field of it on each accepted forward transition.

use vstd::prelude::*;
use crate::locales::LocaleInfo;
use crate::options::{
    spec_is_default_config, BootdiskOptions, Configuration, Disk, NetworkCandidate,
    PasswordCandidate, TimezoneOptions,
};
use crate::validate::{
    spec_validate_bootdisk, spec_validate_network, spec_validate_password, spec_validate_timezone,
    validate_bootdisk, validate_network, validate_password, validate_timezone, BootdiskError,
    NetworkError, PasswordError, TimezoneError,
};

verus! {

/// One screen of the wizard, in its fixed order.
#[derive(Clone, Copy, Debug, PartialEq, Eq, Structural)]
pub enum WizardStep {
    License,
    Bootdisk,
    Timezone,
    Password,
    Network,
    Summary,
}

impl WizardStep {
    /// The step that follows on an accepted forward transition;
    /// `Summary` is terminal and stays put.
    pub open spec fn spec_next(self) -> WizardStep {
        match self {
            WizardStep::License => WizardStep::Bootdisk,
            WizardStep::Bootdisk => WizardStep::Timezone,
            WizardStep::Timezone => WizardStep::Password,
            WizardStep::Password => WizardStep::Network,
            WizardStep::Network => WizardStep::Summary,
            WizardStep::Summary => WizardStep::Summary,
        }
    }

    /// The step that a backward move reaches; `License` is the floor.
    pub open spec fn spec_prev(self) -> WizardStep {
        match self {
            WizardStep::License => WizardStep::License,
            WizardStep::Bootdisk => WizardStep::License,
            WizardStep::Timezone => WizardStep::Bootdisk,
            WizardStep::Password => WizardStep::Timezone,
            WizardStep::Network => WizardStep::Password,
            WizardStep::Summary => WizardStep::Network,
        }
    }

    /// Computes the following step.
    pub fn next(self) -> (r: WizardStep)
        ensures
            r == self.spec_next(),
    {
        match self {
            WizardStep::License => WizardStep::Bootdisk,
            WizardStep::Bootdisk => WizardStep::Timezone,
            WizardStep::Timezone => WizardStep::Password,
            WizardStep::Password => WizardStep::Network,
            WizardStep::Network => WizardStep::Summary,
            WizardStep::Summary => WizardStep::Summary,
        }
    }

    /// Computes the preceding step.
    pub fn prev(self) -> (r: WizardStep)
        ensures
            r == self.spec_prev(),
    {
        match self {
            WizardStep::License => WizardStep::License,
            WizardStep::Bootdisk => WizardStep::License,
            WizardStep::Timezone => WizardStep::Bootdisk,
            WizardStep::Password => WizardStep::Timezone,
            WizardStep::Network => WizardStep::Password,
            WizardStep::Summary => WizardStep::Network,
        }
    }
}

/// The candidate input for one forward transition, tagged by the step
/// it belongs to.  The license step takes a plain agree/decline;
/// declining is equivalent to aborting.
pub enum StepInput {
    License { agree: bool },
    Bootdisk { candidate: BootdiskOptions },
    Timezone { candidate: TimezoneOptions },
    Password { candidate: PasswordCandidate },
    Network { candidate: NetworkCandidate },
}

impl StepInput {
    /// The input belongs to the given step.  No input fits the
    /// terminal `Summary` step.
    pub open spec fn fits(&self, step: WizardStep) -> bool {
        match self {
            StepInput::License { .. } => step == WizardStep::License,
            StepInput::Bootdisk { .. } => step == WizardStep::Bootdisk,
            StepInput::Timezone { .. } => step == WizardStep::Timezone,
            StepInput::Password { .. } => step == WizardStep::Password,
            StepInput::Network { .. } => step == WizardStep::Network,
        }
    }
}

/// Why a forward transition was refused, wrapping the failing step's
/// reason.
#[derive(Clone, Copy, Debug, PartialEq, Eq)]
pub enum ValidationError {
    Bootdisk(BootdiskError),
    Timezone(TimezoneError),
    Password(PasswordError),
    Network(NetworkError),
}

impl ValidationError {
    /// The human-readable reason of the failing rule.
    pub open spec fn spec_message(&self) -> Seq<char> {
        match self {
            ValidationError::Bootdisk(e) => e.spec_message(),
            ValidationError::Timezone(e) => e.spec_message(),
            ValidationError::Password(e) => e.spec_message(),
            ValidationError::Network(e) => e.spec_message(),
        }
    }

    /// Renders the reason.
    pub fn message(&self) -> (r: String)
        ensures
            r@ == self.spec_message(),
    {
        match self {
            ValidationError::Bootdisk(e) => e.message(),
            ValidationError::Timezone(e) => e.message(),
            ValidationError::Password(e) => e.message(),
            ValidationError::Network(e) => e.message(),
        }
    }
}

/// Why the wizard could not start.
#[derive(Clone, Copy, Debug, PartialEq, Eq)]
pub enum StartupError {
    NoDisksDetected,
}

impl StartupError {
    /// The human-readable reason.
    pub open spec fn spec_message(&self) -> Seq<char> {
        "no disks detected"@
    }

    /// Renders the reason.
    pub fn message(&self) -> (r: String)
        ensures
            r@ == self.spec_message(),
    {
        "no disks detected".to_owned()
    }
}

/// One wizard session: the facts handed in at startup, the current
/// step, the configuration committed so far, and the session flags.
#[derive(Debug)]
pub struct Wizard {
    pub available_disks: Vec<Disk>,
    pub locales: LocaleInfo,
    pub step: WizardStep,
    pub config: Configuration,
    pub aborted: bool,
    pub reboot_after_install: bool,
}

/// What one forward transition does: validate the candidate for its
/// step; on acceptance commit the validated value and move to the
/// next step; on rejection leave the wizard unchanged and surface the
/// reason.  Declining the license aborts instead of advancing.
pub open spec fn spec_advance(w: Wizard, input: StepInput) -> (Wizard, Result<
    (),
    ValidationError,
>)
    recommends
        input.fits(w.step),
{
    match input {
        StepInput::License { agree } => {
            if agree {
                (Wizard { step: w.step.spec_next(), ..w }, Ok(()))
            } else {
                (Wizard { aborted: true, ..w }, Ok(()))
            }
        },
        StepInput::Bootdisk { candidate } => {
            match spec_validate_bootdisk(w.available_disks@, candidate) {
                Ok(v) => (
                    Wizard {
                        step: w.step.spec_next(),
                        config: Configuration { bootdisk: v, ..w.config },
                        ..w
                    },
                    Ok(()),
                ),
                Err(e) => (w, Err(ValidationError::Bootdisk(e))),
            }
        },
        StepInput::Timezone { candidate } => {
            match spec_validate_timezone(&w.locales, candidate) {
                Ok(v) => (
                    Wizard {
                        step: w.step.spec_next(),
                        config: Configuration { timezone: v, ..w.config },
                        ..w
                    },
                    Ok(()),
                ),
                Err(e) => (w, Err(ValidationError::Timezone(e))),
            }
        },
        StepInput::Password { candidate } => {
            match spec_validate_password(candidate) {
                Ok(v) => (
                    Wizard {
                        step: w.step.spec_next(),
                        config: Configuration { password: v, ..w.config },
                        ..w
                    },
                    Ok(()),
                ),
                Err(e) => (w, Err(ValidationError::Password(e))),
            }
        },
        StepInput::Network { candidate } => {
            match spec_validate_network(candidate) {
                Ok(v) => (
                    Wizard {
                        step: w.step.spec_next(),
                        config: Configuration { network: v, ..w.config },
                        ..w
                    },
                    Ok(()),
                ),
                Err(e) => (w, Err(ValidationError::Network(e))),
            }
        },
    }
}

/// What one backward move does: step back one screen, `License` at
/// the lowest, keeping every committed value.
pub open spec fn spec_retreat(w: Wizard) -> Wizard {
    Wizard { step: w.step.spec_prev(), ..w }
}

impl Wizard {
    /// Starts a session at the license step with step-derived
    /// defaults; with no disk detected the wizard cannot start and
    /// the caller decides whether to re-probe.
    pub fn new(available_disks: Vec<Disk>, locales: LocaleInfo) -> (r: Result<
        Wizard,
        StartupError,
    >)
        ensures
            r is Ok <==> available_disks@.len() > 0,
            r matches Ok(w) ==> {
                &&& w.available_disks == available_disks
                &&& w.locales == locales
                &&& w.step == WizardStep::License
                &&& !w.aborted
                &&& !w.reboot_after_install
                &&& spec_is_default_config(w.config, available_disks@[0])
            },
    {
        if available_disks.len() == 0 {
            return Err(StartupError::NoDisksDetected);
        }
        let config = Configuration::defaults(&available_disks[0]);
        Ok(
            Wizard {
                available_disks,
                locales,
                step: WizardStep::License,
                config,
                aborted: false,
                reboot_after_install: false,
            },
        )
    }

    /// Runs the current step's validator on the candidate; commits
    /// and advances on acceptance, stays put and reports on
    /// rejection.
    pub fn advance(&mut self, input: StepInput) -> (r: Result<(), ValidationError>)
        requires
            input.fits(old(self).step),
            !old(self).aborted,
        ensures
            ({
                let (w2, res) = spec_advance(*old(self), input);
                *final(self) == w2 && r == res
            }),
    {
        match input {
            StepInput::License { agree } => {
                if agree {
                    self.step = self.step.next();
                } else {
                    self.aborted = true;
                }
                Ok(())
            },
            StepInput::Bootdisk { candidate } => {
                match validate_bootdisk(&self.available_disks, candidate) {
                    Ok(v) => {
                        self.config.bootdisk = v;
                        self.step = self.step.next();
                        Ok(())
                    },
                    Err(e) => Err(ValidationError::Bootdisk(e)),
                }
            },
            StepInput::Timezone { candidate } => {
                match validate_timezone(&self.locales, candidate) {
                    Ok(v) => {
                        self.config.timezone = v;
                        self.step = self.step.next();
                        Ok(())
                    },
                    Err(e) => Err(ValidationError::Timezone(e)),
                }
            },
            StepInput::Password { candidate } => {
                match validate_password(candidate) {
                    Ok(v) => {
                        self.config.password = v;
                        self.step = self.step.next();
                        Ok(())
                    },
                    Err(e) => Err(ValidationError::Password(e)),
                }
            },
            StepInput::Network { candidate } => {
                match validate_network(candidate) {
                    Ok(v) => {
                        self.config.network = v;
                        self.step = self.step.next();
                        Ok(())
                    },
                    Err(e) => Err(ValidationError::Network(e)),
                }
            },
        }
    }

    /// Moves back one screen; always succeeds and keeps every
    /// committed value, so the operator re-enters the step with its
    /// last committed values pre-populated.
    pub fn retreat(&mut self)
        ensures
            *final(self) == spec_retreat(*old(self)),
    {
        self.step = self.step.prev();
    }

    /// Ends the session when the operator confirms; a declined
    /// confirmation leaves the wizard exactly as it was.
    pub fn abort(&mut self, confirm: bool)
        ensures
            confirm ==> *final(self) == (Wizard { aborted: true, ..*old(self) }),
            !confirm ==> *final(self) == *old(self),
    {
        if confirm {
            self.aborted = true;
        }
    }

    /// Toggles whether the machine reboots after a successful
    /// installation; read by the execution stage that follows.
    pub fn set_reboot_after_install(&mut self, value: bool)
        ensures
            *final(self) == (Wizard { reboot_after_install: value, ..*old(self) }),
    {
        self.reboot_after_install = value;
    }

    /// The session has reached the terminal step and was not aborted:
    /// the finished configuration may be handed to the execution
    /// stage.
    pub open spec fn spec_finished(&self) -> bool {
        self.step == WizardStep::Summary && !self.aborted
    }

    /// Whether the session has reached the terminal step.
    pub fn is_finished(&self) -> (r: bool)
        ensures
            r == self.spec_finished(),
    {
        match self.step {
            WizardStep::Summary => !self.aborted,
            _ => false,
        }
    }
}

/// Committing a step and then retreating and re-advancing with the
/// same input commits the identical value again: re-validation is
/// idempotent, so the round trip ends in the same step with the same
/// configuration.
pub proof fn lemma_readvance_same_input(w: Wizard, input: StepInput)
    requires
        input.fits(w.step),
        spec_advance(w, input).1 is Ok,
    ensures
        ({
            let w1 = spec_advance(w, input).0;
            let w2 = spec_retreat(w1);
            &&& spec_advance(w2, input).1 is Ok
            &&& spec_advance(w2, input).0.config == w1.config
            &&& spec_advance(w2, input).0.step == w1.step
        }),
{
}

} // verus!
