//! The session orchestrator: a pure state machine that drives the
//! authenticate, fetch, transform, rename, de-authenticate sequence.
//!
//! The caller performs the remote calls that a [`Step`] asks for and hands the
//! outcome back; the machine decides what happens next. Every terminal step
//! says whether a de-authentication must still be dispatched, and the
//! contracts pin that flag to whether a session was opened, on every exit
//! path.

use vstd::prelude::*;
use crate::error::Error;
use crate::error::spec_message;
use crate::error::spec_status_code;
use crate::transform::SpecOutcome;
use crate::transform::spec_transform;
use crate::transform::transform_returns;
use crate::transform::transform;

verus! {

/// What the boundary layer answers the caller.
pub struct Response {
    pub status: u16,
    pub message: String,
}

/// What the orchestrator asks its caller to do next.
pub enum Step {
    /// Answer the caller; first dispatch a de-authentication when
    /// `deauthenticate` says so.
    Respond { response: Response, deauthenticate: bool },
    /// Authenticate against the remote API, then report the outcome.
    Authenticate,
    /// Fetch the item's filenames from the remote API, then report the outcome.
    FetchFilename,
    /// Ask the remote API to rename the item, then report the outcome.
    Rename { old_path: String, new_path: String },
}

/// How an authentication call went.
pub enum AuthOutcome {
    /// The remote API accepted the credentials.
    Accepted,
    /// The remote API could not be reached; carries the network error's text.
    Unreachable(String),
    /// The remote API rejected the credentials.
    Rejected,
}

/// How a fetch call went.
pub enum FetchOutcome {
    /// The names of the item's files, in the order the remote API reported.
    Filenames(Vec<String>),
    /// The remote API could not be reached; carries the network error's text.
    Unreachable(String),
    /// The remote API answered with a non-success status.
    HttpFailure(u16),
    /// The body could not be read; carries a description.
    MalformedBody(String),
}

/// How a rename call went.
pub enum RenameOutcome {
    /// The remote API renamed the file.
    Renamed,
    /// The remote API could not be reached; carries the network error's text.
    Unreachable(String),
    /// The remote API answered with a non-success status.
    HttpFailure(u16),
}

/// The step answers the caller with exactly the given error, and carries the
/// de-authentication decision `close`.
pub open spec fn reports(step: Step, e: Error, close: bool) -> bool {
    step matches Step::Respond { response, deauthenticate } && deauthenticate == close
        && response.status == spec_status_code(e) && response.message@ == spec_message(e)
}

/// One request's session state.
pub struct Orchestrator {
    rule: String,
    use_login: bool,
    session_open: bool,
}

fn failure_step(e: Error, close: bool) -> (step: Step)
    ensures
        reports(step, e, close),
{
    let status = e.status_code();
    let message = e.message();
    Step::Respond { response: Response { status, message }, deauthenticate: close }
}

impl Orchestrator {
    /// The rename rule this request carries.
    pub closed spec fn rule(&self) -> Seq<char> {
        self.rule@
    }

    /// Whether credentials are configured, so the request authenticates.
    pub closed spec fn authenticates(&self) -> bool {
        self.use_login
    }

    /// Whether a session was opened and must be closed before responding.
    pub closed spec fn session_open(&self) -> bool {
        self.session_open
    }

    /// Whether this request authenticates (credentials are configured).
    pub fn uses_login(&self) -> (b: bool)
        ensures
            b == self.authenticates(),
    {
        self.use_login
    }

    /// Whether a session is open.
    pub fn has_open_session(&self) -> (b: bool)
        ensures
            b == self.session_open(),
    {
        self.session_open
    }

    /// Begin handling a request. An empty rule is answered at once with
    /// no-content, contacting nobody; otherwise authentication comes first
    /// when credentials are configured, else the fetch.
    pub fn start(rule: String, use_login: bool) -> (r: (Orchestrator, Step))
        ensures
            r.0.rule() == rule@,
            r.0.authenticates() == use_login,
            !r.0.session_open(),
            rule@.len() == 0 ==> (r.1 matches Step::Respond { response, deauthenticate }
                && response.status == 204 && response.message@.len() == 0 && !deauthenticate),
            rule@.len() > 0 && use_login ==> r.1 == Step::Authenticate,
            rule@.len() > 0 && !use_login ==> r.1 == Step::FetchFilename,
    {
        let step = if rule.as_str().is_empty() {
            Step::Respond {
                response: Response { status: 204, message: String::new() },
                deauthenticate: false,
            }
        } else if use_login {
            Step::Authenticate
        } else {
            Step::FetchFilename
        };
        (Orchestrator { rule, use_login, session_open: false }, step)
    }

    /// Record how authentication went. Success opens the session and moves on
    /// to the fetch; either failure answers at once, with nothing to close.
    pub fn on_authenticated(&mut self, outcome: AuthOutcome) -> (step: Step)
        requires
            old(self).authenticates(),
            !old(self).session_open(),
        ensures
            final(self).rule() == old(self).rule(),
            final(self).authenticates() == old(self).authenticates(),
            match outcome {
                AuthOutcome::Accepted => final(self).session_open() && step
                    == Step::FetchFilename,
                AuthOutcome::Unreachable(d) => !final(self).session_open() && reports(
                    step,
                    Error::BadGateway(d),
                    false,
                ),
                AuthOutcome::Rejected => !final(self).session_open() && reports(
                    step,
                    Error::InvalidCredentials,
                    false,
                ),
            },
    {
        match outcome {
            AuthOutcome::Accepted => {
                self.session_open = true;
                Step::FetchFilename
            },
            AuthOutcome::Unreachable(d) => failure_step(Error::BadGateway(d), false),
            AuthOutcome::Rejected => failure_step(Error::InvalidCredentials, false),
        }
    }

    /// Record how the fetch went. The first filename is put through the
    /// transform; every failure answers at once, closing the session exactly
    /// when one is open. An empty file list is a defect in the remote API's
    /// answer and is reported as such rather than accessed.
    pub fn on_filenames(&self, outcome: FetchOutcome) -> (step: Step)
        ensures
            match outcome {
                FetchOutcome::Unreachable(d) => reports(
                    step,
                    Error::BadGateway(d),
                    self.session_open(),
                ),
                FetchOutcome::HttpFailure(code) => reports(
                    step,
                    Error::BadRequest(code),
                    self.session_open(),
                ),
                FetchOutcome::MalformedBody(d) => reports(
                    step,
                    Error::InvalidResponse(d),
                    self.session_open(),
                ),
                FetchOutcome::Filenames(names) => {
                    if names@.len() == 0 {
                        exists|e: Error|
                            e matches Error::InvalidResponse(d) && d@ == "empty file list"@
                                && #[trigger] reports(step, e, self.session_open())
                    } else {
                        match spec_transform(names@[0]@, self.rule()) {
                            SpecOutcome::Renamed(new_name) => step matches Step::Rename {
                                old_path,
                                new_path,
                            } && old_path@ == names@[0]@ && new_path@ == new_name,
                            _ => exists|e: Error|
                                transform_returns(names@[0]@, self.rule(), Err(e)) && #[trigger] reports(
                                    step,
                                    e,
                                    self.session_open(),
                                ),
                        }
                    }
                },
            },
    {
        match outcome {
            FetchOutcome::Unreachable(d) => failure_step(Error::BadGateway(d), self.session_open),
            FetchOutcome::HttpFailure(code) => failure_step(
                Error::BadRequest(code),
                self.session_open,
            ),
            FetchOutcome::MalformedBody(d) => failure_step(
                Error::InvalidResponse(d),
                self.session_open,
            ),
            FetchOutcome::Filenames(names) => {
                if names.len() == 0 {
                    let e = Error::InvalidResponse("empty file list".to_owned());
                    let ghost witness = e;
                    let step = failure_step(e, self.session_open);
                    proof {
                        assert(witness matches Error::InvalidResponse(d) && d@
                            == "empty file list"@ && reports(step, witness, self.session_open()));
                    }
                    step
                } else {
                    let old_path = names[0].clone();
                    match transform(old_path.as_str(), self.rule.as_str()) {
                        Ok(new_path) => Step::Rename { old_path, new_path },
                        Err(e) => {
                            let ghost witness = e;
                            let step = failure_step(e, self.session_open);
                            proof {
                                assert(transform_returns(names@[0]@, self.rule(), Err(witness))
                                    && reports(step, witness, self.session_open()));
                            }
                            step
                        },
                    }
                }
            },
        }
    }

    /// Record how the rename went. Success answers OK; every answer closes the
    /// session exactly when one is open.
    pub fn on_renamed(&self, outcome: RenameOutcome) -> (step: Step)
        ensures
            match outcome {
                RenameOutcome::Renamed => step matches Step::Respond {
                    response,
                    deauthenticate,
                } && response.status == 200 && response.message@.len() == 0 && deauthenticate
                    == self.session_open(),
                RenameOutcome::Unreachable(d) => reports(
                    step,
                    Error::BadGateway(d),
                    self.session_open(),
                ),
                RenameOutcome::HttpFailure(code) => reports(
                    step,
                    Error::BadRequest(code),
                    self.session_open(),
                ),
            },
    {
        match outcome {
            RenameOutcome::Renamed => Step::Respond {
                response: Response { status: 200, message: String::new() },
                deauthenticate: self.session_open,
            },
            RenameOutcome::Unreachable(d) => failure_step(Error::BadGateway(d), self.session_open),
            RenameOutcome::HttpFailure(code) => failure_step(
                Error::BadRequest(code),
                self.session_open,
            ),
        }
    }
}

} // verus!
