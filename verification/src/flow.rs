//! The order of the steps of one upload attempt. The program that drives an
//! attempt does what it is asked (`Action`), reports what came of it
//! (`Event`), and is told the next thing to do. The steps follow each other
//! strictly, and the first failure ends the attempt.

use crate::chain::FileRecord;
use crate::jwt::SigningError;
use crate::upload::{
    endpoint_of, expiration_for, expiry, outcome, upload_endpoint, upload_outcome, UploadError,
};
use crate::{AgreementId, Timestamp};
use vstd::prelude::*;

verus! {

/// What the attempt is waiting for.
#[derive(Debug, PartialEq)]
pub enum Stage {
    /// For the file's content hash.
    Hashing,
    /// For the session with the ledger node. Holds the content hash.
    Connecting(String),
    /// For the node to take the registration.
    Submitting,
    /// For the registration to be in a finalized block.
    Finalizing,
    /// For the ledger's current time.
    ReadingTime,
    /// For the credential.
    Issuing,
    /// For the provider's answer.
    Uploading,
    /// For nothing: the file is registered and uploaded.
    Done,
    /// For nothing: the attempt has failed.
    Failed,
}

/// What the driving program is asked to do next.
#[derive(Debug, PartialEq)]
pub enum Action {
    /// Read the file and hash its content.
    HashFile,
    /// Open the session with the ledger node.
    Connect,
    /// Sign the registration of this record and submit it.
    Submit(FileRecord),
    /// Watch the submitted registration until it is in a finalized block.
    AwaitFinality,
    /// Read the ledger's current time.
    ReadTime,
    /// Issue a credential for the agreement with this validity window.
    Issue { agreement: AgreementId, issued: Timestamp, expiration: Timestamp },
    /// Send the file to this address and present this credential.
    Upload { endpoint: String, credential: String },
    /// Nothing more: the attempt has succeeded.
    Finish,
    /// Nothing more: the attempt has failed with this error.
    Abort(UploadError),
}

/// What came of the action that was asked for.
#[derive(Debug, PartialEq)]
pub enum Event {
    /// The file's content hash.
    Hashed(String),
    /// The file could not be read.
    Unread(String),
    /// The session with the node is open.
    Connected,
    /// The node could not be reached.
    Unreachable(String),
    /// The node took the registration.
    Submitted,
    /// The node refused the registration.
    Rejected(String),
    /// The registration is in a finalized block.
    Finalized,
    /// The registration was dropped or did not become final.
    Dropped(String),
    /// The ledger's current time.
    Time(Timestamp),
    /// The ledger's time could not be read.
    TimeUnavailable(String),
    /// The credential.
    Issued(String),
    /// No credential could be made.
    Unsigned(SigningError),
    /// The provider's answer.
    Responded { status: u16, body: String },
    /// The request did not reach the provider.
    Unsent(String),
}

/// One upload attempt: what it is about and how far it has come.
#[derive(Debug, PartialEq)]
pub struct UploadFlow {
    /// The agreement that the file is uploaded under.
    pub agreement: AgreementId,
    /// The name that the file is registered under.
    pub file_name: String,
    /// The longest file name, in bytes, that the ledger takes.
    pub name_limit: usize,
    /// The address of the provider's upload endpoint, where the provider's
    /// base address was valid.
    pub endpoint: Option<String>,
    /// What the attempt is waiting for.
    pub stage: Stage,
}

impl Stage {
    /// The place of the stage in the order of the steps. The two stages at
    /// which an attempt ends come last.
    pub open spec fn rank(self) -> nat {
        match self {
            Stage::Hashing => 0,
            Stage::Connecting(_) => 1,
            Stage::Submitting => 2,
            Stage::Finalizing => 3,
            Stage::ReadingTime => 4,
            Stage::Issuing => 5,
            Stage::Uploading => 6,
            Stage::Done => 7,
            Stage::Failed => 8,
        }
    }

    /// Whether the attempt has ended.
    pub open spec fn is_final(self) -> bool {
        self is Done || self is Failed
    }
}

impl UploadFlow {
    /// The same attempt at another stage.
    pub open spec fn at(self, stage: Stage) -> UploadFlow {
        UploadFlow { stage, ..self }
    }

    /// The attempt failed with `error`.
    pub open spec fn fail(self, error: UploadError) -> (UploadFlow, Action) {
        (self.at(Stage::Failed), Action::Abort(error))
    }

    /// What follows from `event` at the stage of the attempt: the attempt at
    /// its next stage, and what to do next.
    pub open spec fn next(self, event: Event) -> (UploadFlow, Action) {
        match (self.stage, event) {
            (Stage::Hashing, Event::Hashed(file_hash)) => match self.endpoint {
                Some(_) => (self.at(Stage::Connecting(file_hash)), Action::Connect),
                None => self.fail(UploadError::Address),
            },
            (Stage::Hashing, Event::Unread(why)) => self.fail(UploadError::Io(why)),
            (Stage::Connecting(file_hash), Event::Connected) => match FileRecord::checked(
                self.agreement,
                file_hash,
                self.file_name,
                self.name_limit,
            ) {
                Ok(record) => (self.at(Stage::Submitting), Action::Submit(record)),
                Err(error) => self.fail(UploadError::Encoding(error)),
            },
            (Stage::Connecting(_), Event::Unreachable(why)) => self.fail(
                UploadError::Connection(why),
            ),
            (Stage::Submitting, Event::Submitted) => (
                self.at(Stage::Finalizing),
                Action::AwaitFinality,
            ),
            (Stage::Submitting, Event::Rejected(why)) => self.fail(UploadError::Submission(why)),
            (Stage::Finalizing, Event::Finalized) => (self.at(Stage::ReadingTime), Action::ReadTime),
            (Stage::Finalizing, Event::Dropped(why)) => self.fail(UploadError::Finalization(why)),
            (Stage::ReadingTime, Event::Time(issued)) => match expiry(issued) {
                Some(expiration) => (
                    self.at(Stage::Issuing),
                    Action::Issue { agreement: self.agreement, issued, expiration },
                ),
                None => self.fail(UploadError::Expiry),
            },
            (Stage::ReadingTime, Event::TimeUnavailable(why)) => self.fail(UploadError::Query(why)),
            (Stage::Issuing, Event::Issued(credential)) => match self.endpoint {
                Some(endpoint) => (
                    self.at(Stage::Uploading),
                    Action::Upload { endpoint, credential },
                ),
                None => self.fail(UploadError::Address),
            },
            (Stage::Issuing, Event::Unsigned(error)) => self.fail(UploadError::Signing(error)),
            (Stage::Uploading, Event::Responded { status, body }) => match outcome(status, body) {
                Ok(_) => (self.at(Stage::Done), Action::Finish),
                Err(error) => self.fail(error),
            },
            (Stage::Uploading, Event::Unsent(why)) => self.fail(UploadError::Transport(why)),
            (Stage::Done, _) => (self, Action::Finish),
            _ => self.fail(UploadError::OutOfTurn),
        }
    }

    /// An attempt to upload the file named `file_name` under `agreement` to
    /// the provider at `ip_url`, where the ledger takes file names of up to
    /// `name_limit` bytes. The first thing to do is to hash the file.
    pub fn begin(agreement: AgreementId, file_name: String, name_limit: usize, ip_url: &str) -> (start:
        (UploadFlow, Action))
        ensures
            start.0.agreement == agreement,
            start.0.file_name == file_name,
            start.0.name_limit == name_limit,
            start.0.stage == Stage::Hashing,
            start.0.endpoint is Some <==> endpoint_of(ip_url@) is Some,
            start.0.endpoint matches Some(text) ==> endpoint_of(ip_url@) == Some(text@),
            start.1 == Action::HashFile,
    {
        let endpoint = upload_endpoint(ip_url);
        (
            UploadFlow { agreement, file_name, name_limit, endpoint, stage: Stage::Hashing },
            Action::HashFile,
        )
    }

    /// Takes in what came of the action that was asked for last: gives the
    /// attempt at its next stage, and what to do next.
    pub fn step(self, event: Event) -> (then: (UploadFlow, Action))
        ensures
            then == self.next(event),
    {
        let UploadFlow { agreement, file_name, name_limit, endpoint, stage } = self;
        match (stage, event) {
            (Stage::Hashing, Event::Hashed(file_hash)) => {
                if endpoint.is_some() {
                    (
                        UploadFlow {
                            agreement,
                            file_name,
                            name_limit,
                            endpoint,
                            stage: Stage::Connecting(file_hash),
                        },
                        Action::Connect,
                    )
                } else {
                    failed(agreement, file_name, name_limit, endpoint, UploadError::Address)
                }
            },
            (Stage::Hashing, Event::Unread(why)) => failed(
                agreement,
                file_name,
                name_limit,
                endpoint,
                UploadError::Io(why),
            ),
            (Stage::Connecting(file_hash), Event::Connected) => {
                match FileRecord::new(agreement, file_hash, file_name.clone(), name_limit) {
                    Ok(record) => (
                        UploadFlow {
                            agreement,
                            file_name,
                            name_limit,
                            endpoint,
                            stage: Stage::Submitting,
                        },
                        Action::Submit(record),
                    ),
                    Err(error) => failed(
                        agreement,
                        file_name,
                        name_limit,
                        endpoint,
                        UploadError::Encoding(error),
                    ),
                }
            },
            (Stage::Connecting(_), Event::Unreachable(why)) => failed(
                agreement,
                file_name,
                name_limit,
                endpoint,
                UploadError::Connection(why),
            ),
            (Stage::Submitting, Event::Submitted) => (
                UploadFlow { agreement, file_name, name_limit, endpoint, stage: Stage::Finalizing },
                Action::AwaitFinality,
            ),
            (Stage::Submitting, Event::Rejected(why)) => failed(
                agreement,
                file_name,
                name_limit,
                endpoint,
                UploadError::Submission(why),
            ),
            (Stage::Finalizing, Event::Finalized) => (
                UploadFlow { agreement, file_name, name_limit, endpoint, stage: Stage::ReadingTime },
                Action::ReadTime,
            ),
            (Stage::Finalizing, Event::Dropped(why)) => failed(
                agreement,
                file_name,
                name_limit,
                endpoint,
                UploadError::Finalization(why),
            ),
            (Stage::ReadingTime, Event::Time(issued)) => match expiration_for(issued) {
                Some(expiration) => (
                    UploadFlow { agreement, file_name, name_limit, endpoint, stage: Stage::Issuing },
                    Action::Issue { agreement, issued, expiration },
                ),
                None => failed(agreement, file_name, name_limit, endpoint, UploadError::Expiry),
            },
            (Stage::ReadingTime, Event::TimeUnavailable(why)) => failed(
                agreement,
                file_name,
                name_limit,
                endpoint,
                UploadError::Query(why),
            ),
            (Stage::Issuing, Event::Issued(credential)) => match endpoint {
                Some(address) => (
                    UploadFlow {
                        agreement,
                        file_name,
                        name_limit,
                        endpoint: Some(address.clone()),
                        stage: Stage::Uploading,
                    },
                    Action::Upload { endpoint: address, credential },
                ),
                None => failed(agreement, file_name, name_limit, None, UploadError::Address),
            },
            (Stage::Issuing, Event::Unsigned(error)) => failed(
                agreement,
                file_name,
                name_limit,
                endpoint,
                UploadError::Signing(error),
            ),
            (Stage::Uploading, Event::Responded { status, body }) => {
                match upload_outcome(status, body) {
                    Ok(_) => (
                        UploadFlow { agreement, file_name, name_limit, endpoint, stage: Stage::Done },
                        Action::Finish,
                    ),
                    Err(error) => failed(agreement, file_name, name_limit, endpoint, error),
                }
            },
            (Stage::Uploading, Event::Unsent(why)) => failed(
                agreement,
                file_name,
                name_limit,
                endpoint,
                UploadError::Transport(why),
            ),
            (Stage::Done, _) => (
                UploadFlow { agreement, file_name, name_limit, endpoint, stage: Stage::Done },
                Action::Finish,
            ),
            _ => failed(agreement, file_name, name_limit, endpoint, UploadError::OutOfTurn),
        }
    }
}

impl UploadFlow {
    /// The attempt after the events `events`, one after the other.
    pub open spec fn after(self, events: Seq<Event>) -> UploadFlow
        decreases events.len(),
    {
        if events.len() == 0 {
            self
        } else {
            self.after(events.drop_last()).next(events.last()).0
        }
    }

    /// What was asked for after each of the events `events`.
    pub open spec fn asked(self, events: Seq<Event>) -> Seq<Action>
        decreases events.len(),
    {
        if events.len() == 0 {
            Seq::<Action>::empty()
        } else {
            self.asked(events.drop_last()).push(
                self.after(events.drop_last()).next(events.last()).1,
            )
        }
    }

    /// An event changes the stage only: what the attempt is about stays.
    pub proof fn lemma_subject_stays(self, event: Event)
        ensures
            self.next(event).0 == self.at(self.next(event).0.stage),
    {
    }

    /// Each event moves the attempt on by exactly one stage, or ends it in
    /// failure. No step is skipped, and none is taken twice. An attempt that
    /// is done stays done.
    pub proof fn lemma_one_stage_at_a_time(self, event: Event)
        ensures
            self.next(event).0.stage is Failed || (self.stage is Done && self.next(event).0.stage
                is Done) || self.next(event).0.stage.rank() == self.stage.rank() + 1,
    {
    }

    /// Each action is asked for at one stage only, and only after the event
    /// that reports the success of the step before: the session is opened
    /// after the file is hashed, the registration submitted once the session
    /// is open, finality awaited once the node took the registration, the
    /// ledger's time read once the registration is final, a credential issued
    /// once the time is known, and the file sent once there is a credential.
    /// Hashing is never asked for again.
    pub proof fn lemma_actions_in_turn(self, event: Event)
        ensures
            !(self.next(event).1 is HashFile),
            self.next(event).1 is Connect ==> self.stage is Hashing && event is Hashed,
            self.next(event).1 is Submit ==> self.stage is Connecting && event is Connected,
            self.next(event).1 is AwaitFinality ==> self.stage is Submitting && event is Submitted,
            self.next(event).1 is ReadTime ==> self.stage is Finalizing && event is Finalized,
            self.next(event).1 is Issue ==> self.stage is ReadingTime && event is Time,
            self.next(event).1 is Upload ==> self.stage is Issuing && event is Issued,
            self.next(event).1 is Finish ==> (self.stage is Uploading && event is Responded)
                || self.stage is Done,
            self.next(event).1 is Abort <==> self.next(event).0.stage is Failed,
    {
    }

    /// A failure is forwarded as it came: the error that ends the attempt
    /// holds the text that the failed step reported.
    pub proof fn lemma_failure_forwarded(self, why: String)
        ensures
            self.stage is Hashing ==> self.next(Event::Unread(why)).1 == Action::Abort(
                UploadError::Io(why),
            ),
            self.stage is Connecting ==> self.next(Event::Unreachable(why)).1 == Action::Abort(
                UploadError::Connection(why),
            ),
            self.stage is Submitting ==> self.next(Event::Rejected(why)).1 == Action::Abort(
                UploadError::Submission(why),
            ),
            self.stage is Finalizing ==> self.next(Event::Dropped(why)).1 == Action::Abort(
                UploadError::Finalization(why),
            ),
            self.stage is ReadingTime ==> self.next(Event::TimeUnavailable(why)).1
                == Action::Abort(UploadError::Query(why)),
            self.stage is Uploading ==> self.next(Event::Unsent(why)).1 == Action::Abort(
                UploadError::Transport(why),
            ),
    {
    }

    /// Once an attempt has failed, whatever is reported to it, it stays failed
    /// and asks for nothing.
    pub proof fn lemma_failure_is_final(self, events: Seq<Event>)
        requires
            self.stage is Failed,
        ensures
            self.after(events).stage is Failed,
            self.asked(events).len() == events.len(),
            forall|i: int| 0 <= i < events.len() ==> #[trigger] self.asked(events)[i] is Abort,
        decreases events.len(),
    {
        if events.len() > 0 {
            self.lemma_failure_is_final(events.drop_last());
        }
    }

    /// Where the node refuses the registration, the attempt ends there: the
    /// ledger's time is never read, no credential is issued, and nothing is
    /// sent to the provider, whatever is reported afterwards.
    pub proof fn lemma_refused_registration_ends(self, why: String, later: Seq<Event>)
        requires
            self.stage is Submitting,
        ensures
            self.next(Event::Rejected(why)) == self.fail(UploadError::Submission(why)),
            forall|i: int|
                0 <= i < later.len() ==> #[trigger] self.next(Event::Rejected(why)).0.asked(
                    later,
                )[i] is Abort,
    {
        self.next(Event::Rejected(why)).0.lemma_failure_is_final(later);
    }

    /// After any events, an attempt that began at hashing and has not ended
    /// is as many stages on as there were events.
    pub proof fn lemma_strict_sequence(self, events: Seq<Event>)
        requires
            self.stage is Hashing,
        ensures
            self.after(events).stage.is_final() || self.after(events).stage.rank() == events.len(),
        decreases events.len(),
    {
        if events.len() > 0 {
            self.lemma_strict_sequence(events.drop_last());
            self.after(events.drop_last()).lemma_one_stage_at_a_time(events.last());
        }
    }

    /// Where the ledger's time is `issued`, the credential that is asked for
    /// is good from `issued` until 86 400 000 milliseconds later.
    pub proof fn lemma_credential_window(self, issued: Timestamp)
        requires
            self.stage is ReadingTime,
            issued + 86_400_000 <= u64::MAX,
        ensures
            self.next(Event::Time(issued)) == (
                self.at(Stage::Issuing),
                Action::Issue {
                    agreement: self.agreement,
                    issued,
                    expiration: (issued + 86_400_000) as u64,
                },
            ),
    {
    }

    /// Every credential that is asked for is good for exactly 24 hours.
    pub proof fn lemma_lifetime_of_every_credential(self, event: Event)
        ensures
            self.next(event).1 matches Action::Issue { issued, expiration, .. } ==> expiration
                - issued == 24 * 60 * 60 * 1000,
    {
    }

    /// Where the provider answers with another status than 200, the attempt
    /// fails with that status and the body as it came.
    pub proof fn lemma_refused_upload(self, status: u16, body: String)
        requires
            self.stage is Uploading,
            status != 200,
        ensures
            self.next(Event::Responded { status, body }) == self.fail(
                UploadError::Upload { status, body },
            ),
    {
    }
}

/// The attempt with these fields, failed with `error`.
fn failed(
    agreement: AgreementId,
    file_name: String,
    name_limit: usize,
    endpoint: Option<String>,
    error: UploadError,
) -> (then: (UploadFlow, Action))
    ensures
        then == (
            UploadFlow { agreement, file_name, name_limit, endpoint, stage: Stage::Failed },
            Action::Abort(error),
        ),
{
    (
        UploadFlow { agreement, file_name, name_limit, endpoint, stage: Stage::Failed },
        Action::Abort(error),
    )
}

} // verus!
