use vstd::prelude::*;

use crate::address::{AddressSet, IpAddress};
use crate::auth::{check_password, check_presence};
use crate::error::UpdateError;
use crate::hostname::{bare_host, dotted, normalize_hostname};
use crate::reconcile::{plan_reconciliation, reconciliation};
use crate::record::{ExistingRecord, ZoneOp};

verus! {

/// How a request that succeeded left the zone.
#[derive(Clone, Copy, Debug, PartialEq, Eq, Structural)]
pub enum Outcome {
    /// At least one write was made.
    Updated,
    /// The records already matched; nothing was written.
    NoChange,
}

/// What the driver of a session must do next.
#[derive(Debug, PartialEq, Eq)]
pub enum Action {
    /// Look up the stored password of this bare hostname.
    LookupPassword { hostname: String },
    /// List the records at this name.
    ListRecords { name: String },
    /// Perform this write and report how it went.
    Write(ZoneOp),
    /// The request is over, with this result.
    Finish(Result<Outcome, UpdateError>),
}

/// What the driver reports back.
#[derive(Debug, PartialEq, Eq)]
pub enum Event {
    /// The stored password of the hostname; `None` when there is no entry.
    StoredPassword(Option<String>),
    /// The records listed at the name.
    Records(Vec<ExistingRecord>),
    /// The last write succeeded.
    Written,
    /// The outside step failed.
    Failed(UpdateError),
}

#[derive(Clone, Copy, Debug, PartialEq, Eq, Structural)]
pub enum Phase {
    AwaitPassword,
    AwaitRecords,
    Writing,
    Done,
}

/// One update request, from credential check to the last write. Each step
/// is issued only after the previous one was reported.
pub struct UpdateSession {
    phase: Phase,
    fqdn: String,
    password: String,
    desired: AddressSet,
    ttl: u32,
    pending: Vec<ZoneOp>,
    accepted: Ghost<Option<Seq<char>>>,
}

impl UpdateSession {
    pub closed spec fn phase(&self) -> Phase {
        self.phase
    }

    pub closed spec fn fqdn(&self) -> String {
        self.fqdn
    }

    pub closed spec fn password(&self) -> Seq<char> {
        self.password@
    }

    pub closed spec fn desired(&self) -> Seq<IpAddress> {
        self.desired.items()
    }

    pub closed spec fn ttl(&self) -> u32 {
        self.ttl
    }

    /// The writes still to be issued, in order.
    pub closed spec fn pending(&self) -> Seq<ZoneOp> {
        self.pending@
    }

    /// The stored password that the credential check accepted, if any.
    pub closed spec fn accepted(&self) -> Option<Seq<char>> {
        self.accepted@
    }

    /// The store answered with a password equal to the supplied one.
    pub open spec fn authenticated(&self) -> bool {
        &&& self.accepted() is Some
        &&& self.accepted()->0 == self.password()
        &&& self.password().len() > 0
    }

    pub open spec fn wf(&self) -> bool {
        &&& self.desired().no_duplicates()
        &&& self.pending().len() > 0 ==> self.phase() == Phase::Writing
        &&& self.phase() == Phase::AwaitPassword ==> self.password().len() > 0
        &&& (self.phase() == Phase::AwaitRecords || self.phase() == Phase::Writing)
            ==> self.authenticated()
    }

    pub open spec fn spec_accepts(&self, ev: Event) -> bool {
        match self.phase() {
            Phase::AwaitPassword => ev is StoredPassword || ev is Failed,
            Phase::AwaitRecords => ev is Records || ev is Failed,
            Phase::Writing => ev is Written || ev is Failed,
            Phase::Done => false,
        }
    }

    /// Whether `ev` is an answer to the action last handed out.
    pub fn accepts(&self, ev: &Event) -> (r: bool)
        ensures
            r == self.spec_accepts(*ev),
    {
        match self.phase {
            Phase::AwaitPassword => matches!(ev, Event::StoredPassword(_) | Event::Failed(_)),
            Phase::AwaitRecords => matches!(ev, Event::Records(_) | Event::Failed(_)),
            Phase::Writing => matches!(ev, Event::Written | Event::Failed(_)),
            Phase::Done => false,
        }
    }

    pub fn is_done(&self) -> (r: bool)
        ensures
            r == (self.phase() == Phase::Done),
    {
        self.phase == Phase::Done
    }

    /// Opens a session for the hostname and password the caller sent. The
    /// hostname is normalized with the domain suffix; when it or the
    /// password is empty the request fails at once, with no lookup.
    pub fn start(raw_hostname: &str, password: String, suffix: &str, desired: AddressSet, ttl: u32) -> (r: (
        UpdateSession,
        Action,
    ))
        requires
            desired.wf(),
        ensures
            r.0.wf(),
            r.0.password() == password@,
            r.0.desired() == desired.items(),
            r.0.ttl() == ttl,
            r.0.pending().len() == 0,
            !r.0.authenticated(),
            ({
                let bare = bare_host(raw_hostname@, suffix@);
                if bare.len() == 0 || password@.len() == 0 {
                    &&& r.0.phase() == Phase::Done
                    &&& r.1 == Action::Finish(Err(UpdateError::Unauthorized))
                } else {
                    &&& r.0.phase() == Phase::AwaitPassword
                    &&& r.0.fqdn()@ == bare + dotted(suffix@)
                    &&& r.1 matches Action::LookupPassword { hostname } && hostname@ == bare
                }
            }),
    {
        let (phase, fqdn, action) = match normalize_hostname(raw_hostname, suffix) {
            Err(e) => (Phase::Done, String::new(), Action::Finish(Err(e))),
            Ok(host) => match check_presence(host.bare.as_str(), password.as_str()) {
                Err(e) => (Phase::Done, host.fqdn, Action::Finish(Err(e))),
                Ok(()) => (
                    Phase::AwaitPassword,
                    host.fqdn,
                    Action::LookupPassword { hostname: host.bare },
                ),
            },
        };
        let session = UpdateSession {
            phase,
            fqdn,
            password,
            desired,
            ttl,
            pending: Vec::new(),
            accepted: Ghost(None),
        };
        (session, action)
    }

    /// Hands out the next pending write, or finishes with `Updated` when
    /// none is left.
    fn next_write(&mut self) -> (r: Action)
        requires
            old(self).wf(),
            old(self).authenticated(),
        ensures
            final(self).wf(),
            final(self).fqdn() == old(self).fqdn(),
            final(self).password() == old(self).password(),
            final(self).desired() == old(self).desired(),
            final(self).ttl() == old(self).ttl(),
            final(self).accepted() == old(self).accepted(),
            old(self).pending().len() == 0 ==> {
                &&& final(self).phase() == Phase::Done
                &&& r == Action::Finish(Ok(Outcome::Updated))
            },
            old(self).pending().len() > 0 ==> {
                &&& final(self).phase() == Phase::Writing
                &&& r == Action::Write(old(self).pending()[0])
                &&& final(self).pending() == old(self).pending().drop_first()
            },
    {
        if self.pending.len() == 0 {
            self.phase = Phase::Done;
            Action::Finish(Ok(Outcome::Updated))
        } else {
            let op = self.pending.remove(0);
            self.phase = Phase::Writing;
            Action::Write(op)
        }
    }

    /// Takes the driver's answer to the last action and says what to do
    /// next. A failure of any outside step ends the request with that
    /// failure; writes already made stay made. The records are listed only
    /// once the stored password matched, and writes come only after that.
    pub fn step(&mut self, ev: Event) -> (r: Action)
        requires
            old(self).wf(),
            old(self).spec_accepts(ev),
        ensures
            final(self).wf(),
            final(self).fqdn() == old(self).fqdn(),
            final(self).password() == old(self).password(),
            final(self).desired() == old(self).desired(),
            final(self).ttl() == old(self).ttl(),
            (r is ListRecords || r is Write) ==> final(self).authenticated(),
            final(self).authenticated() ==> old(self).authenticated() || (ev
                matches Event::StoredPassword(Some(p)) && p@ == old(self).password()),
            ev matches Event::Failed(e) ==> {
                &&& final(self).phase() == Phase::Done
                &&& r == Action::Finish(Err(e))
            },
            ev matches Event::StoredPassword(stored) ==> {
                if stored matches Some(p) && p@ == old(self).password() {
                    &&& final(self).phase() == Phase::AwaitRecords
                    &&& r matches Action::ListRecords { name } && name == old(self).fqdn()
                } else {
                    &&& final(self).phase() == Phase::Done
                    &&& r == Action::Finish(Err(UpdateError::Unauthorized))
                }
            },
            ev matches Event::Records(records) ==> {
                let plan = reconciliation(
                    old(self).fqdn(),
                    old(self).desired(),
                    records@,
                    old(self).ttl(),
                );
                &&& plan.len() == 0 ==> {
                    &&& final(self).phase() == Phase::Done
                    &&& r == Action::Finish(Ok(Outcome::NoChange))
                }
                &&& plan.len() > 0 ==> {
                    &&& final(self).phase() == Phase::Writing
                    &&& r == Action::Write(plan[0])
                    &&& final(self).pending() == plan.drop_first()
                }
            },
            ev is Written ==> {
                &&& old(self).pending().len() == 0 ==> {
                    &&& final(self).phase() == Phase::Done
                    &&& r == Action::Finish(Ok(Outcome::Updated))
                }
                &&& old(self).pending().len() > 0 ==> {
                    &&& final(self).phase() == Phase::Writing
                    &&& r == Action::Write(old(self).pending()[0])
                    &&& final(self).pending() == old(self).pending().drop_first()
                }
            },
    {
        match ev {
            Event::Failed(e) => {
                self.pending = Vec::new();
                self.phase = Phase::Done;
                Action::Finish(Err(e))
            },
            Event::StoredPassword(stored) => {
                let checked = match &stored {
                    None => check_password(self.password.as_str(), None),
                    Some(p) => check_password(self.password.as_str(), Some(p.as_str())),
                };
                match checked {
                    Err(e) => {
                        self.phase = Phase::Done;
                        Action::Finish(Err(e))
                    },
                    Ok(()) => {
                        proof {
                            self.accepted = Ghost(Some(self.password@));
                        }
                        self.phase = Phase::AwaitRecords;
                        Action::ListRecords { name: self.fqdn.clone() }
                    },
                }
            },
            Event::Records(records) => {
                let plan = plan_reconciliation(&self.fqdn, &self.desired, &records, self.ttl);
                if plan.len() == 0 {
                    self.phase = Phase::Done;
                    Action::Finish(Ok(Outcome::NoChange))
                } else {
                    self.phase = Phase::Writing;
                    self.pending = plan;
                    self.next_write()
                }
            },
            Event::Written => self.next_write(),
        }
    }
}

} // verus!
