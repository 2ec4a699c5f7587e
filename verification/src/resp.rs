//! The server's answers to access requests.

use crate::text::{decimal, decimal_text};
use vstd::prelude::*;
use vstd::string::StringExecFns;

verus! {

/// What the server did with a request.
#[derive(Clone, Copy, Debug, PartialEq, Eq, Structural)]
pub enum SessReqAction {
    /// Access was opened.
    Grant,
    /// The running lease was extended.
    Renew,
    /// The lease is too young to be renewed.
    DenyRenewTooSoon,
    /// The lease has had all its renewals.
    DenyMaxRenewalsReached,
    /// A renewal was taken in the current window already.
    DenyRenewAlreadyInProgress,
    /// The request's number is not above the last one accepted from its
    /// peer.
    DenyDuplicateRequest,
}

/// The answer to one request.
#[derive(Clone, Copy, Debug, PartialEq, Eq, Structural)]
pub struct SessResp {
    /// What the server did.
    pub action: SessReqAction,
    /// The number of the request that is answered.
    pub req_id: u64,
    /// Seconds of access granted or renewed; for a renewal that came too
    /// soon, seconds until one will be taken; zero otherwise.
    pub duration: u64,
    /// Renewals still to be had; zero on a denial.
    pub renewals_remaining: u8,
}

impl SessReqAction {
    /// The action in words.
    pub open spec fn spec_to_string(&self) -> Seq<char> {
        match *self {
            SessReqAction::Grant => "session granted"@,
            SessReqAction::Renew => "session renewed"@,
            SessReqAction::DenyRenewTooSoon => "request received before renewal window"@,
            SessReqAction::DenyMaxRenewalsReached => "max session renewals reached"@,
            SessReqAction::DenyRenewAlreadyInProgress => "renewal already requested"@,
            SessReqAction::DenyDuplicateRequest => "request is a duplicate"@,
        }
    }

    /// The action in words.
    pub fn to_string(&self) -> (text: String)
        ensures
            text@ == self.spec_to_string(),
    {
        match *self {
            SessReqAction::Grant => String::from_str("session granted"),
            SessReqAction::Renew => String::from_str("session renewed"),
            SessReqAction::DenyRenewTooSoon => String::from_str(
                "request received before renewal window",
            ),
            SessReqAction::DenyMaxRenewalsReached => String::from_str(
                "max session renewals reached",
            ),
            SessReqAction::DenyRenewAlreadyInProgress => String::from_str(
                "renewal already requested",
            ),
            SessReqAction::DenyDuplicateRequest => String::from_str("request is a duplicate"),
        }
    }

    /// Whether the action opens or extends access.
    pub fn is_accepted(&self) -> (r: bool)
        ensures
            r == (*self is Grant || *self is Renew),
    {
        match *self {
            SessReqAction::Grant => true,
            SessReqAction::Renew => true,
            _ => false,
        }
    }
}

impl SessResp {
    /// The answer in words, as a client shows it: what was done and, for
    /// a grant, a renewal and a renewal that came too soon, the seconds
    /// and renewals that go with it.
    pub open spec fn spec_to_string(&self) -> Seq<char> {
        match self.action {
            SessReqAction::Grant => self.action.spec_to_string() + " for "@ + decimal(
                self.duration as nat,
            ) + " seconds. "@ + decimal(self.renewals_remaining as nat) + " renewals allowed."@,
            SessReqAction::Renew => self.action.spec_to_string() + " for "@ + decimal(
                self.duration as nat,
            ) + " seconds. "@ + decimal(self.renewals_remaining as nat) + " renewals remaining."@,
            SessReqAction::DenyRenewTooSoon => self.action.spec_to_string() + ", renewal ok in "@
                + decimal(self.duration as nat) + " seconds."@,
            _ => self.action.spec_to_string(),
        }
    }

    /// The answer in words.
    pub fn to_string(&self) -> (text: String)
        ensures
            text@ == self.spec_to_string(),
    {
        let action = self.action.to_string();
        match self.action {
            SessReqAction::Grant => {
                let secs = decimal_text(self.duration);
                let left = decimal_text(self.renewals_remaining as u64);
                action.concat(" for ").concat(secs.as_str()).concat(" seconds. ").concat(
                    left.as_str(),
                ).concat(" renewals allowed.")
            },
            SessReqAction::Renew => {
                let secs = decimal_text(self.duration);
                let left = decimal_text(self.renewals_remaining as u64);
                action.concat(" for ").concat(secs.as_str()).concat(" seconds. ").concat(
                    left.as_str(),
                ).concat(" renewals remaining.")
            },
            SessReqAction::DenyRenewTooSoon => {
                let secs = decimal_text(self.duration);
                action.concat(", renewal ok in ").concat(secs.as_str()).concat(" seconds.")
            },
            _ => action,
        }
    }

    /// The answer made of these parts.
    pub fn new(action: SessReqAction, req_id: u64, duration: u64, renewals_remaining: u8) -> (resp:
        SessResp)
        ensures
            resp == (SessResp { action, req_id, duration, renewals_remaining }),
    {
        SessResp { action, req_id, duration, renewals_remaining }
    }
}

} // verus!
