//! Password answers between the archive worker and the desktop dialogs.

use std::sync::atomic::{AtomicBool, Ordering};
use std::sync::mpsc::Sender;
use std::sync::Arc;

use vstd::prelude::*;

use crate::password::{Password, PasswordReason, PasswordRequest};

verus! {

#[verifier::external_type_specification]
#[verifier::external_body]
#[verifier::reject_recursive_types(T)]
pub struct ExSender<T>(Sender<T>);

/// A fresh shared flag, as `Arc::new(AtomicBool::new(false))`.
#[verifier::external_body]
fn unsent_flag() -> Arc<AtomicBool> {
    Arc::new(AtomicBool::new(false))
}

/// Sets the flag and returns its previous value, as `AtomicBool::swap`
/// with acquire-release ordering. Other holders share the flag, so nothing
/// is stated of the previous value.
#[verifier::external_body]
fn flag_swap(flag: &AtomicBool, value: bool) -> bool {
    flag.swap(value, Ordering::AcqRel)
}

/// Sends a value, as `Sender::send`; whether the receiver is still there is
/// not stated.
#[verifier::external_body]
fn channel_send<T>(sender: &Sender<T>, value: T) -> bool {
    sender.send(value).is_ok()
}

/// Another sender on the same channel, as `Sender::clone`. A sender is
/// taken by the channel it sends to, so the clone is stated equal to the
/// original, as `Arc::clone` is for a shared value.
#[verifier::external_body]
fn sender_clone<T>(sender: &Sender<T>) -> (r: Sender<T>)
    ensures
        r == *sender,
{
    sender.clone()
}

/// A password request waiting for a response from the UI.
pub struct PasswordPrompt {
    /// The reason the archive provider needs a password.
    pub request: PasswordRequest,
    /// Sends the password back to the worker, or `None` to decline.
    pub response: Sender<Option<Password>>,
}

/// Owns the response side of one password dialog. Accepting, cancelling and
/// cancelling the operation may race; the shared flag lets only the first of
/// them answer.
pub struct PasswordResponder {
    sender: Sender<Option<Password>>,
    sent: Arc<AtomicBool>,
}

impl Clone for PasswordResponder {
    fn clone(&self) -> (r: Self) {
        PasswordResponder { sender: sender_clone(&self.sender), sent: crate::operation::share_arc(&self.sent) }
    }
}

impl PasswordResponder {
    /// The channel the responder answers on.
    pub closed spec fn channel(&self) -> Sender<Option<Password>> {
        self.sender
    }

    /// A responder that has not answered yet.
    pub fn new(sender: Sender<Option<Password>>) -> (r: Self)
        ensures
            r.channel() == sender,
    {
        PasswordResponder { sender, sent: unsent_flag() }
    }

    /// Sends the first response and ignores later ones; returns whether this
    /// call delivered an answer.
    pub fn send(&self, password: Option<Password>) -> bool {
        if flag_swap(&self.sent, true) {
            return false;
        }
        channel_send(&self.sender, password)
    }
}

impl PasswordPrompt {
    /// Creates a response handle without consuming the prompt.
    pub fn responder(&self) -> (r: PasswordResponder)
        ensures
            r.channel() == self.response,
    {
        PasswordResponder::new(sender_clone(&self.response))
    }

    /// Converts this prompt into the response handle used by the dialog.
    pub fn into_responder(self) -> (r: PasswordResponder)
        ensures
            r.channel() == self.response,
    {
        PasswordResponder::new(self.response)
    }
}

/// The answer a password cache gives before asking the user: a retry
/// forgets the cached password and asks again; otherwise the cached password
/// is reused when there is one.
pub fn cached_answer(cached: &mut Option<Password>, request: &PasswordRequest) -> (r: Option<Password>)
    ensures
        request.reason == PasswordReason::Retry ==> r is None && *final(cached) is None,
        request.reason != PasswordReason::Retry ==> *final(cached) == *old(cached) && match *old(cached) {
            Some(p) => r matches Some(q) && q@ == p@,
            None => r is None,
        },
{
    if request.reason == PasswordReason::Retry {
        *cached = None;
        return None;
    }
    match cached {
        Some(p) => Some(p.clone()),
        None => None,
    }
}

/// Keeps the user's answer for later requests; a refusal keeps the cache.
pub fn remember_answer(cached: &mut Option<Password>, answer: &Option<Password>)
    ensures
        match *answer {
            Some(p) => *final(cached) matches Some(q) && q@ == p@,
            None => *final(cached) == *old(cached),
        },
{
    match answer {
        Some(p) => {
            *cached = Some(p.clone());
        },
        None => {},
    }
}

} // verus!
