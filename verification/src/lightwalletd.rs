//! Reaching a lightwalletd server: which addresses to try, whether to use TLS, and when to try
//! again.

use crate::error::ScanError;
use crate::text::starts_with;
use tonic::transport::Channel;
use vstd::prelude::*;

verus! {

/// How often a connection is attempted.
pub const CONNECT_ATTEMPTS: u64 = 3;

/// The pause after the first failed attempt, in milliseconds. The pause after each further one
/// is longer by the same amount.
pub const CONNECT_PAUSE_MS: u64 = 400;

/// The error that any failure of the server becomes, for use with `Result::map_err`. The
/// context is for the caller's log alone.
pub fn upstream<E>(ctx: &'static str) -> (f: impl Fn(E) -> ScanError)
    ensures
        forall|e: E| call_requires(f, (e,)),
        forall|e: E, r: ScanError| call_ensures(f, (e,), r) ==> r == ScanError::Upstream,
{
    |_e: E| -> (r: ScanError)
        ensures
            r == ScanError::Upstream,
        { ScanError::Upstream }
}

/// Whether `Channel::from_shared` reads an address, that is, whether it is a URI.
pub uninterp spec fn address_parses(url: Seq<char>) -> bool;

/// Calls `Channel::from_shared`, which parses an address and does not reach for the server. It
/// fails on a text that is no URI.
#[verifier::external_body]
fn parse_address(url: &str) -> (r: bool)
    ensures
        r == address_parses(url@),
{
    Channel::from_shared(url.to_string()).is_ok()
}

/// What connecting waits for.
#[derive(Clone, Copy, Debug, PartialEq, Eq, Structural)]
pub enum ConnectAction {
    /// Set up TLS.
    Secure,
    /// Open the connection.
    Open,
    /// Let so many milliseconds pass.
    Pause(u64),
    /// Nothing: the connection is open or given up.
    Nothing,
}

/// What came of a [`ConnectAction`].
#[derive(Clone, Copy, Debug, PartialEq, Eq, Structural)]
pub enum ConnectReply {
    /// TLS is set up.
    Secured,
    /// The connection is open.
    Opened,
    /// TLS could not be set up, or the connection could not be opened.
    Refused,
    /// The pause is over.
    Paused,
}

/// The stages of connecting. Attempts are counted from 0.
#[derive(Clone, Copy, Debug, PartialEq, Eq, Structural)]
pub enum ConnectStage {
    Securing,
    Opening(u64),
    Pausing(u64),
    Finished,
}

/// Connecting to a server.
#[derive(Clone, Copy, Debug, PartialEq, Eq, Structural)]
pub struct ConnectRun {
    tls: bool,
    stage: ConnectStage,
}

pub struct ConnectRunView {
    /// Whether the connection uses TLS.
    pub tls: bool,
    pub stage: ConnectStage,
}

impl View for ConnectRun {
    type V = ConnectRunView;

    closed spec fn view(&self) -> ConnectRunView {
        ConnectRunView { tls: self.tls, stage: self.stage }
    }
}

/// The pause after failed attempt number `attempt`, counted from 0.
pub open spec fn pause_after(attempt: u64) -> int {
    CONNECT_PAUSE_MS * (attempt + 1)
}

impl ConnectRunView {
    /// The attempt under way is one of those that are made, and TLS is set up only where it is
    /// used.
    pub open spec fn wf(self) -> bool {
        match self.stage {
            ConnectStage::Securing => self.tls,
            ConnectStage::Opening(n) => n < CONNECT_ATTEMPTS,
            ConnectStage::Pausing(n) => n < CONNECT_ATTEMPTS,
            ConnectStage::Finished => true,
        }
    }

    /// What is waited for at each stage.
    pub open spec fn awaited(self) -> ConnectAction {
        match self.stage {
            ConnectStage::Securing => ConnectAction::Secure,
            ConnectStage::Opening(_) => ConnectAction::Open,
            ConnectStage::Pausing(n) => ConnectAction::Pause(pause_after(n) as u64),
            ConnectStage::Finished => ConnectAction::Nothing,
        }
    }

    /// The stage after a reply, and whether the connection is then open: `Some(true)` if it is,
    /// `Some(false)` if it was given up, `None` while that is undecided. A reply that does not
    /// fit the stage gives the connection up.
    pub open spec fn moved(self, reply: ConnectReply) -> (ConnectStage, Option<bool>) {
        match (self.stage, reply) {
            (ConnectStage::Securing, ConnectReply::Secured) => (ConnectStage::Opening(0), None),
            (ConnectStage::Securing, ConnectReply::Refused) => {
                (ConnectStage::Finished, Some(false))
            },
            (ConnectStage::Opening(_), ConnectReply::Opened) => {
                (ConnectStage::Finished, Some(true))
            },
            (ConnectStage::Opening(n), ConnectReply::Refused) => (ConnectStage::Pausing(n), None),
            (ConnectStage::Pausing(n), ConnectReply::Paused) => {
                if n + 1 < CONNECT_ATTEMPTS {
                    (ConnectStage::Opening((n + 1) as u64), None)
                } else {
                    (ConnectStage::Finished, Some(false))
                }
            },
            _ => (ConnectStage::Finished, Some(false)),
        }
    }

    /// The run after a reply.
    pub open spec fn after(self, reply: ConnectReply) -> ConnectRunView {
        ConnectRunView { stage: self.moved(reply).0, ..self }
    }
}

impl ConnectRun {
    /// Whether the connection uses TLS.
    pub fn tls(&self) -> (r: bool)
        ensures
            r == self@.tls,
    {
        self.tls
    }

    /// What to do next.
    pub fn pending(&self) -> (r: ConnectAction)
        requires
            self@.wf(),
        ensures
            r == self@.awaited(),
    {
        match self.stage {
            ConnectStage::Securing => ConnectAction::Secure,
            ConnectStage::Opening(_) => ConnectAction::Open,
            ConnectStage::Pausing(n) => ConnectAction::Pause(CONNECT_PAUSE_MS * (n + 1)),
            ConnectStage::Finished => ConnectAction::Nothing,
        }
    }

    /// Takes the reply to the pending action. `Ok(true)` means that the connection is open,
    /// `Ok(false)` that there is something to do next; an error that it was given up.
    pub fn advance(&mut self, reply: ConnectReply) -> (r: Result<bool, ScanError>)
        requires
            old(self)@.wf(),
        ensures
            final(self)@.wf(),
            final(self)@ == old(self)@.after(reply),
            match old(self)@.moved(reply).1 {
                Some(true) => r == Ok::<bool, ScanError>(true),
                Some(false) => r == Err::<bool, ScanError>(ScanError::Upstream),
                None => r == Ok::<bool, ScanError>(false),
            },
    {
        match (self.stage, reply) {
            (ConnectStage::Securing, ConnectReply::Secured) => {
                self.stage = ConnectStage::Opening(0);
                Ok(false)
            },
            (ConnectStage::Opening(_), ConnectReply::Opened) => {
                self.stage = ConnectStage::Finished;
                Ok(true)
            },
            (ConnectStage::Opening(n), ConnectReply::Refused) => {
                self.stage = ConnectStage::Pausing(n);
                Ok(false)
            },
            (ConnectStage::Pausing(n), ConnectReply::Paused) => {
                if n + 1 < CONNECT_ATTEMPTS {
                    self.stage = ConnectStage::Opening(n + 1);
                    Ok(false)
                } else {
                    self.stage = ConnectStage::Finished;
                    Err(ScanError::Upstream)
                }
            },
            _ => {
                self.stage = ConnectStage::Finished;
                Err(ScanError::Upstream)
            },
        }
    }
}

/// Starts to connect to `url`, with TLS for an `https` address, which is then set up before
/// anything else. An address that does not parse is given up at once.
pub fn connect(url: &str) -> (r: Result<ConnectRun, ScanError>)
    ensures
        r is Ok <==> address_parses(url@),
        r matches Ok(run) ==> {
            &&& run@.wf()
            &&& run@.tls == "https://"@.is_prefix_of(url@)
            &&& run@.stage == if run@.tls {
                ConnectStage::Securing
            } else {
                ConnectStage::Opening(0)
            }
        },
        r matches Err(e) ==> e == ScanError::Upstream,
{
    if !parse_address(url) {
        return Err(ScanError::Upstream);
    }
    Ok(start_connecting(starts_with(url, "https://")))
}

/// Starts to connect to an address that has been parsed.
pub fn start_connecting(tls: bool) -> (r: ConnectRun)
    ensures
        r@.wf(),
        r@.tls == tls,
        r@.stage == if tls {
            ConnectStage::Securing
        } else {
            ConnectStage::Opening(0)
        },
{
    let stage: ConnectStage = if tls {
        ConnectStage::Securing
    } else {
        ConnectStage::Opening(0)
    };
    ConnectRun { tls, stage }
}

/// The run after `n` refusals in a row, each followed by its pause.
pub open spec fn after_refusals(run: ConnectRunView, n: nat) -> ConnectRunView
    decreases n,
{
    if n == 0 {
        run
    } else {
        after_refusals(run, (n - 1) as nat).after(ConnectReply::Refused).after(ConnectReply::Paused)
    }
}

/// A server that refuses every attempt is tried exactly [`CONNECT_ATTEMPTS`] times: after fewer
/// refusals the next attempt is due, and after the last one and its pause the connection is
/// given up.
pub proof fn attempts_are_bounded(run: ConnectRunView, n: nat)
    requires
        run.stage == ConnectStage::Opening(0),
    ensures
        n < CONNECT_ATTEMPTS ==> after_refusals(run, n).stage == ConnectStage::Opening(n as u64),
        n == CONNECT_ATTEMPTS ==> after_refusals(run, n).stage == ConnectStage::Finished,
    decreases n,
{
    if 0 < n <= CONNECT_ATTEMPTS {
        attempts_are_bounded(run, (n - 1) as nat);
    }
}

/// There is no way around TLS: before it is set up nothing is opened, and whatever comes in its
/// place gives the connection up for good.
pub proof fn no_attempt_without_security(run: ConnectRunView, reply: ConnectReply)
    requires
        run.stage == ConnectStage::Securing,
        reply != ConnectReply::Secured,
    ensures
        run.awaited() == ConnectAction::Secure,
        run.moved(reply) == (ConnectStage::Finished, Some(false)),
        run.after(reply).awaited() == ConnectAction::Nothing,
{
}

} // verus!
