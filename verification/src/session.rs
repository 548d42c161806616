//! One connection's conversation with the ledger.
//!
//! A session reads a line, carries out the request on the shared ledger and
//! says what is to be sent back. It starts unauthenticated; `auth` binds it
//! to an account, and `delete` releases it again.

use crate::decimal::{int_text, render_i64};
use crate::fault::LedgerError;
use crate::ledger::{Ledger, LedgerView};
use crate::request::{parse_request, Request, RequestView};
use vstd::prelude::*;
use vstd::string::StringExecFns;

verus! {

/// What ends every line that is sent: a carriage return, then a line feed.
pub open spec fn line_end() -> Seq<char> {
    seq!['\r', '\n']
}

/// What a request led to, as mathematics.
pub enum OutcomeView {
    Silent,
    Reply(Seq<char>),
    Exit,
    Rejected(LedgerError),
    Fatal(LedgerError),
}

/// What a request led to, and what the connection does next.
#[derive(Debug, PartialEq, Eq)]
pub enum Outcome {
    /// Done. Nothing is sent; the next line is read.
    Silent,
    /// Done. The text is sent as it stands, line end included; the next
    /// line is read.
    Reply(String),
    /// The client asked to leave: the connection closes.
    Exit,
    /// Refused and reported to the operator. Nothing is sent; the next line
    /// is read.
    Rejected(LedgerError),
    /// Failed and reported to the operator. Nothing is sent; the connection
    /// closes.
    Fatal(LedgerError),
}

impl View for Outcome {
    type V = OutcomeView;

    open spec fn view(&self) -> OutcomeView {
        match self {
            Outcome::Silent => OutcomeView::Silent,
            Outcome::Reply(text) => OutcomeView::Reply(text@),
            Outcome::Exit => OutcomeView::Exit,
            Outcome::Rejected(e) => OutcomeView::Rejected(*e),
            Outcome::Fatal(e) => OutcomeView::Fatal(*e),
        }
    }
}

impl OutcomeView {
    /// Whether the connection stays open.
    pub open spec fn keeps_open(self) -> bool {
        self is Silent || self is Reply || self is Rejected
    }
}

impl Outcome {
    /// Whether the connection stays open.
    pub fn keeps_open(&self) -> (open: bool)
        ensures
            open == self@.keeps_open(),
    {
        match self {
            Outcome::Silent => true,
            Outcome::Reply(_) => true,
            Outcome::Rejected(_) => true,
            Outcome::Exit => false,
            Outcome::Fatal(_) => false,
        }
    }
}

/// The state after a request: the account that the session is bound to, if
/// any, the ledger, and the outcome.
#[verifier::ext_equal]
pub struct Step {
    pub session: Option<Seq<char>>,
    pub ledger: LedgerView,
    pub outcome: OutcomeView,
}

/// The outcome of a ledger operation that answers nothing when it succeeds.
pub open spec fn settle(result: Result<(), LedgerError>) -> OutcomeView {
    match result {
        Ok(()) => OutcomeView::Silent,
        Err(e) => OutcomeView::Fatal(e),
    }
}

/// The outcome of a ledger operation that answers a balance when it
/// succeeds.
pub open spec fn report(result: Result<i64, LedgerError>) -> OutcomeView {
    match result {
        Ok(balance) => OutcomeView::Reply(int_text(balance as int) + line_end()),
        Err(e) => OutcomeView::Fatal(e),
    }
}

/// A command that needs an account, asked by a session that is bound to
/// none: it is rejected, and nothing changes.
pub open spec fn unauthorized(ledger: LedgerView) -> Step {
    Step { session: None, ledger, outcome: OutcomeView::Rejected(LedgerError::Unauthorized) }
}

/// What `request` does to a session bound to `session` (or to none) and to
/// `ledger`.
///
/// `auth` binds the session to the account it names where the key is the
/// administrator's, whether or not the account exists; a wrong key is fatal.
/// `echo` and `exit` need no account. The other commands act on the account
/// that the session is bound to: without one they are rejected and change
/// nothing, and the connection stays open. A failure of the ledger is fatal
/// and leaves the ledger as it was. `delete` releases the session when it
/// succeeds.
pub open spec fn step(session: Option<Seq<char>>, ledger: LedgerView, request: RequestView) -> Step {
    match request {
        RequestView::Auth { key, account } => match ledger.verify_admin(key) {
            Ok(()) => Step { session: Some(account), ledger, outcome: OutcomeView::Silent },
            Err(e) => Step { session, ledger, outcome: OutcomeView::Fatal(e) },
        },
        RequestView::Init => match session {
            Some(account) => {
                let (after, result) = ledger.create_account(account);
                Step { session, ledger: after, outcome: settle(result) }
            },
            None => unauthorized(ledger),
        },
        RequestView::Balance => match session {
            Some(account) => Step {
                session,
                ledger,
                outcome: report(ledger.read_balance(account)),
            },
            None => unauthorized(ledger),
        },
        RequestView::Delete => match session {
            Some(account) => {
                let (after, result) = ledger.remove_account(account);
                Step {
                    session: if result is Ok {
                        None
                    } else {
                        session
                    },
                    ledger: after,
                    outcome: report(result),
                }
            },
            None => unauthorized(ledger),
        },
        RequestView::Alter { delta } => match session {
            Some(account) => {
                let (after, result) = ledger.adjust_balance(account, delta);
                Step { session, ledger: after, outcome: settle(result) }
            },
            None => unauthorized(ledger),
        },
        RequestView::Echo { text } => Step {
            session,
            ledger,
            outcome: OutcomeView::Reply(text + line_end()),
        },
        RequestView::Exit => Step { session, ledger, outcome: OutcomeView::Exit },
    }
}

/// Whether `request` reads or changes the ledger when a session bound to
/// `session` (or to none) makes it.
pub open spec fn needs_ledger(session: Option<Seq<char>>, request: RequestView) -> bool {
    request is Auth || (session is Some && !(request is Echo) && !(request is Exit))
}

/// What the line `line` does to a session and to the ledger: a line that
/// does not read as a request is fatal and changes nothing.
pub open spec fn step_line(session: Option<Seq<char>>, ledger: LedgerView, line: Seq<char>) -> Step {
    match parse_request(line) {
        Ok(request) => step(session, ledger, request),
        Err(e) => Step { session, ledger, outcome: OutcomeView::Fatal(e) },
    }
}

/// The state of one connection: bound to an account, or to none.
#[derive(Debug, PartialEq, Eq)]
pub enum Session {
    /// No `auth` has succeeded yet, or the account was deleted since.
    Unauthenticated,
    /// Commands act on `account`.
    Authenticated { account: String },
}

impl View for Session {
    type V = Option<Seq<char>>;

    open spec fn view(&self) -> Option<Seq<char>> {
        match self {
            Session::Unauthenticated => None,
            Session::Authenticated { account } => Some(account@),
        }
    }
}

/// A text followed by the line end.
fn terminated(text: String) -> (out: String)
    ensures
        out@ == text@ + line_end(),
{
    proof {
        reveal_strlit("\r\n");
    }
    let mut out = text;
    out.append("\r\n");
    assert(out@ =~= text@ + line_end());
    out
}

impl Session {
    /// A session that has not authenticated.
    pub fn new() -> (session: Session)
        ensures
            session@ is None,
    {
        Session::Unauthenticated
    }

    /// The account that the session is bound to.
    pub fn check_authorized(&self) -> (out: Result<&str, LedgerError>)
        ensures
            match out {
                Ok(account) => self@ == Some(account@),
                Err(e) => self@ is None && e == LedgerError::Unauthorized,
            },
    {
        match self {
            Session::Authenticated { account } => Ok(account.as_str()),
            Session::Unauthenticated => Err(LedgerError::Unauthorized),
        }
    }

    /// Carries out `request` where that takes no ledger, and hands it back
    /// where it does. `echo` and `exit` are answered here, and so is the
    /// rejection of a command that needs an account by a session that is
    /// bound to none: the caller need not hold the ledger for any of them.
    pub fn respond_locally(&self, request: Request) -> (out: Result<Outcome, Request>)
        ensures
            match out {
                Ok(outcome) => !needs_ledger(self@, request@) && forall|ledger: LedgerView|
                    #[trigger] step(self@, ledger, request@) == (Step {
                        session: self@,
                        ledger,
                        outcome: outcome@,
                    }),
                Err(back) => needs_ledger(self@, request@) && back == request,
            },
    {
        match request {
            Request::Echo { text } => Ok(Outcome::Reply(terminated(text))),
            Request::Exit => Ok(Outcome::Exit),
            Request::Auth { key, account } => Err(Request::Auth { key, account }),
            other => match self {
                Session::Unauthenticated => Ok(Outcome::Rejected(LedgerError::Unauthorized)),
                Session::Authenticated { .. } => Err(other),
            },
        }
    }

    /// Carries out `request` on `ledger`.
    pub fn handle(&mut self, ledger: &mut Ledger, request: Request) -> (out: Outcome)
        ensures
            step(old(self)@, old(ledger)@, request@) == (Step {
                session: final(self)@,
                ledger: final(ledger)@,
                outcome: out@,
            }),
    {
        match request {
            Request::Auth { key, account } => match ledger.verify_admin(key.as_str()) {
                Ok(()) => {
                    *self = Session::Authenticated { account };
                    Outcome::Silent
                },
                Err(e) => Outcome::Fatal(e),
            },
            Request::Init => match self.check_authorized() {
                Err(e) => Outcome::Rejected(e),
                Ok(account) => match ledger.create_account(account) {
                    Ok(()) => Outcome::Silent,
                    Err(e) => Outcome::Fatal(e),
                },
            },
            Request::Balance => match self.check_authorized() {
                Err(e) => Outcome::Rejected(e),
                Ok(account) => match ledger.read_balance(account) {
                    Ok(balance) => Outcome::Reply(terminated(render_i64(balance))),
                    Err(e) => Outcome::Fatal(e),
                },
            },
            Request::Delete => {
                let removed = match self.check_authorized() {
                    Err(e) => {
                        return Outcome::Rejected(e);
                    },
                    Ok(account) => ledger.remove_account(account),
                };
                match removed {
                    Ok(balance) => {
                        *self = Session::Unauthenticated;
                        Outcome::Reply(terminated(render_i64(balance)))
                    },
                    Err(e) => Outcome::Fatal(e),
                }
            },
            Request::Alter { delta } => match self.check_authorized() {
                Err(e) => Outcome::Rejected(e),
                Ok(account) => match ledger.adjust_balance(account, delta) {
                    Ok(()) => Outcome::Silent,
                    Err(e) => Outcome::Fatal(e),
                },
            },
            Request::Echo { text } => Outcome::Reply(terminated(text)),
            Request::Exit => Outcome::Exit,
        }
    }

    /// Reads `line` as a request and carries it out on `ledger`.
    pub fn handle_line(&mut self, ledger: &mut Ledger, line: &str) -> (out: Outcome)
        ensures
            step_line(old(self)@, old(ledger)@, line@) == (Step {
                session: final(self)@,
                ledger: final(ledger)@,
                outcome: out@,
            }),
    {
        match Request::parse(line) {
            Ok(request) => self.handle(ledger, request),
            Err(e) => Outcome::Fatal(e),
        }
    }
}

} // verus!
