//! What holds of the ledger and of its sessions whatever the requests are.

use crate::decimal::int_text;
use crate::fault::LedgerError;
use crate::ledger::LedgerView;
use crate::request::{
    can_be_sent, lemma_parse_echo, lemma_parse_line_of, line_of, name_of, parse_request, verb_of,
    RequestView, Verb,
};
use crate::session::{line_end, step, step_line, OutcomeView, Step};
use crate::text::{after_first_word, is_space, is_token, lemma_words_are_tokens, trim, words};
use vstd::prelude::*;

verus! {

/// The ledger after one adjustment of the account `id` for each of `deltas`,
/// in their order. An adjustment that is refused leaves the ledger as it
/// was, and the next one is tried.
pub open spec fn adjust_all(ledger: LedgerView, id: Seq<char>, deltas: Seq<i64>) -> LedgerView
    decreases deltas.len(),
{
    if deltas.len() == 0 {
        ledger
    } else {
        adjust_all(ledger, id, deltas.drop_last()).adjust_balance(id, deltas.last()).0
    }
}

/// The sum of those of `deltas` whose adjustment of the account `id`
/// succeeds when they are tried in their order, starting from `ledger`.
pub open spec fn applied_sum(ledger: LedgerView, id: Seq<char>, deltas: Seq<i64>) -> int
    decreases deltas.len(),
{
    if deltas.len() == 0 {
        0
    } else {
        let before = adjust_all(ledger, id, deltas.drop_last());
        let earlier = applied_sum(ledger, id, deltas.drop_last());
        if before.adjust_balance(id, deltas.last()).1 is Ok {
            earlier + deltas.last()
        } else {
            earlier
        }
    }
}

/// Whether the run `deltas` of adjustments of the account `id` adds up: the
/// balance after it is the balance before it plus the sum of the deltas that
/// were applied, that sum fits a signed 64-bit integer, and nothing else in
/// the ledger has changed.
pub open spec fn adds_up(ledger: LedgerView, id: Seq<char>, deltas: Seq<i64>) -> bool {
    let balance = ledger.accounts[id] + applied_sum(ledger, id, deltas);
    &&& i64::MIN <= balance <= i64::MAX
    &&& adjust_all(ledger, id, deltas) == ledger.with_balance(id, balance as i64)
}

/// After any run of adjustments of an account that exists, its balance is
/// what it was plus the sum of the deltas that were applied; a delta that was
/// refused adds nothing.
proof fn lemma_adds_up(ledger: LedgerView, id: Seq<char>, deltas: Seq<i64>)
    requires
        ledger.accounts.contains_key(id),
    ensures
        adds_up(ledger, id, deltas),
    decreases deltas.len(),
{
    if deltas.len() == 0 {
        assert(ledger =~= ledger.with_balance(id, ledger.accounts[id]));
    } else {
        lemma_adds_up(ledger, id, deltas.drop_last());
        let before = adjust_all(ledger, id, deltas.drop_last());
        let moved = before.adjust_balance(id, deltas.last());
        if moved.1 is Ok {
            assert(moved.0 =~= ledger.with_balance(
                id,
                (ledger.accounts[id] + applied_sum(ledger, id, deltas)) as i64,
            ));
        }
    }
}

/// After any run of adjustments of an account that exists, its balance is
/// what it was plus the sum of the deltas that were applied; a delta that was
/// refused adds nothing. Nothing else in the ledger has changed. The same
/// holds after each adjustment of the run, so the balance is a signed 64-bit
/// integer all the way.
pub proof fn law_balance_is_sum_of_applied(ledger: LedgerView, id: Seq<char>, deltas: Seq<i64>)
    requires
        ledger.accounts.contains_key(id),
    ensures
        i64::MIN <= ledger.accounts[id] + applied_sum(ledger, id, deltas) <= i64::MAX,
        adjust_all(ledger, id, deltas).accounts[id] == ledger.accounts[id] + applied_sum(
            ledger,
            id,
            deltas,
        ),
        forall|k: int| 0 <= k <= deltas.len() ==> adds_up(ledger, id, #[trigger] deltas.take(k)),
{
    lemma_adds_up(ledger, id, deltas);
    assert forall|k: int| 0 <= k <= deltas.len() implies adds_up(
        ledger,
        id,
        #[trigger] deltas.take(k),
    ) by {
        lemma_adds_up(ledger, id, deltas.take(k));
    }
}

/// Whose turn it is, by the session's place among the sessions, and what
/// that session asks for.
pub struct Turn {
    pub session: int,
    pub request: RequestView,
}

/// Sessions that share a ledger: the account that each is bound to, if any,
/// and the ledger.
#[verifier::ext_equal]
pub struct Shared {
    pub sessions: Seq<Option<Seq<char>>>,
    pub ledger: LedgerView,
}

/// Sessions that share a ledger, after the turns of `schedule` in their
/// order. Each turn is one request of one session, carried out whole before
/// the next turn begins; a turn of a session that is not there does nothing.
pub open spec fn run(start: Shared, schedule: Seq<Turn>) -> Shared
    decreases schedule.len(),
{
    if schedule.len() == 0 {
        start
    } else {
        let before = run(start, schedule.drop_last());
        let turn = schedule.last();
        if 0 <= turn.session < before.sessions.len() {
            let after = step(before.sessions[turn.session], before.ledger, turn.request);
            Shared {
                sessions: before.sessions.update(turn.session, after.session),
                ledger: after.ledger,
            }
        } else {
            before
        }
    }
}

/// No update is lost: where every session is bound to the same account and
/// each turn moves its balance by `delta`, then after the turns, in whatever
/// order the sessions took them, the balance is what it was plus `delta` for
/// each turn, as long as that sum fits a signed 64-bit integer. Nothing else
/// in the ledger has changed, and every session is bound as before.
pub proof fn law_no_lost_update(start: Shared, account: Seq<char>, delta: i64, schedule: Seq<Turn>)
    requires
        start.ledger.accounts.contains_key(account),
        forall|i: int| 0 <= i < start.sessions.len() ==> start.sessions[i] == Some(account),
        forall|k: int|
            0 <= k < schedule.len() ==> 0 <= (#[trigger] schedule[k]).session
                < start.sessions.len() && schedule[k].request == (RequestView::Alter { delta }),
        i64::MIN <= start.ledger.accounts[account] + delta * schedule.len() <= i64::MAX,
    ensures
        run(start, schedule) == (Shared {
            sessions: start.sessions,
            ledger: start.ledger.with_balance(
                account,
                (start.ledger.accounts[account] + delta * schedule.len()) as i64,
            ),
        }),
    decreases schedule.len(),
{
    if schedule.len() == 0 {
        assert(start.ledger =~= start.ledger.with_balance(account, start.ledger.accounts[account]));
    } else {
        let front = schedule.drop_last();
        assert forall|k: int| 0 <= k < front.len() implies 0 <= (#[trigger] front[k]).session
            < start.sessions.len() && front[k].request == (RequestView::Alter { delta }) by {
            assert(front[k] == schedule[k]);
        }
        assert(delta >= 0 ==> 0 <= delta * front.len() <= delta * schedule.len())
            by (nonlinear_arith)
            requires
                front.len() <= schedule.len(),
        ;
        assert(delta <= 0 ==> 0 >= delta * front.len() >= delta * schedule.len())
            by (nonlinear_arith)
            requires
                front.len() <= schedule.len(),
        ;
        assert(delta * schedule.len() == delta * front.len() + delta) by (nonlinear_arith)
            requires
                schedule.len() == front.len() + 1,
        ;
        law_no_lost_update(start, account, delta, front);
        let before = run(start, front);
        let turn = schedule.last();
        let after = step(before.sessions[turn.session], before.ledger, turn.request);
        assert(before.sessions.update(turn.session, after.session) =~= start.sessions);
        assert(after.ledger =~= start.ledger.with_balance(
            account,
            (start.ledger.accounts[account] + delta * schedule.len()) as i64,
        ));
    }
}

/// A balance that is read right after the account was opened is zero.
pub proof fn law_init_then_balance(session: Option<Seq<char>>, ledger: LedgerView)
    ensures
        ({
            let opened = step(session, ledger, RequestView::Init);
            opened.outcome is Silent ==> step(
                opened.session,
                opened.ledger,
                RequestView::Balance,
            ).outcome == OutcomeView::Reply(seq!['0', '\r', '\n'])
        }),
{
    let opened = step(session, ledger, RequestView::Init);
    if opened.outcome is Silent {
        assert(int_text(0) + line_end() =~= seq!['0', '\r', '\n']);
    }
}

/// A `delete` that succeeds releases the session and takes the account out
/// of the ledger. A second `delete` right after it is rejected as
/// unauthorized, not as a missing account, and changes nothing.
pub proof fn law_delete_releases_session(session: Option<Seq<char>>, ledger: LedgerView)
    ensures
        ({
            let first = step(session, ledger, RequestView::Delete);
            let second = step(first.session, first.ledger, RequestView::Delete);
            first.outcome is Reply ==> {
                &&& session is Some
                &&& first.session is None
                &&& first.ledger == ledger.without(session->0)
                &&& !first.ledger.accounts.contains_key(session->0)
                &&& second == (Step {
                    session: first.session,
                    ledger: first.ledger,
                    outcome: OutcomeView::Rejected(LedgerError::Unauthorized),
                })
            }
        }),
{
}

/// `echo` answers with what follows its name on the line, whatever the
/// session is bound to and whatever the ledger holds, and changes neither.
pub proof fn law_echo_ignores_state(session: Option<Seq<char>>, ledger: LedgerView, line: Seq<char>)
    requires
        words(line).len() > 0,
        verb_of(words(line)[0]) == Some(Verb::Echo),
    ensures
        step_line(session, ledger, line) == (Step {
            session,
            ledger,
            outcome: OutcomeView::Reply(trim(after_first_word(line)) + line_end()),
        }),
{
}

/// `echo` sends back the text that follows it, as it stands: whatever
/// separators stand before `echo`, between `echo` and the text, and behind
/// the text, the answer is the text and the line end, whatever the session
/// is bound to and whatever the ledger holds. The text begins and ends with
/// a character that is no separator, or is empty.
pub proof fn law_echo_returns_its_text(
    session: Option<Seq<char>>,
    ledger: LedgerView,
    lead: Seq<char>,
    gap: Seq<char>,
    text: Seq<char>,
    tail: Seq<char>,
)
    requires
        forall|i: int| 0 <= i < lead.len() ==> is_space(#[trigger] lead[i]),
        forall|i: int| 0 <= i < gap.len() ==> is_space(#[trigger] gap[i]),
        forall|i: int| 0 <= i < tail.len() ==> is_space(#[trigger] tail[i]),
        text.len() > 0 ==> gap.len() > 0 && !is_space(text.first()) && !is_space(text.last()),
    ensures
        step_line(session, ledger, lead + name_of(Verb::Echo) + gap + text + tail) == (Step {
            session,
            ledger,
            outcome: OutcomeView::Reply(text + line_end()),
        }),
{
    lemma_parse_echo(lead, gap, text, tail);
}

/// A request does to a session and to the ledger what its line does.
pub proof fn law_line_is_its_request(
    session: Option<Seq<char>>,
    ledger: LedgerView,
    request: RequestView,
)
    requires
        can_be_sent(request),
    ensures
        step_line(session, ledger, line_of(request)) == step(session, ledger, request),
{
    lemma_parse_line_of(request);
}

/// The names that a line gives are tokens: where the session is bound to a
/// token and every account of the ledger goes by one, the same holds after
/// any line.
pub proof fn law_names_are_tokens(session: Option<Seq<char>>, ledger: LedgerView, line: Seq<char>)
    requires
        session is Some ==> is_token(session->0),
        forall|id: Seq<char>| ledger.accounts.contains_key(id) ==> is_token(id),
    ensures
        ({
            let after = step_line(session, ledger, line);
            &&& after.session is Some ==> is_token(after.session->0)
            &&& forall|id: Seq<char>| #[trigger]
                after.ledger.accounts.contains_key(id) ==> is_token(id)
        }),
{
    lemma_words_are_tokens(line);
}

/// An `auth` with a key that is not the administrator's is fatal and
/// changes neither the session nor the ledger.
pub proof fn law_wrong_key_changes_nothing(
    session: Option<Seq<char>>,
    ledger: LedgerView,
    key: Seq<char>,
    account: Seq<char>,
)
    requires
        key != ledger.admin_secret,
    ensures
        step(session, ledger, RequestView::Auth { key, account }) == (Step {
            session,
            ledger,
            outcome: OutcomeView::Fatal(LedgerError::Unauthorized),
        }),
{
}

/// A session that is bound to no account can only authenticate, echo and
/// leave: every other request is rejected as unauthorized, the connection
/// stays open, and the ledger is as it was.
pub proof fn law_unauthenticated_is_rejected(ledger: LedgerView, request: RequestView)
    requires
        !(request is Auth),
        !(request is Echo),
        !(request is Exit),
    ensures
        step(None, ledger, request) == (Step {
            session: None,
            ledger,
            outcome: OutcomeView::Rejected(LedgerError::Unauthorized),
        }),
        step(None, ledger, request).outcome.keeps_open(),
{
}

/// A request that fails, fatally or not, changes neither the session nor
/// the ledger, and neither does a line that does not read as a request.
pub proof fn law_failure_changes_nothing(
    session: Option<Seq<char>>,
    ledger: LedgerView,
    line: Seq<char>,
)
    ensures
        ({
            let after = step_line(session, ledger, line);
            after.outcome is Fatal || after.outcome is Rejected ==> after.session == session
                && after.ledger == ledger
        }),
        parse_request(line) is Err ==> step_line(session, ledger, line) == (Step {
            session,
            ledger,
            outcome: OutcomeView::Fatal(LedgerError::MalformedRequest),
        }),
{
}

/// Accounts come and go by `init` and `delete` alone, one at a time, and the
/// administrator's secret never changes.
pub proof fn law_accounts_follow_init_and_delete(
    session: Option<Seq<char>>,
    ledger: LedgerView,
    request: RequestView,
)
    ensures
        ({
            let after = step(session, ledger, request);
            let before_ids = ledger.accounts.dom();
            let after_ids = after.ledger.accounts.dom();
            &&& after.ledger.admin_secret == ledger.admin_secret
            &&& if request is Init && after.outcome is Silent {
                !before_ids.contains(session->0) && after_ids == before_ids.insert(session->0)
            } else if request is Delete && after.outcome is Reply {
                before_ids.contains(session->0) && after_ids == before_ids.remove(session->0)
            } else {
                after_ids == before_ids
            }
        }),
{
    let after = step(session, ledger, request);
    assert(after.ledger.accounts.dom() =~= ledger.accounts.dom() || (request is Init
        && after.outcome is Silent) || (request is Delete && after.outcome is Reply));
}

} // verus!
