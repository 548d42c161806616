//! The requests of the line protocol and how a line is read as one.

use crate::decimal::{
    i64_of_text, int_text, lemma_int_text_chars, lemma_text_round_trip, parse_i64_at,
};
use crate::fault::LedgerError;
use crate::text::{
    after_first_word, chars_of, is_space, is_token, lemma_leading_spaces_is,
    lemma_trailing_spaces_is, lemma_word_len_is, lemma_words_after_token,
    lemma_words_skip_spaces, skip_spaces, skip_spaces_back, trim, trim_end, trim_start,
    word_spans, words, Span,
};
use vstd::prelude::*;
use vstd::string::StrSliceExecFns;

verus! {

/// The command names of the protocol.
#[derive(Clone, Copy, Debug, PartialEq, Eq, Structural)]
pub enum Verb {
    Auth,
    Init,
    Balance,
    Delete,
    Alter,
    Echo,
    Exit,
}

/// How a command is written.
pub open spec fn name_of(verb: Verb) -> Seq<char> {
    match verb {
        Verb::Auth => seq!['a', 'u', 't', 'h'],
        Verb::Init => seq!['i', 'n', 'i', 't'],
        Verb::Balance => seq!['b', 'a', 'l', 'a', 'n', 'c', 'e'],
        Verb::Delete => seq!['d', 'e', 'l', 'e', 't', 'e'],
        Verb::Alter => seq!['a', 'l', 't', 'e', 'r'],
        Verb::Echo => seq!['e', 'c', 'h', 'o'],
        Verb::Exit => seq!['e', 'x', 'i', 't'],
    }
}

/// The command that `word` names. Names are matched exactly: case counts,
/// and nothing may precede or follow the name.
pub open spec fn verb_of(word: Seq<char>) -> Option<Verb> {
    if word == name_of(Verb::Auth) {
        Some(Verb::Auth)
    } else if word == name_of(Verb::Init) {
        Some(Verb::Init)
    } else if word == name_of(Verb::Balance) {
        Some(Verb::Balance)
    } else if word == name_of(Verb::Delete) {
        Some(Verb::Delete)
    } else if word == name_of(Verb::Alter) {
        Some(Verb::Alter)
    } else if word == name_of(Verb::Echo) {
        Some(Verb::Echo)
    } else if word == name_of(Verb::Exit) {
        Some(Verb::Exit)
    } else {
        None
    }
}

/// A request, as mathematics.
pub enum RequestView {
    Auth { key: Seq<char>, account: Seq<char> },
    Init,
    Balance,
    Delete,
    Alter { delta: i64 },
    Echo { text: Seq<char> },
    Exit,
}

/// What a line asks for.
///
/// The first word of the line names the command. `auth` takes two words
/// more, `alter` one, which must read as a signed 64-bit integer, and
/// `init`, `balance`, `delete` and `exit` take none: a word too many or too
/// few makes the line malformed. `echo` takes what follows its name on the
/// line, as it stands but for the separators at either end.
pub open spec fn parse_request(line: Seq<char>) -> Result<RequestView, LedgerError> {
    let w = words(line);
    if w.len() == 0 {
        Err(LedgerError::MalformedRequest)
    } else {
        match verb_of(w[0]) {
            Some(Verb::Auth) => if w.len() == 3 {
                Ok(RequestView::Auth { key: w[1], account: w[2] })
            } else {
                Err(LedgerError::MalformedRequest)
            },
            Some(Verb::Init) => if w.len() == 1 {
                Ok(RequestView::Init)
            } else {
                Err(LedgerError::MalformedRequest)
            },
            Some(Verb::Balance) => if w.len() == 1 {
                Ok(RequestView::Balance)
            } else {
                Err(LedgerError::MalformedRequest)
            },
            Some(Verb::Delete) => if w.len() == 1 {
                Ok(RequestView::Delete)
            } else {
                Err(LedgerError::MalformedRequest)
            },
            Some(Verb::Alter) => if w.len() == 2 {
                match i64_of_text(w[1]) {
                    Some(delta) => Ok(RequestView::Alter { delta }),
                    None => Err(LedgerError::MalformedRequest),
                }
            } else {
                Err(LedgerError::MalformedRequest)
            },
            Some(Verb::Echo) => Ok(RequestView::Echo { text: trim(after_first_word(line)) }),
            Some(Verb::Exit) => if w.len() == 1 {
                Ok(RequestView::Exit)
            } else {
                Err(LedgerError::MalformedRequest)
            },
            None => Err(LedgerError::MalformedRequest),
        }
    }
}

/// A request of the protocol.
#[derive(Debug, PartialEq, Eq)]
pub enum Request {
    /// Bind the session to `account`, given the administrator's key.
    Auth { key: String, account: String },
    /// Open the session's account.
    Init,
    /// Report the balance of the session's account.
    Balance,
    /// Close the session's account and report its last balance.
    Delete,
    /// Move the balance of the session's account by `delta`.
    Alter { delta: i64 },
    /// Send `text` back.
    Echo { text: String },
    /// End the session.
    Exit,
}

impl View for Request {
    type V = RequestView;

    open spec fn view(&self) -> RequestView {
        match self {
            Request::Auth { key, account } => RequestView::Auth { key: key@, account: account@ },
            Request::Init => RequestView::Init,
            Request::Balance => RequestView::Balance,
            Request::Delete => RequestView::Delete,
            Request::Alter { delta } => RequestView::Alter { delta: *delta },
            Request::Echo { text } => RequestView::Echo { text: text@ },
            Request::Exit => RequestView::Exit,
        }
    }
}

/// The command names differ from one another, and each is a token.
pub proof fn lemma_names(verb: Verb)
    ensures
        verb_of(name_of(verb)) == Some(verb),
        is_token(name_of(verb)),
        name_of(verb).len() == match verb {
            Verb::Balance => 7int,
            Verb::Delete => 6int,
            Verb::Alter => 5int,
            _ => 4int,
        },
{
    assert(name_of(Verb::Auth)[0] == 'a' && name_of(Verb::Auth).len() == 4);
    assert(name_of(Verb::Init)[0] == 'i' && name_of(Verb::Init).len() == 4);
    assert(name_of(Verb::Balance).len() == 7);
    assert(name_of(Verb::Delete).len() == 6);
    assert(name_of(Verb::Alter).len() == 5);
    assert(name_of(Verb::Echo)[1] == 'c' && name_of(Verb::Echo).len() == 4);
    assert(name_of(Verb::Exit)[1] == 'x' && name_of(Verb::Exit).len() == 4);
}

/// A space.
pub open spec fn space() -> Seq<char> {
    seq![' ']
}

/// The line that asks for `request`: the name of the command and what it
/// takes, with one space between them.
pub open spec fn line_of(request: RequestView) -> Seq<char> {
    match request {
        RequestView::Auth { key, account } => name_of(Verb::Auth) + space() + key + space()
            + account,
        RequestView::Init => name_of(Verb::Init),
        RequestView::Balance => name_of(Verb::Balance),
        RequestView::Delete => name_of(Verb::Delete),
        RequestView::Alter { delta } => name_of(Verb::Alter) + space() + int_text(delta as int),
        RequestView::Echo { text } => name_of(Verb::Echo) + space() + text,
        RequestView::Exit => name_of(Verb::Exit),
    }
}

/// Whether a line can carry `request`: the key and the account of `auth` are
/// tokens, and the text of `echo` neither begins nor ends with a separator.
pub open spec fn can_be_sent(request: RequestView) -> bool {
    match request {
        RequestView::Auth { key, account } => is_token(key) && is_token(account),
        RequestView::Echo { text } => text.len() > 0 ==> !is_space(text.first()) && !is_space(
            text.last(),
        ),
        _ => true,
    }
}

/// A line that holds `echo` and a text, with separators before, between and
/// behind them, asks to send that text back as it stands.
pub proof fn lemma_parse_echo(lead: Seq<char>, gap: Seq<char>, text: Seq<char>, tail: Seq<char>)
    requires
        forall|i: int| 0 <= i < lead.len() ==> is_space(#[trigger] lead[i]),
        forall|i: int| 0 <= i < gap.len() ==> is_space(#[trigger] gap[i]),
        forall|i: int| 0 <= i < tail.len() ==> is_space(#[trigger] tail[i]),
        text.len() > 0 ==> gap.len() > 0 && !is_space(text.first()) && !is_space(text.last()),
    ensures
        parse_request(lead + name_of(Verb::Echo) + gap + text + tail) == Ok::<
            RequestView,
            LedgerError,
        >(RequestView::Echo { text }),
{
    let name = name_of(Verb::Echo);
    let line = lead + name + gap + text + tail;
    let body = name + gap + text + tail;
    let rest = gap + text + tail;
    lemma_names(Verb::Echo);
    lemma_leading_spaces_is(line, lead.len() as int);
    assert(trim_start(line) =~= body);
    lemma_word_len_is(body, 4);
    assert(body.take(4) =~= name);
    assert(body.skip(4) =~= rest);
    lemma_words_skip_spaces(line);
    assert(words(line)[0] == name);
    assert(after_first_word(line) == rest);
    if text.len() > 0 {
        lemma_leading_spaces_is(rest, gap.len() as int);
        assert(trim_start(rest) =~= text + tail);
        lemma_trailing_spaces_is(text + tail, tail.len() as int);
        assert(trim_end(text + tail) =~= text);
    } else {
        lemma_leading_spaces_is(rest, rest.len() as int);
        assert(trim_start(rest) =~= Seq::<char>::empty());
        assert(trim(rest) =~= text);
    }
}

/// The words of a line that holds a command name alone.
proof fn lemma_words_of_name(verb: Verb)
    ensures
        words(name_of(verb)) == seq![name_of(verb)],
{
    lemma_names(verb);
    lemma_words_after_token(name_of(verb), Seq::empty());
    assert(name_of(verb) + Seq::<char>::empty() =~= name_of(verb));
    assert(words(Seq::<char>::empty()) =~= Seq::<Seq<char>>::empty());
}

/// The words of a token behind a space.
proof fn lemma_words_of_last(token: Seq<char>)
    requires
        is_token(token),
    ensures
        words(space() + token) == seq![token],
{
    let s = space() + token;
    assert(s.drop_first() =~= token);
    lemma_words_after_token(token, Seq::empty());
    assert(token + Seq::<char>::empty() =~= token);
    assert(words(Seq::<char>::empty()) =~= Seq::<Seq<char>>::empty());
}

/// Every request that a line can carry is read back from its line.
pub proof fn lemma_parse_line_of(request: RequestView)
    requires
        can_be_sent(request),
    ensures
        parse_request(line_of(request)) == Ok::<RequestView, LedgerError>(request),
{
    match request {
        RequestView::Auth { key, account } => {
            lemma_names(Verb::Auth);
            let tail = space() + account;
            let rest = space() + key + tail;
            assert(line_of(request) =~= name_of(Verb::Auth) + rest);
            lemma_words_after_token(name_of(Verb::Auth), rest);
            assert(rest.drop_first() =~= key + tail);
            lemma_words_after_token(key, tail);
            lemma_words_of_last(account);
            let w = words(line_of(request));
            assert(w =~= seq![name_of(Verb::Auth), key, account]);
        },
        RequestView::Init => {
            lemma_names(Verb::Init);
            lemma_words_of_name(Verb::Init);
        },
        RequestView::Balance => {
            lemma_names(Verb::Balance);
            lemma_words_of_name(Verb::Balance);
        },
        RequestView::Delete => {
            lemma_names(Verb::Delete);
            lemma_words_of_name(Verb::Delete);
        },
        RequestView::Exit => {
            lemma_names(Verb::Exit);
            lemma_words_of_name(Verb::Exit);
        },
        RequestView::Alter { delta } => {
            lemma_names(Verb::Alter);
            let number = int_text(delta as int);
            lemma_int_text_chars(delta as int);
            lemma_text_round_trip(delta);
            assert(is_token(number));
            let rest = space() + number;
            assert(line_of(request) =~= name_of(Verb::Alter) + rest);
            lemma_words_after_token(name_of(Verb::Alter), rest);
            lemma_words_of_last(number);
            let w = words(line_of(request));
            assert(w =~= seq![name_of(Verb::Alter), number]);
        },
        RequestView::Echo { text } => {
            let gap = if text.len() > 0 {
                space()
            } else {
                Seq::<char>::empty()
            };
            let tail = if text.len() > 0 {
                Seq::<char>::empty()
            } else {
                space()
            };
            lemma_parse_echo(Seq::empty(), gap, text, tail);
            assert(line_of(request) =~= Seq::<char>::empty() + name_of(Verb::Echo) + gap + text
                + tail);
        },
    }
}

/// The command that the characters under `span` name.
pub fn read_verb(chars: &[char], span: Span) -> (out: Option<Verb>)
    requires
        span.fits(chars@.len()),
    ensures
        out == verb_of(span.of(chars@)),
{
    let ghost word = span.of(chars@);
    let at = span.start;
    let len = span.end - span.start;
    assert(forall|k: int| 0 <= k < len ==> word[k] == chars[at + k]);
    proof {
        lemma_names(Verb::Auth);
        lemma_names(Verb::Init);
        lemma_names(Verb::Balance);
        lemma_names(Verb::Delete);
        lemma_names(Verb::Alter);
        lemma_names(Verb::Echo);
        lemma_names(Verb::Exit);
    }
    if len == 4 {
        let (a, b, c, d) = (chars[at], chars[at + 1], chars[at + 2], chars[at + 3]);
        assert(word =~= seq![a, b, c, d]);
        if a == 'a' && b == 'u' && c == 't' && d == 'h' {
            Some(Verb::Auth)
        } else if a == 'i' && b == 'n' && c == 'i' && d == 't' {
            Some(Verb::Init)
        } else if a == 'e' && b == 'c' && c == 'h' && d == 'o' {
            Some(Verb::Echo)
        } else if a == 'e' && b == 'x' && c == 'i' && d == 't' {
            Some(Verb::Exit)
        } else {
            None
        }
    } else if len == 5 {
        let (a, b, c, d, e) = (
            chars[at],
            chars[at + 1],
            chars[at + 2],
            chars[at + 3],
            chars[at + 4],
        );
        assert(word =~= seq![a, b, c, d, e]);
        if a == 'a' && b == 'l' && c == 't' && d == 'e' && e == 'r' {
            Some(Verb::Alter)
        } else {
            None
        }
    } else if len == 6 {
        let (a, b, c, d, e, f) = (
            chars[at],
            chars[at + 1],
            chars[at + 2],
            chars[at + 3],
            chars[at + 4],
            chars[at + 5],
        );
        assert(word =~= seq![a, b, c, d, e, f]);
        if a == 'd' && b == 'e' && c == 'l' && d == 'e' && e == 't' && f == 'e' {
            Some(Verb::Delete)
        } else {
            None
        }
    } else if len == 7 {
        let (a, b, c, d, e, f, g) = (
            chars[at],
            chars[at + 1],
            chars[at + 2],
            chars[at + 3],
            chars[at + 4],
            chars[at + 5],
            chars[at + 6],
        );
        assert(word =~= seq![a, b, c, d, e, f, g]);
        if a == 'b' && b == 'a' && c == 'l' && d == 'a' && e == 'n' && f == 'c' && g == 'e' {
            Some(Verb::Balance)
        } else {
            None
        }
    } else {
        None
    }
}

impl Request {
    /// Reads a line as a request.
    pub fn parse(line: &str) -> (out: Result<Request, LedgerError>)
        ensures
            match out {
                Ok(request) => parse_request(line@) == Ok::<RequestView, LedgerError>(request@),
                Err(e) => parse_request(line@) == Err::<RequestView, LedgerError>(e),
            },
    {
        let chars = chars_of(line);
        let spans = word_spans(&chars);
        if spans.len() == 0 {
            return Err(LedgerError::MalformedRequest);
        }
        let verb = match read_verb(&chars, spans[0]) {
            Some(verb) => verb,
            None => {
                return Err(LedgerError::MalformedRequest);
            },
        };
        match verb {
            Verb::Auth => {
                if spans.len() != 3 {
                    return Err(LedgerError::MalformedRequest);
                }
                let key = line.substring_char(spans[1].start, spans[1].end);
                let account = line.substring_char(spans[2].start, spans[2].end);
                Ok(Request::Auth { key: key.to_owned(), account: account.to_owned() })
            },
            Verb::Init => if spans.len() == 1 {
                Ok(Request::Init)
            } else {
                Err(LedgerError::MalformedRequest)
            },
            Verb::Balance => if spans.len() == 1 {
                Ok(Request::Balance)
            } else {
                Err(LedgerError::MalformedRequest)
            },
            Verb::Delete => if spans.len() == 1 {
                Ok(Request::Delete)
            } else {
                Err(LedgerError::MalformedRequest)
            },
            Verb::Alter => {
                if spans.len() != 2 {
                    return Err(LedgerError::MalformedRequest);
                }
                match parse_i64_at(&chars, spans[1].start, spans[1].end) {
                    Some(delta) => Ok(Request::Alter { delta }),
                    None => Err(LedgerError::MalformedRequest),
                }
            },
            Verb::Echo => {
                let from = skip_spaces(&chars, spans[0].end);
                let to = skip_spaces_back(&chars, from);
                proof {
                    let s = line@;
                    let rest = s.skip(spans[0].end as int);
                    assert(trim_start(s) == s.skip(spans[0].start as int));
                    assert(after_first_word(s) =~= rest);
                    assert(trim_start(rest) =~= s.skip(from as int));
                    assert(trim(rest) =~= s.subrange(from as int, to as int));
                }
                let text = line.substring_char(from, to);
                Ok(Request::Echo { text: text.to_owned() })
            },
            Verb::Exit => if spans.len() == 1 {
                Ok(Request::Exit)
            } else {
                Err(LedgerError::MalformedRequest)
            },
        }
    }
}

} // verus!
