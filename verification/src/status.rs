//! What is recorded for one visit, and the line that reports it.

use vstd::prelude::*;
use vstd::string::*;
use crate::text::{decimal, lemma_decimal_digits, opt_view, str_eq, to_decimal};

verus! {

/// The text that stands in place of the status of a visit that failed.
pub open spec fn failure_marker() -> Seq<char> {
    "FAILURE"@
}

/// The status line of an answer with the status code `code`: the code in
/// decimal, a space, and the reason phrase that belongs to the code.
pub uninterp spec fn status_line(code: u16) -> Seq<char>;

/// `reqwest::StatusCode::from_u16` admits the codes from 100 to 999 and no
/// others. The text that `to_string` gives for an admitted code is named
/// `status_line`; it begins with the code in decimal and a space.
#[verifier::external_body]
fn status_text(code: u16) -> (r: Option<String>)
    ensures
        r is Some <==> 100 <= code <= 999,
        r matches Some(s) ==> s@ == status_line(code),
        r matches Some(s) ==> (decimal(code as nat) + seq![' ']).is_prefix_of(s@),
{
    match reqwest::StatusCode::from_u16(code) {
        Ok(status) => Some(status.to_string()),
        Err(_) => None,
    }
}

/// The status code of an answer: a number of three digits.
#[derive(Clone, Copy, Debug, PartialEq, Eq)]
pub struct HttpStatus {
    code: u16,
}

impl HttpStatus {
    #[verifier::type_invariant]
    spec fn in_range(self) -> bool {
        100 <= self.code <= 999
    }

    /// The number.
    pub closed spec fn value(self) -> u16 {
        self.code
    }

    /// Admits the codes from 100 to 999.
    pub fn new(code: u16) -> (r: Option<HttpStatus>)
        ensures
            r is Some <==> 100 <= code <= 999,
            r matches Some(s) ==> s.value() == code,
    {
        if 100 <= code && code <= 999 {
            Some(HttpStatus { code })
        } else {
            None
        }
    }

    /// The number.
    pub fn code(&self) -> (code: u16)
        ensures
            code == self.value(),
            100 <= code <= 999,
    {
        proof {
            use_type_invariant(self);
        }
        self.code
    }

    /// The status line: the code and its reason phrase.
    pub fn line(&self) -> (text: String)
        ensures
            text@ == status_line(self.value()),
            text@ != failure_marker(),
    {
        proof {
            use_type_invariant(self);
        }
        let text = status_text(self.code).unwrap();
        proof {
            lemma_decimal_digits(self.code as nat);
            reveal_strlit("FAILURE");
            assert(text@[0] == (decimal(self.code as nat) + seq![' '])[0]);
        }
        text
    }
}

/// What came of the request of one visit.
#[derive(Debug, PartialEq, Eq)]
pub enum Reply {
    /// The server answered, with this status code.
    Answered(HttpStatus),
    /// No answer came; the text says why.
    Failed(String),
}

/// The mathematical content of a [`Reply`].
pub enum ReplyView {
    /// An answer with this status code.
    Answered(u16),
    /// No answer, for this reason.
    Failed(Seq<char>),
}

impl View for Reply {
    type V = ReplyView;

    open spec fn view(&self) -> ReplyView {
        match self {
            Reply::Answered(status) => ReplyView::Answered(status.value()),
            Reply::Failed(why) => ReplyView::Failed(why@),
        }
    }
}

/// The record of one visit.
#[derive(Debug, PartialEq, Eq)]
pub struct Status {
    url: String,
    status: String,
    elapsed_ms: u128,
    timestamp: String,
    error: Option<String>,
}

/// The mathematical content of a [`Status`].
pub struct StatusView {
    /// The address that was visited.
    pub url: Seq<char>,
    /// The status line of the answer, or the failure marker.
    pub status: Seq<char>,
    /// How long the visit took, in milliseconds.
    pub elapsed_ms: nat,
    /// When the visit began.
    pub timestamp: Seq<char>,
    /// Why the visit failed, if it did.
    pub error: Option<Seq<char>>,
}

impl StatusView {
    /// A record holds an error exactly if its status is the failure marker.
    pub open spec fn consistent(self) -> bool {
        self.error is Some <==> self.status == failure_marker()
    }
}

/// The record of a visit of `url` that began at `timestamp`, took
/// `elapsed_ms` milliseconds and ended with `reply`.
pub open spec fn recorded(
    url: Seq<char>,
    timestamp: Seq<char>,
    elapsed_ms: nat,
    reply: ReplyView,
) -> StatusView {
    match reply {
        ReplyView::Answered(code) => StatusView {
            url,
            status: status_line(code),
            elapsed_ms,
            timestamp,
            error: None,
        },
        ReplyView::Failed(why) => StatusView {
            url,
            status: failure_marker(),
            elapsed_ms,
            timestamp,
            error: Some(why),
        },
    }
}

/// The line that reports a visit:
/// `[<timestamp>] <url> OK in <elapsed>ms` for one that was answered,
/// `[<timestamp>] <url> FAILURE: <error> in <elapsed>ms` for one that failed.
pub open spec fn report_line(s: StatusView) -> Seq<char> {
    let head = "["@ + s.timestamp + "] "@ + s.url;
    let tail = " in "@ + decimal(s.elapsed_ms) + "ms"@;
    match s.error {
        None => head + " OK"@ + tail,
        Some(why) => head + " FAILURE: "@ + why + tail,
    }
}

impl View for Status {
    type V = StatusView;

    closed spec fn view(&self) -> StatusView {
        StatusView {
            url: self.url@,
            status: self.status@,
            elapsed_ms: self.elapsed_ms as nat,
            timestamp: self.timestamp@,
            error: opt_view(self.error),
        }
    }
}

impl Status {
    #[verifier::type_invariant]
    spec fn consistent(self) -> bool {
        self@.consistent()
    }

    /// Makes a record from its five parts, provided that it holds an error
    /// exactly if its status is the failure marker.
    pub fn new(
        url: String,
        status: String,
        elapsed_ms: u128,
        timestamp: String,
        error: Option<String>,
    ) -> (r: Option<Status>)
        ensures
            r is Some <==> (error is Some <==> status@ == failure_marker()),
            r matches Some(s) ==> s@ == (StatusView {
                url: url@,
                status: status@,
                elapsed_ms: elapsed_ms as nat,
                timestamp: timestamp@,
                error: opt_view(error),
            }),
    {
        if error.is_some() == str_eq(status.as_str(), "FAILURE") {
            Some(Status { url, status, elapsed_ms, timestamp, error })
        } else {
            None
        }
    }

    /// Records a visit of `url` that began at `timestamp`, took `elapsed_ms`
    /// milliseconds and ended with `reply`.
    pub fn record(url: String, timestamp: String, elapsed_ms: u128, reply: Reply) -> (r: Status)
        ensures
            r@ == recorded(url@, timestamp@, elapsed_ms as nat, reply@),
            r@.consistent(),
    {
        let made = match reply {
            Reply::Answered(code) => Status::new(url, code.line(), elapsed_ms, timestamp, None),
            Reply::Failed(why) => Status::new(
                url,
                "FAILURE".to_owned(),
                elapsed_ms,
                timestamp,
                Some(why),
            ),
        };
        made.unwrap()
    }

    /// The address that was visited.
    pub fn url(&self) -> (r: &String)
        ensures
            r@ == self@.url,
    {
        &self.url
    }

    /// The status line of the answer, or the failure marker.
    pub fn status(&self) -> (r: &String)
        ensures
            r@ == self@.status,
    {
        &self.status
    }

    /// How long the visit took, in milliseconds: never less than none.
    pub fn elapsed_ms(&self) -> (r: u128)
        ensures
            r == self@.elapsed_ms,
            self@.elapsed_ms >= 0,
    {
        self.elapsed_ms
    }

    /// When the visit began.
    pub fn timestamp(&self) -> (r: &String)
        ensures
            r@ == self@.timestamp,
    {
        &self.timestamp
    }

    /// Why the visit failed, if it did.
    pub fn error(&self) -> (r: &Option<String>)
        ensures
            opt_view(*r) == self@.error,
            self@.consistent(),
    {
        proof {
            use_type_invariant(self);
        }
        &self.error
    }

    /// The line that reports the visit.
    pub fn report_line(&self) -> (line: String)
        ensures
            line@ == report_line(self@),
    {
        let mut line = "[".to_owned();
        line.append(self.timestamp.as_str());
        line.append("] ");
        line.append(self.url.as_str());
        match &self.error {
            None => {
                line.append(" OK");
            },
            Some(why) => {
                line.append(" FAILURE: ");
                line.append(why.as_str());
            },
        }
        let ghost front = line@;
        line.append(" in ");
        let ms = to_decimal(self.elapsed_ms);
        line.append(ms.as_str());
        line.append("ms");
        assert(line@ =~= front + (" in "@ + decimal(self@.elapsed_ms) + "ms"@));
        line
    }
}

} // verus!
