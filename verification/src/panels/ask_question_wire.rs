//! Asking questions through events: a request goes out, and the host answers it.

use vstd::prelude::*;
use vstd::string::*;

use crate::numerals::decimal_u64;
#[allow(unused_imports)]
use crate::numerals::{decimal, law_decimal_is_read_back};
use crate::plan_runtime::ask_question_panel::{cancelled_result, AskQuestionResult, Question};
use crate::text::{cat3, same};

verus! {

/// How often it is looked whether to break off, in milliseconds.
pub const CANCEL_POLL_MS: u64 = 10;

/// The event with which a question goes out.
pub const WIRE_PLAN_ASK_QUESTION: &'static str = "plan.ask_question";

/// What goes out.
#[derive(Clone, Debug, PartialEq, Eq)]
pub struct AskQuestionWireRequest {
    pub request_id: String,
    /// The event with which to answer.
    pub response_event: String,
    pub questions: Vec<Question>,
}

/// What comes back.
#[derive(Clone, Debug, PartialEq, Eq)]
pub struct AskQuestionWireResponse {
    pub request_id: String,
    pub result: AskQuestionResult,
}

/// The event with which a question goes out.
pub fn ask_question_request_event_name() -> (r: &'static str)
    ensures
        r@ == WIRE_PLAN_ASK_QUESTION@,
{
    WIRE_PLAN_ASK_QUESTION
}

/// The event with which a request is answered.
pub open spec fn response_event(request_id: Seq<char>) -> Seq<char> {
    WIRE_PLAN_ASK_QUESTION@ + ".response."@ + request_id
}

/// The event with which a request is answered.
pub fn ask_question_response_event_name(request_id: &str) -> (r: String)
    ensures
        r@ == response_event(request_id@),
{
    cat3(WIRE_PLAN_ASK_QUESTION, ".response.", request_id)
}

/// Asks questions through events.
#[derive(Clone, Debug, PartialEq, Eq)]
pub struct EventBusAskQuestionPanel {
    /// The session that the requests name.
    pub session_id: Option<String>,
    pub next_request_seq: u64,
    pub request_id_prefix: String,
}

/// The number after `n`; zero after the last one.
pub open spec fn next_number(n: u64) -> u64 {
    if n == u64::MAX {
        0
    } else {
        (n + 1) as u64
    }
}

/// The id of a request.
pub open spec fn request_id(prefix: Seq<char>, seq: nat) -> Seq<char> {
    prefix + "-"@ + decimal(seq)
}

impl EventBusAskQuestionPanel {
    /// A panel that names no session and numbers its requests from zero.
    pub fn new() -> (r: EventBusAskQuestionPanel)
        ensures
            r.session_id is None,
            r.next_request_seq == 0,
            r.request_id_prefix@ == "askq"@,
    {
        EventBusAskQuestionPanel {
            session_id: None,
            next_request_seq: 0,
            request_id_prefix: "askq".to_owned(),
        }
    }

    /// The panel, naming a session.
    pub fn with_session_id(self, session_id: String) -> (r: EventBusAskQuestionPanel)
        ensures
            r == (EventBusAskQuestionPanel { session_id: Some(session_id), ..self }),
    {
        EventBusAskQuestionPanel {
            session_id: Some(session_id),
            next_request_seq: self.next_request_seq,
            request_id_prefix: self.request_id_prefix,
        }
    }

    /// The panel, with another start for the ids of its requests.
    pub fn with_request_id_prefix(self, prefix: String) -> (r: EventBusAskQuestionPanel)
        ensures
            r == (EventBusAskQuestionPanel { request_id_prefix: prefix, ..self }),
    {
        EventBusAskQuestionPanel {
            session_id: self.session_id,
            next_request_seq: self.next_request_seq,
            request_id_prefix: prefix,
        }
    }

    /// The id of the next request.
    pub fn next_request_id(&mut self) -> (r: String)
        ensures
            r@ == request_id(old(self).request_id_prefix@, old(self).next_request_seq as nat),
            *final(self) == (EventBusAskQuestionPanel {
                next_request_seq: next_number(old(self).next_request_seq),
                ..*old(self)
            }),
    {
        let seq: u64 = self.next_request_seq;
        self.next_request_seq = seq.wrapping_add(1);
        cat3(self.request_id_prefix.as_str(), "-", decimal_u64(seq).as_str())
    }

    /// What goes out to ask the questions; nothing if the dialogue is broken off already.
    pub fn request(&mut self, questions: Vec<Question>, cancelled: bool) -> (r: Option<
        AskQuestionWireRequest,
    >)
        ensures
            match r {
                Some(q) => {
                    &&& !cancelled
                    &&& q.request_id@ == request_id(
                        old(self).request_id_prefix@,
                        old(self).next_request_seq as nat,
                    )
                    &&& q.response_event@ == response_event(q.request_id@)
                    &&& q.questions == questions
                    &&& final(self).next_request_seq
                        == next_number(old(self).next_request_seq)
                    &&& *final(self) == (EventBusAskQuestionPanel {
                        next_request_seq: final(self).next_request_seq,
                        ..*old(self)
                    })
                },
                None => cancelled && *final(self) == *old(self),
            },
    {
        if cancelled {
            return None;
        }
        let request_id = self.next_request_id();
        let response_event = ask_question_response_event_name(request_id.as_str());
        Some(AskQuestionWireRequest { request_id, response_event, questions })
    }
}

/// What comes of a request: the result that the host sent for it. If nothing came that can be read,
/// or it was meant for another request, the dialogue is broken off.
pub fn take_response(request_id: &str, response: Option<AskQuestionWireResponse>) -> (r:
    AskQuestionResult)
    ensures
        if response is Some && response->0.request_id@ == request_id@ {
            r == response->0.result
        } else {
            r.is_cancelled_empty()
        },
{
    match response {
        Some(resp) => if same(resp.request_id.as_str(), request_id) {
            resp.result
        } else {
            cancelled_result()
        },
        None => cancelled_result(),
    }
}

/// Requests with different numbers have different ids, and are answered with different events.
pub proof fn law_request_ids_differ(prefix: Seq<char>, a: nat, b: nat)
    requires
        a != b,
    ensures
        request_id(prefix, a) != request_id(prefix, b),
        response_event(request_id(prefix, a)) != response_event(request_id(prefix, b)),
{
    law_decimal_is_read_back(a);
    law_decimal_is_read_back(b);
    let x = request_id(prefix, a);
    let y = request_id(prefix, b);
    let n = (prefix + "-"@).len() as int;
    if x == y {
        assert(x.skip(n) =~= decimal(a));
        assert(y.skip(n) =~= decimal(b));
    }
    let m = (WIRE_PLAN_ASK_QUESTION@ + ".response."@).len() as int;
    if response_event(x) == response_event(y) {
        assert(response_event(x).skip(m) =~= x);
        assert(response_event(y).skip(m) =~= y);
    }
}

/// The event that answers a request names the request, and so does its id the number.
pub proof fn law_events_name_their_request(prefix: Seq<char>, seq: nat, id: Seq<char>)
    ensures
        crate::search::has_suffix(response_event(id), id),
        crate::search::has_prefix(request_id(prefix, seq), prefix),
        crate::search::has_suffix(request_id(prefix, seq), decimal(seq)),
{
    let e = response_event(id);
    assert(e.subrange(e.len() - id.len(), e.len() as int) =~= id);
    let r = request_id(prefix, seq);
    assert(r.subrange(0, prefix.len() as int) =~= prefix);
    assert(r.subrange(r.len() - decimal(seq).len(), r.len() as int) =~= decimal(seq));
}

} // verus!
