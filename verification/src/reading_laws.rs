//! What a reader finds in each message that is sent.

use crate::client::{
    cancelled_text, elicitation_text, method_not_found_text, ClientView, ElicitationOutcome,
    RequestEvent,
};
use crate::json::{int_text, string_text};
use crate::message_laws::law_ok_response_is_readable;
use crate::messages::{
    error_response_text, id_text, notification_text, ok_response_text, request_text, RequestIdView,
    INTERNAL_ERROR, INVALID_PARAMS, METHOD_NOT_FOUND,
};
use crate::reading::{
    is_front, is_plain, is_token, lemma_int_token, lemma_object_token, lemma_reads_last,
    lemma_reads_more, lemma_reads_object, lemma_string_token, lemma_walk_brace, lemma_walk_last, read_object, reads, Member,
};
use vstd::prelude::*;

verus! {

proof fn lemma_front(front: Seq<char>, name: Seq<char>)
    requires
        front.len() == name.len() + 4,
        front[1] == '"',
        forall|i: int| 0 <= i < name.len() ==> front[i + 2] == #[trigger] name[i],
        front[name.len() as int + 2] == '"',
        front[name.len() as int + 3] == ':',
    ensures
        is_front(front, name),
{
    let quoted = seq!['"'] + name + seq!['"', ':'];
    assert forall|i: int| 0 <= i < quoted.len() implies front.skip(1)[i] == #[trigger] quoted[i] by {
        if 1 <= i < name.len() + 1 {
            assert(quoted[i] == name[i - 1]);
        }
    }
    assert(front.skip(1) =~= quoted);
}

proof fn lemma_fronts()
    ensures
        is_front("{\"jsonrpc\":"@, "jsonrpc"@),
        is_front(",\"id\":"@, "id"@),
        is_front(",\"method\":"@, "method"@),
        is_front(",\"params\":"@, "params"@),
        is_front(",\"result\":"@, "result"@),
        is_front(",\"error\":"@, "error"@),
        is_front("{\"code\":"@, "code"@),
        is_front(",\"message\":"@, "message"@),
        is_front("{\"requestId\":"@, "requestId"@),
        is_plain("jsonrpc"@),
        is_plain("id"@),
        is_plain("method"@),
        is_plain("params"@),
        is_plain("result"@),
        is_plain("error"@),
        is_plain("code"@),
        is_plain("message"@),
        is_plain("requestId"@),
        "{\"jsonrpc\":"@[0] == '{',
        ",\"id\":"@[0] == ',',
        ",\"method\":"@[0] == ',',
        ",\"params\":"@[0] == ',',
        ",\"result\":"@[0] == ',',
        ",\"error\":"@[0] == ',',
        "{\"code\":"@[0] == '{',
        ",\"message\":"@[0] == ',',
        "{\"requestId\":"@[0] == '{',
        "}"@ == seq!['}'],
{
    reveal_strlit("{\"jsonrpc\":");
    reveal_strlit(",\"id\":");
    reveal_strlit(",\"method\":");
    reveal_strlit(",\"params\":");
    reveal_strlit(",\"result\":");
    reveal_strlit(",\"error\":");
    reveal_strlit("{\"code\":");
    reveal_strlit(",\"message\":");
    reveal_strlit("{\"requestId\":");
    reveal_strlit("jsonrpc");
    reveal_strlit("id");
    reveal_strlit("method");
    reveal_strlit("params");
    reveal_strlit("result");
    reveal_strlit("error");
    reveal_strlit("code");
    reveal_strlit("message");
    reveal_strlit("requestId");
    reveal_strlit("}");
    lemma_front("{\"jsonrpc\":"@, "jsonrpc"@);
    lemma_front(",\"id\":"@, "id"@);
    lemma_front(",\"method\":"@, "method"@);
    lemma_front(",\"params\":"@, "params"@);
    lemma_front(",\"result\":"@, "result"@);
    lemma_front(",\"error\":"@, "error"@);
    lemma_front("{\"code\":"@, "code"@);
    lemma_front(",\"message\":"@, "message"@);
    lemma_front("{\"requestId\":"@, "requestId"@);
    assert("}"@ =~= seq!['}']);
}

/// A reader finds the first two members of an object, and then the others.
proof fn lemma_chain(
    front0: Seq<char>,
    front1: Seq<char>,
    tail: Seq<char>,
    m0: Member,
    m1: Member,
    more: Seq<Member>,
)
    requires
        is_front(front0, m0.name),
        front0[0] == '{',
        is_plain(m0.name),
        is_token(m0.value),
        is_front(front1, m1.name),
        front1[0] == ',',
        is_plain(m1.name),
        is_token(m1.value),
        tail.len() > 0 && tail[0] == ',',
        reads(tail, more),
    ensures
        read_object(front0 + (m0.value + (front1 + (m1.value + tail)))) == Some(seq![m0, m1] + more),
{
    let rest = front1 + (m1.value + tail);
    lemma_reads_more(front1, m1.name, m1.value, tail, more);
    lemma_reads_more(front0, m0.name, m0.value, rest, seq![m1] + more);
    lemma_reads_object(front0 + (m0.value + rest), seq![m0] + (seq![m1] + more));
    assert(seq![m0] + (seq![m1] + more) =~= seq![m0, m1] + more);
}

proof fn lemma_id_token(id: RequestIdView)
    ensures
        is_token(id_text(id)),
        id_text(id) == (match id {
            RequestIdView::Int(n) => int_text(n as int),
            RequestIdView::Str(s) => string_text(s),
        }),
{
    match id {
        RequestIdView::Int(n) => lemma_int_token(n as int),
        RequestIdView::Str(s) => lemma_string_token(s),
    }
}

/// Whoever reads a request finds the version under `jsonrpc`, the id under `id`,
/// as a number or as a string, the method under `method` and, unless they are
/// null, the parameters under `params`, as they are, and nothing else.
pub proof fn law_request_reads_back(
    jsonrpc: Seq<char>,
    id: RequestIdView,
    method: Seq<char>,
    params: Seq<char>,
)
    requires
        is_token(params),
    ensures
        read_object(request_text(jsonrpc, id, method, params)) == Some(
            seq![
                Member { name: "jsonrpc"@, value: string_text(jsonrpc) },
                Member {
                    name: "id"@,
                    value: match id {
                        RequestIdView::Int(n) => int_text(n as int),
                        RequestIdView::Str(s) => string_text(s),
                    },
                },
                Member { name: "method"@, value: string_text(method) },
            ] + (if params == "null"@ {
                Seq::empty()
            } else {
                seq![Member { name: "params"@, value: params }]
            }),
        ),
{
    lemma_fronts();
    lemma_string_token(jsonrpc);
    lemma_id_token(id);
    lemma_string_token(method);
    let m0 = Member { name: "jsonrpc"@, value: string_text(jsonrpc) };
    let m1 = Member { name: "id"@, value: id_text(id) };
    let m2 = Member { name: "method"@, value: string_text(method) };
    let m3 = Member { name: "params"@, value: params };
    let close = "}"@;
    let d = if params == "null"@ {
        close
    } else {
        ",\"params\":"@ + (params + close)
    };
    let c = ",\"method\":"@ + (string_text(method) + d);
    let b = ",\"id\":"@ + (id_text(id) + c);
    let text = "{\"jsonrpc\":"@ + (string_text(jsonrpc) + b);
    if params == "null"@ {
        lemma_reads_last(",\"method\":"@, "method"@, string_text(method));
        lemma_chain("{\"jsonrpc\":"@, ",\"id\":"@, c, m0, m1, seq![m2]);
        assert(seq![m0, m1] + seq![m2] =~= seq![m0, m1, m2] + Seq::empty());
    } else {
        lemma_reads_last(",\"params\":"@, "params"@, params);
        lemma_reads_more(",\"method\":"@, "method"@, string_text(method), d, seq![m3]);
        lemma_chain("{\"jsonrpc\":"@, ",\"id\":"@, c, m0, m1, seq![m2] + seq![m3]);
        assert(seq![m0, m1] + (seq![m2] + seq![m3]) =~= seq![m0, m1, m2] + seq![m3]);
    }
    assert(request_text(jsonrpc, id, method, params) == text);
}

/// Behind the method a request holds its parameters under `params` and the
/// closing brace, whatever text the parameters are; null parameters are left out.
pub proof fn law_request_ends_with_its_parameters(
    jsonrpc: Seq<char>,
    id: RequestIdView,
    method: Seq<char>,
    params: Seq<char>,
)
    ensures
        ({
            let text = request_text(jsonrpc, id, method, params);
            let end = string_text(method) + (if params == "null"@ {
                seq!['}']
            } else {
                seq![',', '"', 'p', 'a', 'r', 'a', 'm', 's', '"', ':'] + params + seq!['}']
            });
            text.len() >= end.len() && text.skip(text.len() - end.len()) == end
        }),
{
    reveal_strlit(",\"params\":");
    reveal_strlit("}");
    let text = request_text(jsonrpc, id, method, params);
    let front = "{\"jsonrpc\":"@ + string_text(jsonrpc) + ",\"id\":"@ + id_text(id)
        + ",\"method\":"@;
    let rest = if params == "null"@ {
        seq!['}']
    } else {
        seq![',', '"', 'p', 'a', 'r', 'a', 'm', 's', '"', ':'] + params + seq!['}']
    };
    let end = string_text(method) + rest;
    assert(",\"params\":"@ =~= seq![',', '"', 'p', 'a', 'r', 'a', 'm', 's', '"', ':']);
    assert("}"@ =~= seq!['}']);
    assert(",\"params\":"@ + (params + "}"@) =~= ",\"params\":"@ + params + "}"@);
    assert(text =~= front + end);
    assert(text.skip(text.len() - end.len()) =~= end);
}

/// Whoever reads a notification finds the version under `jsonrpc`, the method
/// under `method` and the parameters under `params`, as they are, and nothing
/// else.
pub proof fn law_notification_reads_back(
    jsonrpc: Seq<char>,
    method: Seq<char>,
    params: Seq<char>,
)
    requires
        is_token(params),
    ensures
        read_object(notification_text(jsonrpc, method, params)) == Some(
            seq![
                Member { name: "jsonrpc"@, value: string_text(jsonrpc) },
                Member { name: "method"@, value: string_text(method) },
                Member { name: "params"@, value: params },
            ],
        ),
{
    lemma_fronts();
    lemma_string_token(jsonrpc);
    lemma_string_token(method);
    let m0 = Member { name: "jsonrpc"@, value: string_text(jsonrpc) };
    let m1 = Member { name: "method"@, value: string_text(method) };
    let m2 = Member { name: "params"@, value: params };
    let c = ",\"params\":"@ + (params + "}"@);
    lemma_reads_last(",\"params\":"@, "params"@, params);
    lemma_chain("{\"jsonrpc\":"@, ",\"method\":"@, c, m0, m1, seq![m2]);
    assert(seq![m0, m1] + seq![m2] =~= seq![m0, m1, m2]);
}

/// Behind the method a notification holds its parameters under `params` and the
/// closing brace, whatever text the parameters are.
pub proof fn law_notification_ends_with_its_parameters(
    jsonrpc: Seq<char>,
    method: Seq<char>,
    params: Seq<char>,
)
    ensures
        ({
            let text = notification_text(jsonrpc, method, params);
            let end = string_text(method) + (seq![
                ',',
                '"',
                'p',
                'a',
                'r',
                'a',
                'm',
                's',
                '"',
                ':',
            ] + params + seq!['}']);
            text.len() >= end.len() && text.skip(text.len() - end.len()) == end
        }),
{
    reveal_strlit(",\"params\":");
    reveal_strlit("}");
    let text = notification_text(jsonrpc, method, params);
    let front = "{\"jsonrpc\":"@ + string_text(jsonrpc) + ",\"method\":"@;
    let end = string_text(method) + (seq![',', '"', 'p', 'a', 'r', 'a', 'm', 's', '"', ':']
        + params + seq!['}']);
    assert(",\"params\":"@ =~= seq![',', '"', 'p', 'a', 'r', 'a', 'm', 's', '"', ':']);
    assert("}"@ =~= seq!['}']);
    assert(",\"params\":"@ + (params + "}"@) =~= ",\"params\":"@ + params + "}"@);
    assert(text =~= front + end);
    assert(text.skip(text.len() - end.len()) =~= end);
}

/// Whoever reads a response with a result finds version 2.0 under `jsonrpc`, the
/// id of the request under `id` and the result under `result`, as it is, and
/// nothing else.
pub proof fn law_ok_response_reads_back(id: RequestIdView, result: Seq<char>)
    requires
        is_token(result),
    ensures
        read_object(ok_response_text(id, result)) == Some(
            seq![
                Member { name: "jsonrpc"@, value: string_text("2.0"@) },
                Member {
                    name: "id"@,
                    value: match id {
                        RequestIdView::Int(n) => int_text(n as int),
                        RequestIdView::Str(s) => string_text(s),
                    },
                },
                Member { name: "result"@, value: result },
            ],
        ),
{
    lemma_fronts();
    lemma_string_token("2.0"@);
    lemma_id_token(id);
    let m0 = Member { name: "jsonrpc"@, value: string_text("2.0"@) };
    let m1 = Member { name: "id"@, value: id_text(id) };
    let m2 = Member { name: "result"@, value: result };
    let c = ",\"result\":"@ + (result + "}"@);
    lemma_reads_last(",\"result\":"@, "result"@, result);
    lemma_chain("{\"jsonrpc\":"@, ",\"id\":"@, c, m0, m1, seq![m2]);
    assert(seq![m0, m1] + seq![m2] =~= seq![m0, m1, m2]);
}

/// Behind the id a response holds its result under `result` and the closing
/// brace, whatever text the result is.
pub proof fn law_ok_response_ends_with_its_result(id: RequestIdView, result: Seq<char>)
    ensures
        ({
            let text = ok_response_text(id, result);
            let end = (match id {
                RequestIdView::Int(n) => int_text(n as int),
                RequestIdView::Str(s) => string_text(s),
            }) + (seq![',', '"', 'r', 'e', 's', 'u', 'l', 't', '"', ':'] + result + seq!['}']);
            text.len() >= end.len() && text.skip(text.len() - end.len()) == end
        }),
{
    reveal_strlit(",\"result\":");
    reveal_strlit("}");
    let text = ok_response_text(id, result);
    let front = "{\"jsonrpc\":"@ + string_text("2.0"@) + ",\"id\":"@;
    let end = id_text(id) + (seq![',', '"', 'r', 'e', 's', 'u', 'l', 't', '"', ':'] + result
        + seq!['}']);
    assert(",\"result\":"@ =~= seq![',', '"', 'r', 'e', 's', 'u', 'l', 't', '"', ':']);
    assert("}"@ =~= seq!['}']);
    assert(",\"result\":"@ + (result + "}"@) =~= ",\"result\":"@ + result + "}"@);
    assert(text =~= front + end);
    assert(text.skip(text.len() - end.len()) =~= end);
}

/// Whether a text is read as a response that reports this error to this request:
/// version 2.0 under `jsonrpc`, the id under `id` and, under `error`, an object
/// with the code under `code` and the message under `message`.
pub open spec fn reads_as_error(
    text: Seq<char>,
    id: RequestIdView,
    code: int,
    message: Seq<char>,
) -> bool {
    &&& read_object(text) matches Some(members)
    &&& members.len() == 3
    &&& members[0] == (Member { name: "jsonrpc"@, value: string_text("2.0"@) })
    &&& members[1].name == "id"@
    &&& members[1].value == (match id {
        RequestIdView::Int(n) => int_text(n as int),
        RequestIdView::Str(s) => string_text(s),
    })
    &&& members[2].name == "error"@
    &&& read_object(members[2].value) == Some(
        seq![
            Member { name: "code"@, value: int_text(code) },
            Member { name: "message"@, value: string_text(message) },
        ],
    )
}

/// Whoever reads a response with an error finds the id of the request, and the
/// error's code and message, each in its place.
pub proof fn law_error_response_reads_back(id: RequestIdView, code: i32, message: Seq<char>)
    ensures
        reads_as_error(error_response_text(id, code, message), id, code as int, message),
{
    lemma_fronts();
    lemma_string_token("2.0"@);
    lemma_id_token(id);
    lemma_int_token(code as int);
    lemma_string_token(message);
    let n = int_text(code as int);
    let words = string_text(message);
    let e0 = Member { name: "code"@, value: n };
    let e1 = Member { name: "message"@, value: words };
    let m = ",\"message\":"@ + (words + "}"@);
    let error = "{\"code\":"@ + (n + m);
    lemma_walk_last(",\"message\":"@, "message"@, words);
    lemma_object_token("{\"code\":"@, "code"@, n, m);
    lemma_reads_last(",\"message\":"@, "message"@, words);
    lemma_reads_more("{\"code\":"@, "code"@, n, m, seq![e1]);
    lemma_reads_object(error, seq![e0] + seq![e1]);
    assert(seq![e0] + seq![e1] =~= seq![e0, e1]);
    let m0 = Member { name: "jsonrpc"@, value: string_text("2.0"@) };
    let m1 = Member { name: "id"@, value: id_text(id) };
    let m2 = Member { name: "error"@, value: error };
    let c = ",\"error\":"@ + (error + "}"@);
    lemma_reads_last(",\"error\":"@, "error"@, error);
    lemma_chain("{\"jsonrpc\":"@, ",\"id\":"@, c, m0, m1, seq![m2]);
    assert(seq![m0, m1] + seq![m2] =~= seq![m0, m1, m2]);
    lemma_error_regroup(n, words);
}

proof fn lemma_error_regroup(n: Seq<char>, words: Seq<char>)
    ensures
        ",\"error\":"@ + (("{\"code\":"@ + (n + (",\"message\":"@ + (words + "}"@)))) + "}"@)
            == ",\"error\":{\"code\":"@ + (n + (",\"message\":"@ + (words + "}}"@))),
{
    reveal_strlit(",\"error\":{\"code\":");
    reveal_strlit(",\"error\":");
    reveal_strlit("{\"code\":");
    reveal_strlit("}");
    reveal_strlit("}}");
    let a = ",\"error\":"@;
    let b = "{\"code\":"@;
    let m = ",\"message\":"@;
    let close = "}"@;
    assert(",\"error\":{\"code\":"@ =~= a + b);
    assert("}}"@ =~= close + close);
    assert(a + ((b + (n + (m + (words + close)))) + close) =~= (a + b) + (n + (m + (words + (close
        + close)))));
}

/// A request for a method that nobody handles is answered, under its id, by the
/// error -32601, which names the method.
pub proof fn law_method_not_found_reads_back(id: RequestIdView, method: Seq<char>)
    ensures
        reads_as_error(
            method_not_found_text(id, method),
            id,
            -32601,
            "Method not found: "@ + method,
        ),
{
    law_error_response_reads_back(id, METHOD_NOT_FOUND, "Method not found: "@ + method);
}

/// A question to the user that was answered is replied to, under its id, with the
/// answer as it is. If the question could not be read, the reply is the error
/// -32602 and, if the handler failed, the error -32603, each with the words that
/// say why.
pub proof fn law_elicitation_reply_reads_back(id: RequestIdView, outcome: ElicitationOutcome)
    ensures
        match outcome {
            ElicitationOutcome::Answered(answer) => is_token(answer@) ==> read_object(
                elicitation_text(id, outcome),
            ) == Some(
                seq![
                    Member { name: "jsonrpc"@, value: string_text("2.0"@) },
                    Member {
                        name: "id"@,
                        value: match id {
                            RequestIdView::Int(n) => int_text(n as int),
                            RequestIdView::Str(s) => string_text(s),
                        },
                    },
                    Member { name: "result"@, value: answer@ },
                ],
            ),
            ElicitationOutcome::InvalidParams(error) => reads_as_error(
                elicitation_text(id, outcome),
                id,
                -32602,
                "Invalid elicitation/create params: "@ + error@,
            ),
            ElicitationOutcome::Failed(error) => reads_as_error(
                elicitation_text(id, outcome),
                id,
                -32603,
                "Elicitation handler failed: "@ + error@,
            ),
        },
{
    match outcome {
        ElicitationOutcome::Answered(answer) => {
            if is_token(answer@) {
                law_ok_response_reads_back(id, answer@);
            }
        },
        ElicitationOutcome::InvalidParams(error) => {
            law_error_response_reads_back(
                id,
                INVALID_PARAMS,
                "Invalid elicitation/create params: "@ + error@,
            );
        },
        ElicitationOutcome::Failed(error) => {
            law_error_response_reads_back(id, INTERNAL_ERROR, "Elicitation handler failed: "@ + error@);
        },
    }
}

/// The reply to a question that was answered is the response to the question's
/// request that carries the answer, whatever text that is. So two answers that
/// are replied to alike are the same answer to the same question.
pub proof fn law_answer_is_passed_on(
    id1: RequestIdView,
    answer1: String,
    id2: RequestIdView,
    answer2: String,
)
    ensures
        elicitation_text(id1, ElicitationOutcome::Answered(answer1)) == ok_response_text(
            id1,
            answer1@,
        ),
        elicitation_text(id1, ElicitationOutcome::Answered(answer1)) == elicitation_text(
            id2,
            ElicitationOutcome::Answered(answer2),
        ) ==> id1 == id2 && answer1@ == answer2@,
{
    if elicitation_text(id1, ElicitationOutcome::Answered(answer1)) == elicitation_text(
        id2,
        ElicitationOutcome::Answered(answer2),
    ) {
        law_ok_response_is_readable(id1, answer1@, id2, answer2@);
    }
}

/// When a request is given up, the server is sent a notification of the method
/// `notifications/cancelled`. Its parameters name, under `requestId`, the id that
/// whoever reads the request finds under `id`.
pub proof fn law_cancellation_reads_back<H, E>(
    client: ClientView<H, E>,
    id: i32,
    method: Seq<char>,
    params: Seq<char>,
)
    requires
        is_token(params),
    ensures
        ({
            let request = request_text("2.0"@, RequestIdView::Int(id), method, params);
            let text = client.finish(id, RequestEvent::CancelRequested).notification->0;
            let members = read_object(text)->0;
            &&& client.finish(id, RequestEvent::CancelRequested).notification is Some
            &&& read_object(text) is Some
            &&& members.len() == 3
            &&& members[0] == (Member { name: "jsonrpc"@, value: string_text("2.0"@) })
            &&& members[1] == (Member {
                name: "method"@,
                value: string_text("notifications/cancelled"@),
            })
            &&& members[2].name == "params"@
            &&& read_object(members[2].value) == Some(
                seq![Member { name: "requestId"@, value: int_text(id as int) }],
            )
            &&& read_object(request)->0[1].name == "id"@
            &&& read_object(request)->0[1].value == read_object(members[2].value)->0[0].value
        }),
{
    lemma_fronts();
    lemma_int_token(id as int);
    let n = int_text(id as int);
    let given_up = "{\"requestId\":"@ + (n + "}"@);
    lemma_walk_brace();
    lemma_object_token("{\"requestId\":"@, "requestId"@, n, "}"@);
    let named = Member { name: "requestId"@, value: n };
    lemma_reads_last("{\"requestId\":"@, "requestId"@, n);
    lemma_reads_object(given_up, seq![named]);
    law_notification_reads_back("2.0"@, "notifications/cancelled"@, given_up);
    law_request_reads_back("2.0"@, RequestIdView::Int(id), method, params);
    assert(cancelled_text(id) == notification_text(
        "2.0"@,
        "notifications/cancelled"@,
        given_up,
    ));
}

} // verus!
