//! What holds of the text of every message.

use crate::client::{
    cancelled_params, cancelled_text, elicitation_text, method_not_found_text, ElicitationOutcome,
    CANCELLED_METHOD,
};
use crate::json::{
    int_text, lemma_int_text, lemma_int_text_prefix, lemma_string_text, lemma_string_text_prefix,
    one_line, string_text,
};
use crate::messages::{
    error_response_text, id_text, notification_text, ok_response_text, params_text, request_text,
    RequestIdView, INTERNAL_ERROR, INVALID_PARAMS, JSON_RPC_VERSION, METHOD_NOT_FOUND,
};
use vstd::prelude::*;

verus! {

proof fn lemma_cancel_front(a: Seq<char>, x: Seq<char>, y: Seq<char>)
    requires
        a + x == a + y,
    ensures
        x == y,
{
    assert(x =~= (a + x).skip(a.len() as int));
    assert(y =~= (a + y).skip(a.len() as int));
}

proof fn lemma_cancel_back(x: Seq<char>, y: Seq<char>, a: Seq<char>)
    requires
        x + a == y + a,
    ensures
        x == y,
{
    assert((x + a).len() == (y + a).len());
    assert(x =~= (x + a).take(x.len() as int));
    assert(y =~= (y + a).take(y.len() as int));
}

/// The text of an id with a comma or a brace after it says which id it is, and
/// what follows it.
proof fn lemma_id_text_prefix(i: RequestIdView, j: RequestIdView, x: Seq<char>, y: Seq<char>)
    requires
        id_text(i) + x == id_text(j) + y,
        x.len() > 0 && (x[0] == ',' || x[0] == '}'),
        y.len() > 0 && (y[0] == ',' || y[0] == '}'),
    ensures
        i == j,
        x == y,
{
    let a = id_text(i) + x;
    let b = id_text(j) + y;
    match i {
        RequestIdView::Int(m) => {
            lemma_int_text(m as int);
            assert(a[0] == int_text(m as int)[0]);
        },
        RequestIdView::Str(s) => {
            lemma_string_text(s);
            assert(a[0] == string_text(s)[0]);
        },
    }
    match j {
        RequestIdView::Int(n) => {
            lemma_int_text(n as int);
            assert(b[0] == int_text(n as int)[0]);
        },
        RequestIdView::Str(t) => {
            lemma_string_text(t);
            assert(b[0] == string_text(t)[0]);
        },
    }
    match (i, j) {
        (RequestIdView::Int(m), RequestIdView::Int(n)) => {
            lemma_int_text_prefix(m as int, n as int, x, y);
        },
        (RequestIdView::Str(s), RequestIdView::Str(t)) => {
            lemma_string_text_prefix(s, t, x, y);
        },
        _ => {},
    }
}

/// The text of a request says all that the request does: two requests with the
/// same text have the same version, id, method and parameters.
pub proof fn law_request_text_is_readable(
    jsonrpc1: Seq<char>,
    id1: RequestIdView,
    method1: Seq<char>,
    params1: Seq<char>,
    jsonrpc2: Seq<char>,
    id2: RequestIdView,
    method2: Seq<char>,
    params2: Seq<char>,
)
    requires
        request_text(jsonrpc1, id1, method1, params1) == request_text(
            jsonrpc2,
            id2,
            method2,
            params2,
        ),
    ensures
        jsonrpc1 == jsonrpc2,
        id1 == id2,
        method1 == method2,
        params1 == params2,
{
    reveal_strlit(",\"id\":");
    reveal_strlit(",\"method\":");
    reveal_strlit(",\"params\":");
    reveal_strlit("}");
    let e1 = string_text(method1) + params_text(params1);
    let e2 = string_text(method2) + params_text(params2);
    let d1 = ",\"method\":"@ + e1;
    let d2 = ",\"method\":"@ + e2;
    let c1 = id_text(id1) + d1;
    let c2 = id_text(id2) + d2;
    let b1 = ",\"id\":"@ + c1;
    let b2 = ",\"id\":"@ + c2;
    lemma_cancel_front("{\"jsonrpc\":"@, string_text(jsonrpc1) + b1, string_text(jsonrpc2) + b2);
    lemma_string_text_prefix(jsonrpc1, jsonrpc2, b1, b2);
    lemma_cancel_front(",\"id\":"@, c1, c2);
    lemma_id_text_prefix(id1, id2, d1, d2);
    lemma_cancel_front(",\"method\":"@, e1, e2);
    lemma_string_text_prefix(method1, method2, params_text(params1), params_text(params2));
    assert(params_text(params1)[0] == params_text(params2)[0]);
    if params1 != "null"@ {
        lemma_cancel_front(",\"params\":"@, params1 + "}"@, params2 + "}"@);
        lemma_cancel_back(params1, params2, "}"@);
    }
}

/// The text of a notification says all that the notification does: two
/// notifications with the same text have the same version, method and
/// parameters.
pub proof fn law_notification_text_is_readable(
    jsonrpc1: Seq<char>,
    method1: Seq<char>,
    params1: Seq<char>,
    jsonrpc2: Seq<char>,
    method2: Seq<char>,
    params2: Seq<char>,
)
    requires
        notification_text(jsonrpc1, method1, params1) == notification_text(
            jsonrpc2,
            method2,
            params2,
        ),
    ensures
        jsonrpc1 == jsonrpc2,
        method1 == method2,
        params1 == params2,
{
    let d1 = ",\"params\":"@ + (params1 + "}"@);
    let d2 = ",\"params\":"@ + (params2 + "}"@);
    let c1 = string_text(method1) + d1;
    let c2 = string_text(method2) + d2;
    let b1 = ",\"method\":"@ + c1;
    let b2 = ",\"method\":"@ + c2;
    lemma_cancel_front("{\"jsonrpc\":"@, string_text(jsonrpc1) + b1, string_text(jsonrpc2) + b2);
    lemma_string_text_prefix(jsonrpc1, jsonrpc2, b1, b2);
    lemma_cancel_front(",\"method\":"@, c1, c2);
    lemma_string_text_prefix(method1, method2, d1, d2);
    lemma_cancel_front(",\"params\":"@, params1 + "}"@, params2 + "}"@);
    lemma_cancel_back(params1, params2, "}"@);
}

/// What follows the version in a response to request `id`.
spec fn response_rest(id: RequestIdView, rest: Seq<char>) -> Seq<char> {
    ",\"id\":"@ + (id_text(id) + rest)
}

proof fn lemma_response_id(id1: RequestIdView, rest1: Seq<char>, id2: RequestIdView, rest2: Seq<
    char,
>)
    requires
        "{\"jsonrpc\":"@ + (string_text(JSON_RPC_VERSION@) + response_rest(id1, rest1))
            == "{\"jsonrpc\":"@ + (string_text(JSON_RPC_VERSION@) + response_rest(id2, rest2)),
        rest1.len() > 0 && rest1[0] == ',',
        rest2.len() > 0 && rest2[0] == ',',
    ensures
        id1 == id2,
        rest1 == rest2,
{
    let b1 = response_rest(id1, rest1);
    let b2 = response_rest(id2, rest2);
    lemma_cancel_front(
        "{\"jsonrpc\":"@,
        string_text(JSON_RPC_VERSION@) + b1,
        string_text(JSON_RPC_VERSION@) + b2,
    );
    lemma_cancel_front(string_text(JSON_RPC_VERSION@), b1, b2);
    lemma_cancel_front(",\"id\":"@, id_text(id1) + rest1, id_text(id2) + rest2);
    lemma_id_text_prefix(id1, id2, rest1, rest2);
}

/// The text of a response with a result says to which request it belongs and
/// what the result is.
pub proof fn law_ok_response_is_readable(
    id1: RequestIdView,
    result1: Seq<char>,
    id2: RequestIdView,
    result2: Seq<char>,
)
    requires
        ok_response_text(id1, result1) == ok_response_text(id2, result2),
    ensures
        id1 == id2,
        result1 == result2,
{
    reveal_strlit(",\"result\":");
    let r1 = ",\"result\":"@ + (result1 + "}"@);
    let r2 = ",\"result\":"@ + (result2 + "}"@);
    lemma_response_id(id1, r1, id2, r2);
    lemma_cancel_front(",\"result\":"@, result1 + "}"@, result2 + "}"@);
    lemma_cancel_back(result1, result2, "}"@);
}

/// The text of a response with an error says to which request it belongs, and
/// the error's code and message.
pub proof fn law_error_response_is_readable(
    id1: RequestIdView,
    code1: i32,
    message1: Seq<char>,
    id2: RequestIdView,
    code2: i32,
    message2: Seq<char>,
)
    requires
        error_response_text(id1, code1, message1) == error_response_text(id2, code2, message2),
    ensures
        id1 == id2,
        code1 == code2,
        message1 == message2,
{
    reveal_strlit(",\"error\":{\"code\":");
    reveal_strlit(",\"message\":");
    let m1 = ",\"message\":"@ + (string_text(message1) + "}}"@);
    let m2 = ",\"message\":"@ + (string_text(message2) + "}}"@);
    let c1 = int_text(code1 as int) + m1;
    let c2 = int_text(code2 as int) + m2;
    let e1 = ",\"error\":{\"code\":"@ + c1;
    let e2 = ",\"error\":{\"code\":"@ + c2;
    lemma_response_id(id1, e1, id2, e2);
    lemma_cancel_front(",\"error\":{\"code\":"@, c1, c2);
    lemma_int_text_prefix(code1 as int, code2 as int, m1, m2);
    lemma_cancel_front(
        ",\"message\":"@,
        string_text(message1) + "}}"@,
        string_text(message2) + "}}"@,
    );
    lemma_string_text_prefix(message1, message2, "}}"@, "}}"@);
}

/// A response with a result is never one with an error.
pub proof fn law_ok_is_no_error(
    id1: RequestIdView,
    result: Seq<char>,
    id2: RequestIdView,
    code: i32,
    message: Seq<char>,
)
    ensures
        ok_response_text(id1, result) != error_response_text(id2, code, message),
{
    reveal_strlit(",\"result\":");
    reveal_strlit(",\"error\":{\"code\":");
    let r = ",\"result\":"@ + (result + "}"@);
    let e = ",\"error\":{\"code\":"@ + (int_text(code as int) + (",\"message\":"@ + (string_text(
        message,
    ) + "}}"@)));
    if ok_response_text(id1, result) == error_response_text(id2, code, message) {
        lemma_response_id(id1, r, id2, e);
        assert(r[2] == e[2]);
    }
}

/// A request is never a notification, and never a response: the server can tell
/// which messages wait for an answer.
pub proof fn law_request_is_nothing_else(
    id1: RequestIdView,
    method1: Seq<char>,
    params1: Seq<char>,
    id2: RequestIdView,
    method2: Seq<char>,
    params2: Seq<char>,
    result: Seq<char>,
    code: i32,
    message: Seq<char>,
)
    ensures
        request_text(JSON_RPC_VERSION@, id1, method1, params1) != notification_text(
            JSON_RPC_VERSION@,
            method2,
            params2,
        ),
        request_text(JSON_RPC_VERSION@, id1, method1, params1) != ok_response_text(id2, result),
        request_text(JSON_RPC_VERSION@, id1, method1, params1) != error_response_text(
            id2,
            code,
            message,
        ),
{
    reveal_strlit(",\"id\":");
    reveal_strlit(",\"method\":");
    reveal_strlit(",\"result\":");
    reveal_strlit(",\"error\":{\"code\":");
    let d1 = ",\"method\":"@ + (string_text(method1) + params_text(params1));
    let b1 = ",\"id\":"@ + (id_text(id1) + d1);
    let b2 = ",\"method\":"@ + (string_text(method2) + (",\"params\":"@ + (params2 + "}"@)));
    if request_text(JSON_RPC_VERSION@, id1, method1, params1) == notification_text(
        JSON_RPC_VERSION@,
        method2,
        params2,
    ) {
        lemma_cancel_front(
            "{\"jsonrpc\":"@,
            string_text(JSON_RPC_VERSION@) + b1,
            string_text(JSON_RPC_VERSION@) + b2,
        );
        lemma_cancel_front(string_text(JSON_RPC_VERSION@), b1, b2);
        assert(b1[2] == b2[2]);
    }
    let r = ",\"result\":"@ + (result + "}"@);
    if request_text(JSON_RPC_VERSION@, id1, method1, params1) == ok_response_text(id2, result) {
        lemma_response_id(id1, d1, id2, r);
        assert(d1[2] == r[2]);
    }
    let e = ",\"error\":{\"code\":"@ + (int_text(code as int) + (",\"message\":"@ + (string_text(
        message,
    ) + "}}"@)));
    if request_text(JSON_RPC_VERSION@, id1, method1, params1) == error_response_text(
        id2,
        code,
        message,
    ) {
        lemma_response_id(id1, d1, id2, e);
        assert(d1[2] == e[2]);
    }
}

/// The reply to a method that nobody handles says which request it is the reply
/// to, and which method that asked for.
pub proof fn law_method_not_found_is_readable(
    id1: RequestIdView,
    method1: Seq<char>,
    id2: RequestIdView,
    method2: Seq<char>,
)
    requires
        method_not_found_text(id1, method1) == method_not_found_text(id2, method2),
    ensures
        id1 == id2,
        method1 == method2,
{
    law_error_response_is_readable(
        id1,
        METHOD_NOT_FOUND,
        "Method not found: "@ + method1,
        id2,
        METHOD_NOT_FOUND,
        "Method not found: "@ + method2,
    );
    lemma_cancel_front("Method not found: "@, method1, method2);
}

/// However a question to the user comes out, the reply says which request it is
/// the reply to.
pub proof fn law_elicitation_reply_names_the_request(
    id1: RequestIdView,
    outcome1: ElicitationOutcome,
    id2: RequestIdView,
    outcome2: ElicitationOutcome,
)
    requires
        elicitation_text(id1, outcome1) == elicitation_text(id2, outcome2),
    ensures
        id1 == id2,
{
    reveal_strlit(",\"result\":");
    reveal_strlit(",\"error\":{\"code\":");
    lemma_response_id(
        id1,
        elicitation_rest(outcome1),
        id2,
        elicitation_rest(outcome2),
    );
}

/// What follows the id in the reply to a question to the user.
spec fn elicitation_rest(outcome: ElicitationOutcome) -> Seq<char> {
    match outcome {
        ElicitationOutcome::InvalidParams(error) => ",\"error\":{\"code\":"@ + (int_text(
            INVALID_PARAMS as int,
        ) + (",\"message\":"@ + (string_text("Invalid elicitation/create params: "@ + error@)
            + "}}"@))),
        ElicitationOutcome::Answered(response) => ",\"result\":"@ + (response@ + "}"@),
        ElicitationOutcome::Failed(error) => ",\"error\":{\"code\":"@ + (int_text(
            INTERNAL_ERROR as int,
        ) + (",\"message\":"@ + (string_text("Elicitation handler failed: "@ + error@)
            + "}}"@))),
    }
}

/// The notification that a request was given up says which one.
pub proof fn law_cancellation_names_the_request(id1: i32, id2: i32)
    requires
        cancelled_text(id1) == cancelled_text(id2),
    ensures
        id1 == id2,
{
    law_notification_text_is_readable(
        JSON_RPC_VERSION@,
        CANCELLED_METHOD@,
        cancelled_params(id1),
        JSON_RPC_VERSION@,
        CANCELLED_METHOD@,
        cancelled_params(id2),
    );
    reveal_strlit("}");
    lemma_cancel_front(
        "{\"requestId\":"@,
        id_text(RequestIdView::Int(id1)) + "}"@,
        id_text(RequestIdView::Int(id2)) + "}"@,
    );
    lemma_id_text_prefix(RequestIdView::Int(id1), RequestIdView::Int(id2), "}"@, "}"@);
}

proof fn lemma_one_line_concat(a: Seq<char>, b: Seq<char>)
    requires
        one_line(a),
        one_line(b),
    ensures
        one_line(a + b),
{
}

proof fn lemma_id_text_one_line(id: RequestIdView)
    ensures
        one_line(id_text(id)),
{
    match id {
        RequestIdView::Int(n) => lemma_int_text(n as int),
        RequestIdView::Str(s) => lemma_string_text(s),
    }
}

/// A request stands on one line if its parameters do, whatever its id and its
/// method hold.
pub proof fn law_request_on_one_line(
    jsonrpc: Seq<char>,
    id: RequestIdView,
    method: Seq<char>,
    params: Seq<char>,
)
    requires
        one_line(params),
    ensures
        one_line(request_text(jsonrpc, id, method, params)),
{
    reveal_strlit("{\"jsonrpc\":");
    reveal_strlit(",\"id\":");
    reveal_strlit(",\"method\":");
    reveal_strlit(",\"params\":");
    reveal_strlit("}");
    lemma_string_text(jsonrpc);
    lemma_id_text_one_line(id);
    lemma_string_text(method);
    lemma_one_line_concat(params, "}"@);
    lemma_one_line_concat(",\"params\":"@, params + "}"@);
    let e = string_text(method) + params_text(params);
    lemma_one_line_concat(string_text(method), params_text(params));
    lemma_one_line_concat(",\"method\":"@, e);
    let d = ",\"method\":"@ + e;
    lemma_one_line_concat(id_text(id), d);
    let c = id_text(id) + d;
    lemma_one_line_concat(",\"id\":"@, c);
    let b = ",\"id\":"@ + c;
    lemma_one_line_concat(string_text(jsonrpc), b);
    lemma_one_line_concat("{\"jsonrpc\":"@, string_text(jsonrpc) + b);
}

/// A notification stands on one line if its parameters do, whatever its method
/// holds.
pub proof fn law_notification_on_one_line(
    jsonrpc: Seq<char>,
    method: Seq<char>,
    params: Seq<char>,
)
    requires
        one_line(params),
    ensures
        one_line(notification_text(jsonrpc, method, params)),
{
    reveal_strlit("{\"jsonrpc\":");
    reveal_strlit(",\"method\":");
    reveal_strlit(",\"params\":");
    reveal_strlit("}");
    lemma_string_text(jsonrpc);
    lemma_string_text(method);
    lemma_one_line_concat(params, "}"@);
    lemma_one_line_concat(",\"params\":"@, params + "}"@);
    let d = ",\"params\":"@ + (params + "}"@);
    lemma_one_line_concat(string_text(method), d);
    let c = string_text(method) + d;
    lemma_one_line_concat(",\"method\":"@, c);
    let b = ",\"method\":"@ + c;
    lemma_one_line_concat(string_text(jsonrpc), b);
    lemma_one_line_concat("{\"jsonrpc\":"@, string_text(jsonrpc) + b);
}

proof fn lemma_response_one_line(id: RequestIdView, rest: Seq<char>)
    requires
        one_line(rest),
    ensures
        one_line(
            "{\"jsonrpc\":"@ + (string_text(JSON_RPC_VERSION@) + response_rest(id, rest)),
        ),
{
    reveal_strlit("{\"jsonrpc\":");
    reveal_strlit(",\"id\":");
    lemma_string_text(JSON_RPC_VERSION@);
    lemma_id_text_one_line(id);
    lemma_one_line_concat(id_text(id), rest);
    lemma_one_line_concat(",\"id\":"@, id_text(id) + rest);
    lemma_one_line_concat(string_text(JSON_RPC_VERSION@), response_rest(id, rest));
    lemma_one_line_concat(
        "{\"jsonrpc\":"@,
        string_text(JSON_RPC_VERSION@) + response_rest(id, rest),
    );
}

/// A response with a result stands on one line if the result does.
pub proof fn law_ok_response_on_one_line(id: RequestIdView, result: Seq<char>)
    requires
        one_line(result),
    ensures
        one_line(ok_response_text(id, result)),
{
    reveal_strlit(",\"result\":");
    reveal_strlit("}");
    lemma_one_line_concat(result, "}"@);
    lemma_one_line_concat(",\"result\":"@, result + "}"@);
    lemma_response_one_line(id, ",\"result\":"@ + (result + "}"@));
}

/// A response with an error stands on one line, whatever its message holds.
pub proof fn law_error_response_on_one_line(id: RequestIdView, code: i32, message: Seq<char>)
    ensures
        one_line(error_response_text(id, code, message)),
{
    reveal_strlit(",\"error\":{\"code\":");
    reveal_strlit(",\"message\":");
    reveal_strlit("}}");
    lemma_int_text(code as int);
    lemma_string_text(message);
    lemma_one_line_concat(string_text(message), "}}"@);
    let m = ",\"message\":"@ + (string_text(message) + "}}"@);
    lemma_one_line_concat(",\"message\":"@, string_text(message) + "}}"@);
    lemma_one_line_concat(int_text(code as int), m);
    let c = int_text(code as int) + m;
    lemma_one_line_concat(",\"error\":{\"code\":"@, c);
    lemma_response_one_line(id, ",\"error\":{\"code\":"@ + c);
}

} // verus!
