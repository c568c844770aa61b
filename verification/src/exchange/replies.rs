//! What the exchange's answers mean: order identifiers, order lists, balances and failures.
use crate::exchange::orders::{ExecutionError, ExecutionFault, OcoOrderResult, OcoStatus};
use crate::json::{
    document, get_elements, get_i64, get_member_or, get_string, get_u64, json_document, json_u64, member_elements, member_i64,
    member_or, member_string, member_u64, opt_text, unsigned,
};
use crate::text::{i64_text, int_text, same_text, views};
use vstd::prelude::*;

verus! {

/// The model of a result whose error is an execution error.
pub open spec fn outcome<T>(r: Result<T, ExecutionError>) -> Result<T, ExecutionFault> {
    match r {
        Ok(v) => Ok(v),
        Err(e) => Err(e@),
    }
}

/// An error that the exchange answered with.
pub open spec fn exchange_fault(message: Seq<char>) -> ExecutionFault {
    ExecutionFault::ExchangeError { message }
}

/// The error of a request that was answered with a failure: the status, the code (-1 where there
/// is none) and the message (the fallback where there is none).
pub open spec fn http_fault(
    label: Seq<char>,
    status: Seq<char>,
    code: Option<i64>,
    msg: Option<Seq<char>>,
    fallback: Seq<char>,
) -> ExecutionFault {
    exchange_fault(
        label + " HTTP "@ + status + " — code "@ + int_text(
            if code is Some {
                code->0 as int
            } else {
                -1
            },
        ) + ": "@ + if msg is Some {
            msg->0
        } else {
            fallback
        },
    )
}

/// The error of a request that was answered with a failure.
pub fn http_error(
    label: &str,
    status: &str,
    code: Option<i64>,
    msg: Option<String>,
    fallback: &str,
) -> (r: ExecutionError)
    ensures
        r@ == http_fault(label@, status@, code, opt_text(msg), fallback@),
{
    let code: i64 = match code {
        Some(c) => c,
        None => -1,
    };
    let msg = match msg {
        Some(m) => m,
        None => fallback.to_owned(),
    };
    ExecutionError::ExchangeError {
        message: label.to_owned().concat(" HTTP ").concat(status).concat(" — code ").concat(
            i64_text(code).as_str(),
        ).concat(": ").concat(msg.as_str()),
    }
}

/// The error of a request that was answered with a failure, read from the answer's body.
pub fn http_error_of_body(label: &str, status: &str, body: &str, fallback: &str) -> (r:
    ExecutionError)
    ensures
        r@ == http_fault(
            label@,
            status@,
            member_i64(body@, "code"@),
            member_string(body@, "msg"@),
            fallback@,
        ),
{
    let code = get_i64(body, "code");
    let msg = get_string(body, "msg");
    http_error(label, status, code, msg, fallback)
}

/// The identifier of a conditional order in the exchange's answer.
pub open spec fn algo_order_id(body: Seq<char>) -> Option<u64> {
    match member_or(body, "orderId"@, "algoId"@) {
        Some(m) => json_u64(m),
        None => None,
    }
}

/// What an answer to a conditional order means, by what was found in it.
pub open spec fn algo_order_outcome(
    success: bool,
    status: Seq<char>,
    code: Option<i64>,
    msg: Option<Seq<char>>,
    order_id: Option<u64>,
    body: Seq<char>,
) -> Result<u64, ExecutionFault> {
    if !success {
        Err(http_fault("Binance algoOrder"@, status, code, msg, "unknown error"@))
    } else {
        match order_id {
            Some(id) => Ok(id),
            None => Err(exchange_fault("No orderId in algoOrder response: "@ + body)),
        }
    }
}

/// What an answer to a conditional order means, by what was found in it.
pub fn interpret_algo_order(
    success: bool,
    status: &str,
    code: Option<i64>,
    msg: Option<String>,
    order_id: Option<u64>,
    body: &str,
) -> (r: Result<u64, ExecutionError>)
    ensures
        outcome(r) == algo_order_outcome(success, status@, code, opt_text(msg), order_id, body@),
{
    if !success {
        return Err(http_error("Binance algoOrder", status, code, msg, "unknown error"));
    }
    match order_id {
        Some(id) => Ok(id),
        None => Err(
            ExecutionError::ExchangeError {
                message: "No orderId in algoOrder response: ".to_owned().concat(body),
            },
        ),
    }
}

/// The document that an answer holds, or the error of one that holds none.
pub open spec fn document_of(body: Seq<char>, label: Seq<char>) -> Result<
    Seq<char>,
    ExecutionFault,
> {
    match json_document(body) {
        Ok(t) => Ok(t),
        Err(e) => Err(exchange_fault(label + ": "@ + e)),
    }
}

/// The document that an answer holds, or the error of one that holds none.
pub fn read_document(body: &str, label: &str) -> (r: Result<String, ExecutionError>)
    ensures
        match document_of(body@, label@) {
            Ok(t) => r is Ok && (r->Ok_0)@ == t,
            Err(e) => r is Err && (r->Err_0)@ == e,
        },
{
    match document(body) {
        Ok(t) => Ok(t),
        Err(e) => Err(
            ExecutionError::ExchangeError {
                message: label.to_owned().concat(": ").concat(e.as_str()),
            },
        ),
    }
}

/// What the answer to a conditional order means.
pub fn algo_order_reply(success: bool, status: &str, body: &str) -> (r: Result<u64, ExecutionError>)
    ensures
        outcome(r) == match document_of(body@, "Algo order JSON parse error"@) {
            Ok(t) => algo_order_outcome(
                success,
                status@,
                member_i64(t, "code"@),
                member_string(t, "msg"@),
                algo_order_id(t),
                t,
            ),
            Err(e) => Err(e),
        },
{
    let read = match read_document(body, "Algo order JSON parse error") {
        Ok(t) => t,
        Err(e) => {
            return Err(e);
        },
    };
    let body = read.as_str();
    let code = get_i64(body, "code");
    let msg = get_string(body, "msg");
    let order_id = match get_member_or(body, "orderId", "algoId") {
        Some(m) => unsigned(m.as_str()),
        None => None,
    };
    interpret_algo_order(success, status, code, msg, order_id, body)
}

/// What the answer to a cancellation of one order means.
pub fn cancel_order_reply(order_id: u64, success: bool, status: &str, body: &str) -> (r: Result<
    (),
    ExecutionError,
>)
    ensures
        outcome(r) == if success {
            Ok(())
        } else {
            Err(
                http_fault(
                    "Cancel algoOrder "@ + int_text(order_id as int),
                    status@,
                    member_i64(body@, "code"@),
                    member_string(body@, "msg"@),
                    "unknown error"@,
                ),
            )
        },
{
    if success {
        return Ok(());
    }
    let label = "Cancel algoOrder ".to_owned().concat(crate::text::u64_text(order_id).as_str());
    Err(http_error_of_body(label.as_str(), status, body, "unknown error"))
}

/// What the answer to a cancellation of all conditional orders means.
pub fn cancel_all_reply(success: bool, status: &str, body: &str) -> (r: Result<(), ExecutionError>)
    ensures
        outcome(r) == if success {
            Ok(())
        } else {
            Err(
                http_fault(
                    "Cancel all algoOpenOrders"@,
                    status@,
                    member_i64(body@, "code"@),
                    member_string(body@, "msg"@),
                    "unknown error"@,
                ),
            )
        },
{
    if success {
        return Ok(());
    }
    Err(http_error_of_body("Cancel all algoOpenOrders", status, body, "unknown error"))
}

/// One leg of an order list: its order type and its identifier, if it has one.
#[derive(Clone, Debug)]
pub struct Leg {
    pub kind: String,
    pub order_id: Option<u64>,
}

/// The model of a leg.
pub struct LegText {
    pub kind: Seq<char>,
    pub order_id: Option<u64>,
}

impl View for Leg {
    type V = LegText;

    open spec fn view(&self) -> LegText {
        LegText { kind: self.kind@, order_id: self.order_id }
    }
}

/// The models of a list of legs.
pub open spec fn leg_views(v: Seq<Leg>) -> Seq<LegText> {
    v.map_values(|l: Leg| l@)
}

/// The order type is that of a take-profit leg.
pub open spec fn is_take_profit(kind: Seq<char>) -> bool {
    kind == "TAKE_PROFIT_LIMIT"@ || kind == "TAKE_PROFIT"@
}

/// The order type is that of a stop-loss leg.
pub open spec fn is_stop_loss(kind: Seq<char>) -> bool {
    kind == "STOP_LOSS_LIMIT"@ || kind == "STOP_LOSS"@
}

/// The identifiers of the take-profit and the stop-loss leg, by their order types. The last leg of
/// a type counts.
pub open spec fn legs_by_type(legs: Seq<LegText>) -> (Option<u64>, Option<u64>)
    decreases legs.len(),
{
    if legs.len() == 0 {
        (None, None)
    } else {
        let before = legs_by_type(legs.drop_last());
        let leg = legs.last();
        if is_take_profit(leg.kind) {
            (leg.order_id, before.1)
        } else if is_stop_loss(leg.kind) {
            (before.0, leg.order_id)
        } else {
            before
        }
    }
}

/// The identifiers that the legs have, in their order.
pub open spec fn leg_ids(legs: Seq<LegText>) -> Seq<u64>
    decreases legs.len(),
{
    if legs.len() == 0 {
        Seq::empty()
    } else {
        let before = leg_ids(legs.drop_last());
        match legs.last().order_id {
            Some(id) => before.push(id),
            None => before,
        }
    }
}

/// The first identifier that is not taken, if there is one.
pub open spec fn first_free(ids: Seq<u64>, taken: Option<u64>) -> Option<u64>
    decreases ids.len(),
{
    if ids.len() == 0 {
        None
    } else if taken != Some(ids[0]) {
        Some(ids[0])
    } else {
        first_free(ids.drop_first(), taken)
    }
}

/// The identifier of a leg that is left open beside one that has `taken`: the first of the list that
/// is another, or the second where all are the same.
pub open spec fn open_leg(ids: Seq<u64>, taken: Option<u64>) -> Option<u64> {
    match first_free(ids, taken) {
        Some(id) => Some(id),
        None => element(ids, 1),
    }
}

/// The element at a place, if there is one.
pub open spec fn element(ids: Seq<u64>, i: int) -> Option<u64> {
    if 0 <= i < ids.len() {
        Some(ids[i])
    } else {
        None
    }
}

/// The identifiers of the take-profit and the stop-loss leg. Where the order types name neither,
/// the first order of the list is the take profit and the second the stop loss; where they name
/// one, the other is an order beside it.
pub open spec fn assigned_legs(legs: Seq<LegText>) -> (Option<u64>, Option<u64>) {
    let ids = leg_ids(legs);
    match legs_by_type(legs) {
        (None, None) => (element(ids, 0), element(ids, 1)),
        (None, Some(stop_loss)) => (open_leg(ids, Some(stop_loss)), Some(stop_loss)),
        (Some(take_profit), None) => (Some(take_profit), open_leg(ids, Some(take_profit))),
        both => both,
    }
}

/// No two legs share an identifier.
pub open spec fn distinct_legs(legs: Seq<LegText>) -> bool {
    forall|i: int, j: int|
        0 <= i < j < legs.len() && (#[trigger] legs[i]).order_id is Some ==> legs[i].order_id != (
        #[trigger] legs[j]).order_id
}

proof fn lemma_first_free(ids: Seq<u64>, taken: Option<u64>)
    ensures
        match first_free(ids, taken) {
            Some(id) => taken != Some(id) && ids.contains(id),
            None => forall|i: int| 0 <= i < ids.len() ==> taken == Some(#[trigger] ids[i]),
        },
    decreases ids.len(),
{
    if ids.len() > 0 && taken == Some(ids[0]) {
        lemma_first_free(ids.drop_first(), taken);
        assert forall|i: int| 0 <= i < ids.len() && first_free(ids, taken) is None implies taken
            == Some(#[trigger] ids[i]) by {
            if i > 0 {
                assert(ids.drop_first()[i - 1] == ids[i]);
            }
        }
        if first_free(ids, taken) is Some {
            let id = first_free(ids, taken)->0;
            let k = choose|k: int| 0 <= k < ids.drop_first().len() && ids.drop_first()[k] == id;
            assert(ids[k + 1] == id);
        }
    }
}

proof fn lemma_leg_ids(legs: Seq<LegText>, i: int)
    requires
        0 <= i < legs.len(),
        legs[i].order_id is Some,
    ensures
        leg_ids(legs).contains(legs[i].order_id->0),
    decreases legs.len(),
{
    let before = legs.drop_last();
    if i < legs.len() - 1 {
        lemma_leg_ids(before, i);
        assert(before[i] == legs[i]);
        let id = legs[i].order_id->0;
        let k = choose|k: int| 0 <= k < leg_ids(before).len() && leg_ids(before)[k] == id;
        assert(leg_ids(legs)[k] == id);
    } else {
        assert(leg_ids(legs)[leg_ids(before).len() as int] == legs[i].order_id->0);
    }
}

/// Each identifier that the types give is that of a leg of the type.
proof fn lemma_legs_by_type(legs: Seq<LegText>)
    ensures
        legs_by_type(legs).0 is Some ==> exists|i: int|
            0 <= i < legs.len() && is_take_profit((#[trigger] legs[i]).kind) && legs[i].order_id
                == legs_by_type(legs).0,
        legs_by_type(legs).1 is Some ==> exists|i: int|
            0 <= i < legs.len() && is_stop_loss((#[trigger] legs[i]).kind) && legs[i].order_id
                == legs_by_type(legs).1,
    decreases legs.len(),
{
    if legs.len() > 0 {
        let before = legs.drop_last();
        lemma_legs_by_type(before);
        let last = legs.len() - 1;
        assert(legs[last] == legs.last());
        if legs_by_type(legs).0 is Some && !is_take_profit(legs.last().kind) {
            let i = choose|i: int|
                0 <= i < before.len() && is_take_profit((#[trigger] before[i]).kind)
                    && before[i].order_id == legs_by_type(before).0;
            assert(legs[i] == before[i]);
        }
        if legs_by_type(legs).1 is Some && (is_take_profit(legs.last().kind) || !is_stop_loss(
            legs.last().kind,
        )) {
            let i = choose|i: int|
                0 <= i < before.len() && is_stop_loss((#[trigger] before[i]).kind)
                    && before[i].order_id == legs_by_type(before).1;
            assert(legs[i] == before[i]);
        }
    }
}

/// Legs with identifiers of their own have each of them once.
proof fn lemma_ids_distinct(legs: Seq<LegText>)
    requires
        distinct_legs(legs),
    ensures
        forall|i: int, j: int|
            0 <= i < j < leg_ids(legs).len() ==> #[trigger] leg_ids(legs)[i] != #[trigger] leg_ids(
                legs,
            )[j],
        forall|k: int|
            0 <= k < leg_ids(legs).len() ==> exists|i: int|
                0 <= i < legs.len() && (#[trigger] legs[i]).order_id == Some(
                    #[trigger] leg_ids(legs)[k],
                ),
    decreases legs.len(),
{
    if legs.len() > 0 {
        let front = legs.drop_last();
        let ids = leg_ids(legs);
        let before = leg_ids(front);
        assert forall|i: int, j: int|
            0 <= i < j < front.len() && (#[trigger] front[i]).order_id is Some implies front[i].order_id
            != (#[trigger] front[j]).order_id by {
            assert(legs[i].order_id != legs[j].order_id);
        }
        lemma_ids_distinct(front);
        let last = legs.len() - 1;
        assert forall|k: int| 0 <= k < ids.len() implies exists|i: int|
            0 <= i < legs.len() && (#[trigger] legs[i]).order_id == Some(#[trigger] ids[k]) by {
            if k < before.len() {
                let i = choose|i: int|
                    0 <= i < front.len() && (#[trigger] front[i]).order_id == Some(before[k]);
                assert(legs[i].order_id == Some(ids[k]));
            } else {
                assert(legs[last].order_id == Some(ids[k]));
            }
        }
        assert forall|i: int, j: int| 0 <= i < j < ids.len() implies #[trigger] ids[i]
            != #[trigger] ids[j] by {
            if j < before.len() {
                assert(before[i] != before[j]);
            } else {
                let x = choose|x: int|
                    0 <= x < front.len() && (#[trigger] front[x]).order_id == Some(before[i]);
                assert(legs[x].order_id != legs[last].order_id);
            }
        }
    }
}

proof fn lemma_kinds_differ(kind: Seq<char>)
    ensures
        !(is_take_profit(kind) && is_stop_loss(kind)),
{
    reveal_strlit("TAKE_PROFIT_LIMIT");
    reveal_strlit("TAKE_PROFIT");
    reveal_strlit("STOP_LOSS_LIMIT");
    reveal_strlit("STOP_LOSS");
    if is_take_profit(kind) {
        assert(kind[0] == 'T');
    }
    if is_stop_loss(kind) {
        assert(kind[0] == 'S');
    }
}

/// The two legs of an order list are never one order: whenever the legs have identifiers of their
/// own, and two of them have one, both are found, and they differ.
pub proof fn law_legs_differ(legs: Seq<LegText>, i: int, j: int)
    requires
        distinct_legs(legs),
        0 <= i < j < legs.len(),
        legs[i].order_id is Some,
        legs[j].order_id is Some,
    ensures
        assigned_legs(legs).0 is Some,
        assigned_legs(legs).1 is Some,
        assigned_legs(legs).0 != assigned_legs(legs).1,
{
    let typed = legs_by_type(legs);
    let ids = leg_ids(legs);
    lemma_legs_by_type(legs);
    lemma_leg_ids(legs, i);
    lemma_leg_ids(legs, j);
    lemma_first_free(ids, typed.0);
    lemma_first_free(ids, typed.1);
    lemma_ids_distinct(legs);
    let a = choose|k: int| 0 <= k < ids.len() && ids[k] == legs[i].order_id->0;
    let b = choose|k: int| 0 <= k < ids.len() && ids[k] == legs[j].order_id->0;
    assert(ids[a] != ids[b]);
    if typed.0 is Some && typed.1 is Some {
        let x = choose|x: int|
            0 <= x < legs.len() && is_take_profit((#[trigger] legs[x]).kind) && legs[x].order_id
                == typed.0;
        let y = choose|y: int|
            0 <= y < legs.len() && is_stop_loss((#[trigger] legs[y]).kind) && legs[y].order_id
                == typed.1;
        lemma_kinds_differ(legs[x].kind);
        if x < y {
            assert(legs[x].order_id != legs[y].order_id);
        } else {
            assert(legs[y].order_id != legs[x].order_id);
        }
    }
}

/// The identifiers of the take-profit and the stop-loss leg.
pub fn assign_legs(legs: &Vec<Leg>) -> (r: (Option<u64>, Option<u64>))
    ensures
        r == assigned_legs(leg_views(legs@)),
{
    let mut take_profit: Option<u64> = None;
    let mut stop_loss: Option<u64> = None;
    let mut ids: Vec<u64> = Vec::new();
    let mut i: usize = 0;
    let ghost all = leg_views(legs@);
    assert(all.take(0) =~= Seq::<LegText>::empty());
    while i < legs.len()
        invariant
            i <= legs.len(),
            all == leg_views(legs@),
            (take_profit, stop_loss) == legs_by_type(all.take(i as int)),
            ids@ == leg_ids(all.take(i as int)),
        decreases legs.len() - i,
    {
        let ghost next = all.take(i + 1);
        assert(next.drop_last() =~= all.take(i as int));
        assert(next.last() == legs@[i as int]@);
        let kind = legs[i].kind.as_str();
        if same_text(kind, "TAKE_PROFIT_LIMIT") || same_text(kind, "TAKE_PROFIT") {
            take_profit = legs[i].order_id;
        } else if same_text(kind, "STOP_LOSS_LIMIT") || same_text(kind, "STOP_LOSS") {
            stop_loss = legs[i].order_id;
        }
        match legs[i].order_id {
            Some(id) => ids.push(id),
            None => {},
        }
        i = i + 1;
    }
    assert(all.take(i as int) =~= all);
    match (take_profit, stop_loss) {
        (None, None) => (id_at(&ids, 0), id_at(&ids, 1)),
        (None, Some(_)) => (other_id(&ids, stop_loss), stop_loss),
        (Some(_), None) => (take_profit, other_id(&ids, take_profit)),
        both => both,
    }
}

fn id_at(ids: &Vec<u64>, i: usize) -> (r: Option<u64>)
    ensures
        r == element(ids@, i as int),
{
    if i < ids.len() {
        Some(ids[i])
    } else {
        None
    }
}

/// The identifier of the leg that is left open beside one that is known.
fn other_id(ids: &Vec<u64>, taken: Option<u64>) -> (r: Option<u64>)
    ensures
        r == open_leg(ids@, taken),
{
    match free_id(ids, taken) {
        Some(id) => Some(id),
        None => id_at(ids, 1),
    }
}

/// The first identifier that is not taken, if there is one.
fn free_id(ids: &Vec<u64>, taken: Option<u64>) -> (r: Option<u64>)
    ensures
        r == first_free(ids@, taken),
{
    let mut i: usize = 0;
    assert(ids@.skip(0) =~= ids@);
    while i < ids.len()
        invariant
            i <= ids.len(),
            first_free(ids@, taken) == first_free(ids@.skip(i as int), taken),
        decreases ids.len() - i,
    {
        let ghost rest = ids@.skip(i as int);
        assert(rest[0] == ids@[i as int]);
        assert(rest.drop_first() =~= ids@.skip(i + 1));
        match taken {
            Some(t) => {
                if t != ids[i] {
                    return Some(ids[i]);
                }
            },
            None => {
                return Some(ids[i]);
            },
        }
        i = i + 1;
    }
    None
}

/// The model of an order list that was placed.
pub struct PlacedOco {
    pub order_list_id: u64,
    pub list_client_order_id: Option<Seq<char>>,
    pub symbol: Seq<char>,
    pub take_profit_order_id: u64,
    pub stop_loss_order_id: u64,
    pub status: OcoStatus,
}

impl View for OcoOrderResult {
    type V = PlacedOco;

    open spec fn view(&self) -> PlacedOco {
        PlacedOco {
            order_list_id: self.order_list_id,
            list_client_order_id: opt_text(self.list_client_order_id),
            symbol: self.symbol@,
            take_profit_order_id: self.take_profit_order_id,
            stop_loss_order_id: self.stop_loss_order_id,
            status: self.status,
        }
    }
}

/// The model of an answer to an order list.
pub open spec fn oco_answer(r: Result<OcoOrderResult, ExecutionError>) -> Result<
    PlacedOco,
    ExecutionFault,
> {
    match r {
        Ok(o) => Ok(o@),
        Err(e) => Err(e@),
    }
}

/// What an answer to an order list means, by what was found in it.
pub open spec fn oco_outcome(
    symbol: Seq<char>,
    success: bool,
    status: Seq<char>,
    code: Option<i64>,
    msg: Option<Seq<char>>,
    list_id: Option<u64>,
    legs: Option<Seq<LegText>>,
    client_id: Option<Seq<char>>,
    body: Seq<char>,
) -> Result<PlacedOco, ExecutionFault> {
    if !success {
        Err(http_fault("Binance OCO"@, status, code, msg, "unknown error"@))
    } else if list_id is None {
        Err(exchange_fault("No orderListId in OCO response: "@ + body))
    } else if legs is None {
        Err(exchange_fault("No orders array in OCO response: "@ + body))
    } else {
        match assigned_legs(legs->0) {
            (None, _) => Err(
                exchange_fault("Could not identify TP leg order ID in OCO response: "@ + body),
            ),
            (Some(_), None) => Err(
                exchange_fault("Could not identify SL leg order ID in OCO response: "@ + body),
            ),
            (Some(take_profit_order_id), Some(stop_loss_order_id)) => Ok(
                PlacedOco {
                    order_list_id: list_id->0,
                    list_client_order_id: client_id,
                    symbol,
                    take_profit_order_id,
                    stop_loss_order_id,
                    status: OcoStatus::Executing,
                },
            ),
        }
    }
}

fn exchange_error(prefix: &str, body: &str) -> (r: ExecutionError)
    ensures
        r@ == exchange_fault(prefix@ + body@),
{
    ExecutionError::ExchangeError { message: prefix.to_owned().concat(body) }
}

/// The model of an optional list of legs.
pub open spec fn opt_legs(legs: Option<Vec<Leg>>) -> Option<Seq<LegText>> {
    match legs {
        Some(v) => Some(leg_views(v@)),
        None => None,
    }
}

/// What an answer to an order list means, by what was found in it.
pub fn interpret_oco(
    symbol: &str,
    success: bool,
    status: &str,
    code: Option<i64>,
    msg: Option<String>,
    list_id: Option<u64>,
    legs: Option<Vec<Leg>>,
    client_id: Option<String>,
    body: &str,
) -> (r: Result<OcoOrderResult, ExecutionError>)
    ensures
        oco_answer(r) == oco_outcome(
            symbol@,
            success,
            status@,
            code,
            opt_text(msg),
            list_id,
            opt_legs(legs),
            opt_text(client_id),
            body@,
        ),
{
    if !success {
        return Err(http_error("Binance OCO", status, code, msg, "unknown error"));
    }
    let order_list_id: u64 = match list_id {
        Some(id) => id,
        None => {
            return Err(exchange_error("No orderListId in OCO response: ", body));
        },
    };
    let legs = match legs {
        Some(v) => v,
        None => {
            return Err(exchange_error("No orders array in OCO response: ", body));
        },
    };
    match assign_legs(&legs) {
        (None, _) => Err(
            exchange_error("Could not identify TP leg order ID in OCO response: ", body),
        ),
        (Some(_), None) => Err(
            exchange_error("Could not identify SL leg order ID in OCO response: ", body),
        ),
        (Some(take_profit_order_id), Some(stop_loss_order_id)) => Ok(
            OcoOrderResult {
                order_list_id,
                list_client_order_id: client_id,
                symbol: symbol.to_owned(),
                take_profit_order_id,
                stop_loss_order_id,
                status: OcoStatus::Executing,
            },
        ),
    }
}

/// The leg that a piece of an answer stands for; a missing order type is empty.
pub open spec fn leg_of(text: Seq<char>) -> LegText {
    LegText {
        kind: match member_string(text, "type"@) {
            Some(k) => k,
            None => Seq::empty(),
        },
        order_id: member_u64(text, "orderId"@),
    }
}

/// The legs of an order list in the exchange's answer.
pub open spec fn legs_of(body: Seq<char>) -> Option<Seq<LegText>> {
    match member_elements(body, "orders"@) {
        Some(e) => Some(e.map_values(|t: Seq<char>| leg_of(t))),
        None => None,
    }
}

fn read_legs(body: &str) -> (r: Option<Vec<Leg>>)
    ensures
        opt_legs(r) == legs_of(body@),
{
    let texts = get_elements(body, "orders")?;
    let ghost all = views(texts@).map_values(|t: Seq<char>| leg_of(t));
    let mut legs: Vec<Leg> = Vec::new();
    let mut i: usize = 0;
    while i < texts.len()
        invariant
            i <= texts.len(),
            all == views(texts@).map_values(|t: Seq<char>| leg_of(t)),
            leg_views(legs@) == all.take(i as int),
        decreases texts.len() - i,
    {
        let text = texts[i].as_str();
        assert(views(texts@)[i as int] == text@);
        let kind = match get_string(text, "type") {
            Some(k) => k,
            None => String::new(),
        };
        let leg = Leg { kind, order_id: get_u64(text, "orderId") };
        assert(leg@.kind =~= leg_of(text@).kind);
        let ghost before = legs@;
        legs.push(leg);
        i = i + 1;
        assert(leg_views(legs@) =~= leg_views(before).push(leg@));
        assert(leg_views(legs@) =~= all.take(i as int));
    }
    assert(all.take(i as int) =~= all);
    Some(legs)
}

/// What the answer to an order list means.
pub fn oco_reply(symbol: &str, success: bool, status: &str, body: &str) -> (r: Result<
    OcoOrderResult,
    ExecutionError,
>)
    ensures
        oco_answer(r) == match document_of(body@, "OCO order JSON parse error"@) {
            Ok(t) => oco_outcome(
                symbol@,
                success,
                status@,
                member_i64(t, "code"@),
                member_string(t, "msg"@),
                member_u64(t, "orderListId"@),
                legs_of(t),
                member_string(t, "listClientOrderId"@),
                t,
            ),
            Err(e) => Err(e),
        },
{
    let read = match read_document(body, "OCO order JSON parse error") {
        Ok(t) => t,
        Err(e) => {
            return Err(e);
        },
    };
    let body = read.as_str();
    let code = get_i64(body, "code");
    let msg = get_string(body, "msg");
    let list_id = get_u64(body, "orderListId");
    let legs = read_legs(body);
    let client_id = get_string(body, "listClientOrderId");
    interpret_oco(symbol, success, status, code, msg, list_id, legs, client_id, body)
}

/// How the legs of an order list of two orders are told apart: by their types wherever these name
/// them, in either order; where no type is known, the first is the take profit and the second the
/// stop loss.
pub proof fn law_two_legs_are_told_apart(a: LegText, b: LegText)
    requires
        a.order_id is Some,
        b.order_id is Some,
    ensures
        ({
            let legs = seq![a, b];
            &&& is_take_profit(a.kind) && is_stop_loss(b.kind) ==> assigned_legs(legs) == (
                a.order_id,
                b.order_id,
            )
            &&& is_stop_loss(a.kind) && is_take_profit(b.kind) ==> assigned_legs(legs) == (
                b.order_id,
                a.order_id,
            )
            &&& !is_take_profit(a.kind) && !is_stop_loss(a.kind) && !is_take_profit(b.kind)
                && !is_stop_loss(b.kind) ==> assigned_legs(legs) == (a.order_id, b.order_id)
            &&& a.order_id != b.order_id && is_take_profit(a.kind) && !is_take_profit(b.kind)
                ==> assigned_legs(legs) == (a.order_id, b.order_id)
            &&& a.order_id != b.order_id && is_stop_loss(b.kind) && !is_stop_loss(a.kind)
                && !is_take_profit(b.kind) ==> assigned_legs(legs) == (a.order_id, b.order_id)
        }),
        is_take_profit("TAKE_PROFIT_LIMIT"@) && is_take_profit("TAKE_PROFIT"@),
        is_stop_loss("STOP_LOSS_LIMIT"@) && is_stop_loss("STOP_LOSS"@),
{
    lemma_kinds_differ(a.kind);
    lemma_kinds_differ(b.kind);
    let legs = seq![a, b];
    assert(legs.drop_last() =~= seq![a]);
    assert(seq![a].drop_last() =~= Seq::<LegText>::empty());
    reveal_with_fuel(legs_by_type, 3);
    reveal_with_fuel(leg_ids, 3);
    reveal_with_fuel(first_free, 3);
    let ids = leg_ids(legs);
    assert(ids =~= seq![a.order_id->0, b.order_id->0]);
    assert(ids.drop_first() =~= seq![b.order_id->0]);
    assert(ids.drop_first().drop_first() =~= Seq::<u64>::empty());
}

/// When an order list was placed: exactly where the exchange answered with success, with the list's
/// identifier and with legs that both have one; and then it is kept under these identifiers, for the
/// symbol that was asked for, as being executed.
pub proof fn law_placed_lists_by_answer(
    symbol: Seq<char>,
    success: bool,
    status: Seq<char>,
    code: Option<i64>,
    msg: Option<Seq<char>>,
    list_id: Option<u64>,
    legs: Option<Seq<LegText>>,
    client_id: Option<Seq<char>>,
    body: Seq<char>,
)
    ensures
        ({
            let answer = oco_outcome(
                symbol,
                success,
                status,
                code,
                msg,
                list_id,
                legs,
                client_id,
                body,
            );
            &&& answer is Ok <==> success && list_id is Some && legs is Some && assigned_legs(
                legs->0,
            ).0 is Some && assigned_legs(legs->0).1 is Some
            &&& answer matches Ok(o) ==> {
                &&& Some(o.order_list_id) == list_id
                &&& Some(o.take_profit_order_id) == assigned_legs(legs->0).0
                &&& Some(o.stop_loss_order_id) == assigned_legs(legs->0).1
                &&& o.symbol == symbol && o.list_client_order_id == client_id
                &&& o.status == OcoStatus::Executing
            }
        }),
{
}

/// When a conditional order was placed: exactly where the exchange answered with success and an
/// identifier, and that identifier is the order's.
pub proof fn law_placed_orders_by_answer(
    success: bool,
    status: Seq<char>,
    code: Option<i64>,
    msg: Option<Seq<char>>,
    order_id: Option<u64>,
    body: Seq<char>,
)
    ensures
        ({
            let answer = algo_order_outcome(success, status, code, msg, order_id, body);
            &&& answer is Ok <==> success && order_id is Some
            &&& answer matches Ok(id) ==> Some(id) == order_id
        }),
{
}

/// What a refusal of the exchange says: the status, the code that came with it, or minus one, and the
/// message, or the given words where there was none.
pub proof fn law_refusals_say_why(
    label: Seq<char>,
    status: Seq<char>,
    code: i64,
    msg: Seq<char>,
    fallback: Seq<char>,
)
    ensures
        http_fault(label, status, Some(code), Some(msg), fallback) == (ExecutionFault::ExchangeError {
            message: label + " HTTP "@ + status + " — code "@ + int_text(code as int) + ": "@ + msg,
        }),
        http_fault(label, status, None, None, fallback) == (ExecutionFault::ExchangeError {
            message: label + " HTTP "@ + status + " — code "@ + int_text(-1) + ": "@ + fallback,
        }),
{
}

} // verus!
