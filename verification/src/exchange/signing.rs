//! Request signatures, query strings and addresses of the exchange's REST interface.
use crate::text::{int_text, u64_text};
use vstd::prelude::*;
use vstd::string::*;

verus! {

/// The HMAC-SHA256 code of a message under a key, by the `hmac` and `sha2` crates.
pub uninterp spec fn hmac_sha256(key: Seq<u8>, message: Seq<u8>) -> Seq<u8>;

/// `hmac::Hmac::<sha2::Sha256>`: the 32 bytes of the code. Which bytes they are is only named.
#[verifier::external_body]
fn hmac_bytes(key: &[u8], message: &[u8]) -> (r: Vec<u8>)
    ensures
        r@ == hmac_sha256(key@, message@),
        r@.len() == 32,
{
    let mut mac = <hmac::Hmac<sha2::Sha256> as hmac::Mac>::new_from_slice(key).unwrap();
    hmac::Mac::update(&mut mac, message);
    hmac::Mac::finalize(mac).into_bytes().to_vec()
}

/// The lower-case character of a hexadecimal digit.
pub open spec fn hex_digit(d: int) -> char {
    if d < 10 {
        ((48 + d) as u8) as char
    } else {
        ((87 + d) as u8) as char
    }
}

/// Two hexadecimal digits for each byte.
pub open spec fn hex(bytes: Seq<u8>) -> Seq<char>
    decreases bytes.len(),
{
    if bytes.len() == 0 {
        Seq::empty()
    } else {
        hex(bytes.drop_last()).push(hex_digit(bytes.last() as int / 16)).push(
            hex_digit(bytes.last() as int % 16),
        )
    }
}

fn hex_char(d: u8) -> (c: char)
    requires
        d < 16,
    ensures
        c == hex_digit(d as int),
{
    if d < 10 {
        (48 + d) as char
    } else {
        (87 + d) as char
    }
}

/// Two lower-case hexadecimal digits for each byte.
pub fn hex_encode(bytes: &Vec<u8>) -> (r: String)
    ensures
        r@ == hex(bytes@),
        r@.len() == 2 * bytes@.len(),
{
    let mut s = String::new();
    let mut i: usize = 0;
    while i < bytes.len()
        invariant
            i <= bytes.len(),
            s@ == hex(bytes@.take(i as int)),
            s@.len() == 2 * i,
        decreases bytes.len() - i,
    {
        s.push(hex_char(bytes[i] / 16));
        s.push(hex_char(bytes[i] % 16));
        i = i + 1;
        assert(bytes@.take(i as int).drop_last() =~= bytes@.take(i - 1));
    }
    assert(bytes@.take(i as int) =~= bytes@);
    s
}

/// The signature of a query string: the hexadecimal HMAC-SHA256 code of its bytes.
pub open spec fn signature(query: &str, secret: &str) -> Seq<char> {
    hex(hmac_sha256(secret.spec_bytes(), query.spec_bytes()))
}

/// Computes the HMAC-SHA256 hex signature of a query string.
pub fn hmac_sign(query: &str, secret: &str) -> (r: String)
    ensures
        r@ == signature(query, secret),
        r@.len() == 64,
{
    hex_encode(&hmac_bytes(secret.as_bytes(), query.as_bytes()))
}

/// Returns the REST base URL.
pub fn algo_base_url(testnet: bool) -> (r: &'static str)
    ensures
        r@ == if testnet {
            "https://testnet.binancefuture.com"@
        } else {
            "https://fapi.binance.com"@
        },
{
    if testnet {
        "https://testnet.binancefuture.com"
    } else {
        "https://fapi.binance.com"
    }
}

/// A parameter that is left out where it has no value.
pub open spec fn optional_parameter(name: Seq<char>, value: Option<&str>) -> Seq<char> {
    match value {
        Some(v) => name + v@,
        None => Seq::empty(),
    }
}

/// The query that places a conditional order for the whole position.
pub fn algo_order_query(
    symbol: &str,
    side: &str,
    order_type: &str,
    trigger_price: Option<&str>,
    callback_rate: Option<&str>,
    timestamp: u64,
) -> (r: String)
    ensures
        r@ == "symbol="@ + symbol@ + "&side="@ + side@ + "&type="@ + order_type@
            + "&closePosition=true&algoType=CONDITIONAL"@ + optional_parameter(
            "&triggerPrice="@,
            trigger_price,
        ) + optional_parameter("&callbackRate="@, callback_rate) + "&timestamp="@ + int_text(
            timestamp as int,
        ),
{
    let mut q = "symbol=".to_owned().concat(symbol).concat("&side=").concat(side).concat(
        "&type=",
    ).concat(order_type).concat("&closePosition=true&algoType=CONDITIONAL");
    let ghost head = q@;
    match trigger_price {
        Some(p) => {
            q.append("&triggerPrice=");
            q.append(p);
        },
        None => {},
    }
    assert(q@ =~= head + optional_parameter("&triggerPrice="@, trigger_price));
    let ghost head = q@;
    match callback_rate {
        Some(p) => {
            q.append("&callbackRate=");
            q.append(p);
        },
        None => {},
    }
    assert(q@ =~= head + optional_parameter("&callbackRate="@, callback_rate));
    q.append("&timestamp=");
    q.append(u64_text(timestamp).as_str());
    q
}

/// The query that cancels one order.
pub fn cancel_order_query(symbol: &str, order_id: u64, timestamp: u64) -> (r: String)
    ensures
        r@ == "symbol="@ + symbol@ + "&orderId="@ + int_text(order_id as int) + "&timestamp="@
            + int_text(timestamp as int),
{
    "symbol=".to_owned().concat(symbol).concat("&orderId=").concat(
        u64_text(order_id).as_str(),
    ).concat("&timestamp=").concat(u64_text(timestamp).as_str())
}

/// The query that names a symbol only.
pub fn symbol_query(symbol: &str, timestamp: u64) -> (r: String)
    ensures
        r@ == "symbol="@ + symbol@ + "&timestamp="@ + int_text(timestamp as int),
{
    "symbol=".to_owned().concat(symbol).concat("&timestamp=").concat(u64_text(timestamp).as_str())
}

/// The query that asks for the account.
pub fn account_query(timestamp: u64) -> (r: String)
    ensures
        r@ == "timestamp="@ + int_text(timestamp as int),
{
    "timestamp=".to_owned().concat(u64_text(timestamp).as_str())
}

/// The query that places both closing legs as one order list. The numbers are given as text.
pub fn oco_query(
    symbol: &str,
    side: &str,
    quantity: &str,
    take_profit_price: &str,
    stop_loss_trigger: &str,
    stop_loss_limit: &str,
    timestamp: u64,
) -> (r: String)
    ensures
        r@ == "symbol="@ + symbol@ + "&side="@ + side@ + "&quantity="@ + quantity@ + "&price="@
            + take_profit_price@ + "&stopPrice="@ + stop_loss_trigger@ + "&stopLimitPrice="@
            + stop_loss_limit@ + "&stopLimitTimeInForce=GTC&timestamp="@ + int_text(
            timestamp as int,
        ),
{
    "symbol=".to_owned().concat(symbol).concat("&side=").concat(side).concat("&quantity=").concat(
        quantity,
    ).concat("&price=").concat(take_profit_price).concat("&stopPrice=").concat(
        stop_loss_trigger,
    ).concat("&stopLimitPrice=").concat(stop_loss_limit).concat(
        "&stopLimitTimeInForce=GTC&timestamp=",
    ).concat(u64_text(timestamp).as_str())
}

/// The address of a signed request.
pub fn signed_url(base_url: &str, path: &str, query: &str, secret: &str) -> (r: String)
    ensures
        r@ == base_url@ + path@ + "?"@ + query@ + "&signature="@ + signature(query, secret),
{
    base_url.to_owned().concat(path).concat("?").concat(query).concat("&signature=").concat(
        hmac_sign(query, secret).as_str(),
    )
}

/// The value of a hexadecimal digit.
pub open spec fn digit_value(c: char) -> int {
    if '0' <= c && c <= '9' {
        c as int - '0' as int
    } else {
        c as int - 'a' as int + 10
    }
}

/// The hexadecimal text says what the bytes are: two digits for each byte, the higher one first, in
/// small letters.
pub proof fn law_hex_is_read_back(bytes: Seq<u8>, i: int)
    requires
        0 <= i < bytes.len(),
    ensures
        hex(bytes).len() == 2 * bytes.len(),
        digit_value(hex(bytes)[2 * i]) * 16 + digit_value(hex(bytes)[2 * i + 1]) == bytes[i],
        0 <= digit_value(hex(bytes)[2 * i]) < 16,
        0 <= digit_value(hex(bytes)[2 * i + 1]) < 16,
    decreases bytes.len(),
{
    let front = bytes.drop_last();
    lemma_hex_length(front);
    let last = bytes.last();
    let high = last as int / 16;
    let low = last as int % 16;
    assert(digit_value(hex_digit(high)) == high);
    assert(digit_value(hex_digit(low)) == low);
    if i < front.len() {
        law_hex_is_read_back(front, i);
        assert(hex(bytes)[2 * i] == hex(front)[2 * i]);
        assert(hex(bytes)[2 * i + 1] == hex(front)[2 * i + 1]);
    } else {
        assert(hex(bytes)[2 * i] == hex_digit(high));
        assert(hex(bytes)[2 * i + 1] == hex_digit(low));
    }
}

proof fn lemma_hex_length(bytes: Seq<u8>)
    ensures
        hex(bytes).len() == 2 * bytes.len(),
    decreases bytes.len(),
{
    if bytes.len() > 0 {
        lemma_hex_length(bytes.drop_last());
    }
}

} // verus!
