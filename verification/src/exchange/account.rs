//! Account balances.
use crate::decimal::{
    aligned_sum, difference, law_difference_is_exact, law_sum_is_exact, opt_view, parsed, sum, sum_of,
    Dec, Decimal,
};
use crate::exchange::orders::{ExecutionError, ExecutionFault};
use crate::exchange::replies::{
    document_of, exchange_fault, http_error_of_body, http_fault, read_document,
};
use crate::json::{
    get_elements, get_string, member_elements, member_i64, member_string, opt_text,
};
use crate::text::{same_text, views};
use vstd::prelude::*;

verus! {

/// Account balance information.
#[derive(Clone, Debug)]
pub struct AccountBalance {
    /// Asset name (e.g., "USDT").
    pub asset: String,
    /// Free balance.
    pub free: Decimal,
    /// Locked balance.
    pub locked: Decimal,
}

impl AccountBalance {
    /// Returns total balance (free + locked).
    pub fn total(&self) -> (r: Decimal)
        requires
            sum(self.free@, self.locked@) is Some,
        ensures
            Some(r@) == sum(self.free@, self.locked@),
    {
        self.free.checked_add(&self.locked).unwrap()
    }

    /// [`AccountBalance::total`], or nothing where it cannot be held.
    pub fn checked_total(&self) -> (r: Option<Decimal>)
        ensures
            opt_view(r) == sum(self.free@, self.locked@),
    {
        if self.free.checked_add(&self.locked).is_some() {
            Some(self.total())
        } else {
            None
        }
    }
}

/// What an account answer says of one asset.
#[derive(Clone, Debug)]
pub struct AssetEntry {
    pub asset: Option<String>,
    pub available_balance: Option<String>,
    pub wallet_balance: Option<String>,
}

/// The model of an asset's entry.
pub struct AssetText {
    pub asset: Option<Seq<char>>,
    pub available_balance: Option<Seq<char>>,
    pub wallet_balance: Option<Seq<char>>,
}

impl View for AssetEntry {
    type V = AssetText;

    open spec fn view(&self) -> AssetText {
        AssetText {
            asset: opt_text(self.asset),
            available_balance: opt_text(self.available_balance),
            wallet_balance: opt_text(self.wallet_balance),
        }
    }
}

/// The models of a list of assets' entries.
pub open spec fn asset_views(v: Seq<AssetEntry>) -> Seq<AssetText> {
    v.map_values(|a: AssetEntry| a@)
}

/// The first entry of USDT, from a place on.
pub open spec fn usdt_from(assets: Seq<AssetText>, from: int) -> Option<AssetText>
    decreases assets.len() - from,
{
    if from < 0 || from >= assets.len() {
        None
    } else if assets[from].asset == Some("USDT"@) {
        Some(assets[from])
    } else {
        usdt_from(assets, from + 1)
    }
}

/// The number that a balance stands for; a missing one is zero.
pub open spec fn balance_of(text: Option<Seq<char>>) -> Option<Dec> {
    parsed(
        if text is Some {
            text->0
        } else {
            "0"@
        },
    )
}

/// The total USDT balance, free and locked, that an account answer gives, or the error. Nothing
/// where a figure cannot be held.
pub open spec fn usdt_outcome(assets: Option<Seq<AssetText>>) -> Option<
    Result<Dec, ExecutionFault>,
> {
    match assets {
        None => Some(
            Err(exchange_fault("account_information response missing 'assets' array"@)),
        ),
        Some(list) => match usdt_from(list, 0) {
            None => Some(Err(exchange_fault("USDT asset not found in account information"@))),
            Some(usdt) => match (
                balance_of(usdt.available_balance),
                balance_of(usdt.wallet_balance),
            ) {
                (None, _) => Some(Err(exchange_fault("Failed to parse USDT availableBalance"@))),
                (_, None) => Some(Err(exchange_fault("Failed to parse USDT walletBalance"@))),
                (Some(free), Some(wallet)) => match sum_of(Some(free), difference(wallet, free)) {
                    Some(total) => Some(Ok(total)),
                    None => None,
                },
            },
        },
    }
}

/// The model of a balance answer.
pub open spec fn balance_answer(r: Result<Decimal, ExecutionError>) -> Result<Dec, ExecutionFault> {
    match r {
        Ok(d) => Ok(d@),
        Err(e) => Err(e@),
    }
}

/// The model of an optional list of entries.
pub open spec fn opt_assets(assets: Option<Vec<AssetEntry>>) -> Option<Seq<AssetText>> {
    match assets {
        Some(v) => Some(asset_views(v@)),
        None => None,
    }
}

fn find_usdt(assets: &Vec<AssetEntry>) -> (r: Option<usize>)
    ensures
        match r {
            Some(i) => i < assets@.len() && usdt_from(asset_views(assets@), 0) == Some(
                assets@[i as int]@,
            ),
            None => usdt_from(asset_views(assets@), 0) is None,
        },
{
    let mut i: usize = 0;
    let ghost all = asset_views(assets@);
    while i < assets.len()
        invariant
            all == asset_views(assets@),
            usdt_from(all, 0) == usdt_from(all, i as int),
        decreases assets.len() - i,
    {
        assert(all[i as int] == assets@[i as int]@);
        match &assets[i].asset {
            Some(a) => {
                if same_text(a.as_str(), "USDT") {
                    return Some(i);
                }
            },
            None => {},
        }
        i = i + 1;
    }
    None
}

fn read_balance(text: &Option<String>) -> (r: Option<Decimal>)
    ensures
        opt_view(r) == balance_of(opt_text(*text)),
{
    match text {
        Some(t) => Decimal::parse(t.as_str()),
        None => Decimal::parse("0"),
    }
}

fn exchange_error(message: &str) -> (r: ExecutionError)
    ensures
        r@ == exchange_fault(message@),
{
    ExecutionError::ExchangeError { message: message.to_owned() }
}

/// The total USDT balance by the entries of an account answer. Nothing where a figure cannot be
/// held.
pub fn interpret_usdt_balance(assets: Option<Vec<AssetEntry>>) -> (r: Option<
    Result<Decimal, ExecutionError>,
>)
    ensures
        match usdt_outcome(opt_assets(assets)) {
            Some(a) => r is Some && balance_answer(r->0) == a,
            None => r is None,
        },
{
    let assets = match assets {
        Some(a) => a,
        None => {
            return Some(
                Err(exchange_error("account_information response missing 'assets' array")),
            );
        },
    };
    let i: usize = match find_usdt(&assets) {
        Some(i) => i,
        None => {
            return Some(Err(exchange_error("USDT asset not found in account information")));
        },
    };
    let free = match read_balance(&assets[i].available_balance) {
        Some(d) => d,
        None => {
            return Some(Err(exchange_error("Failed to parse USDT availableBalance")));
        },
    };
    let wallet = match read_balance(&assets[i].wallet_balance) {
        Some(d) => d,
        None => {
            return Some(Err(exchange_error("Failed to parse USDT walletBalance")));
        },
    };
    let locked = wallet.checked_sub(&free)?;
    Some(Ok(free.checked_add(&locked)?))
}

/// The asset's entry that a piece of an account answer stands for.
pub open spec fn asset_of(text: Seq<char>) -> AssetText {
    AssetText {
        asset: member_string(text, "asset"@),
        available_balance: member_string(text, "availableBalance"@),
        wallet_balance: member_string(text, "walletBalance"@),
    }
}

/// The entries of an account answer.
pub open spec fn assets_of(body: Seq<char>) -> Option<Seq<AssetText>> {
    match member_elements(body, "assets"@) {
        Some(e) => Some(e.map_values(|t: Seq<char>| asset_of(t))),
        None => None,
    }
}

fn read_assets(body: &str) -> (r: Option<Vec<AssetEntry>>)
    ensures
        opt_assets(r) == assets_of(body@),
{
    let texts = get_elements(body, "assets")?;
    let ghost all = views(texts@).map_values(|t: Seq<char>| asset_of(t));
    let mut assets: Vec<AssetEntry> = Vec::new();
    let mut i: usize = 0;
    while i < texts.len()
        invariant
            i <= texts.len(),
            all == views(texts@).map_values(|t: Seq<char>| asset_of(t)),
            asset_views(assets@) == all.take(i as int),
        decreases texts.len() - i,
    {
        let text = texts[i].as_str();
        assert(views(texts@)[i as int] == text@);
        let entry = AssetEntry {
            asset: get_string(text, "asset"),
            available_balance: get_string(text, "availableBalance"),
            wallet_balance: get_string(text, "walletBalance"),
        };
        let ghost before = assets@;
        assets.push(entry);
        i = i + 1;
        assert(asset_views(assets@) =~= asset_views(before).push(entry@));
        assert(asset_views(assets@) =~= all.take(i as int));
    }
    assert(all.take(i as int) =~= all);
    Some(assets)
}

/// Parses the USDT balance (free + locked) of a futures account answer.
pub fn parse_usdt_balance_from_json(body: &str) -> (r: Result<Decimal, ExecutionError>)
    requires
        usdt_outcome(assets_of(body@)) is Some,
    ensures
        Some(balance_answer(r)) == usdt_outcome(assets_of(body@)),
{
    interpret_usdt_balance(read_assets(body)).unwrap()
}

/// [`parse_usdt_balance_from_json`], or nothing where a figure cannot be held.
pub fn checked_usdt_balance_from_json(body: &str) -> (r: Option<Result<Decimal, ExecutionError>>)
    ensures
        match usdt_outcome(assets_of(body@)) {
            Some(a) => r is Some && balance_answer(r->0) == a,
            None => r is None,
        },
{
    if interpret_usdt_balance(read_assets(body)).is_none() {
        return None;
    }
    Some(parse_usdt_balance_from_json(body))
}

/// What the answer to a request for the account means: its USDT balance, or why there is none.
/// Nothing where a figure cannot be held.
pub fn account_reply(success: bool, status: &str, body: &str) -> (r: Option<
    Result<Decimal, ExecutionError>,
>)
    ensures
        match document_of(body@, "Failed to parse account info JSON"@) {
            Err(e) => r is Some && balance_answer(r->0) == Err::<Dec, ExecutionFault>(e),
            Ok(t) => if !success {
                r is Some && balance_answer(r->0) == Err::<Dec, ExecutionFault>(
                    http_fault(
                        "Binance account"@,
                        status@,
                        member_i64(t, "code"@),
                        member_string(t, "msg"@),
                        "unknown"@,
                    ),
                )
            } else {
                match usdt_outcome(assets_of(t)) {
                    Some(a) => r is Some && balance_answer(r->0) == a,
                    None => r is None,
                }
            },
        },
{
    let read = match read_document(body, "Failed to parse account info JSON") {
        Ok(t) => t,
        Err(e) => {
            return Some(Err(e));
        },
    };
    if !success {
        return Some(
            Err(http_error_of_body("Binance account", status, read.as_str(), "unknown")),
        );
    }
    checked_usdt_balance_from_json(read.as_str())
}

/// Free and locked balance together are the wallet balance, wherever the figures fit as they are.
pub proof fn law_total_is_wallet_balance(free: Dec, wallet: Dec)
    requires
        free.valid(),
        wallet.valid(),
        aligned_sum(wallet, free.negated()).valid(),
        aligned_sum(free, difference(wallet, free)->0).valid(),
    ensures
        sum_of(Some(free), difference(wallet, free)) is Some,
        sum_of(Some(free), difference(wallet, free))->0.units() == wallet.units(),
{
    law_difference_is_exact(wallet, free);
    law_sum_is_exact(free, difference(wallet, free)->0);
}

/// Which balance an account answer gives: that of the first entry of USDT, whatever stands before or
/// after it, and it is the wallet balance, wherever the figures fit as they are. An answer without
/// entries, without USDT, or with a balance that is no number is refused, and each refusal says why.
pub proof fn law_balance_by_entry(assets: Seq<AssetText>, i: int)
    requires
        0 <= i < assets.len(),
        assets[i].asset == Some("USDT"@),
        forall|k: int| 0 <= k < i ==> (#[trigger] assets[k]).asset != Some("USDT"@),
    ensures
        ({
            let free = balance_of(assets[i].available_balance);
            let wallet = balance_of(assets[i].wallet_balance);
            let answer = usdt_outcome(Some(assets));
            &&& free is None ==> answer == Some(
                Err::<Dec, ExecutionFault>(
                    exchange_fault("Failed to parse USDT availableBalance"@),
                ),
            )
            &&& free is Some && wallet is None ==> answer == Some(
                Err::<Dec, ExecutionFault>(exchange_fault("Failed to parse USDT walletBalance"@)),
            )
            &&& free is Some && wallet is Some && free->0.valid() && wallet->0.valid()
                && aligned_sum(wallet->0, free->0.negated()).valid() && aligned_sum(
                free->0,
                difference(wallet->0, free->0)->0,
            ).valid() ==> (answer matches Some(Ok(total)) && total.units() == wallet->0.units())
        }),
        usdt_outcome(None) matches Some(Err(_)),
{
    lemma_first_usdt(assets, 0, i);
    let free = balance_of(assets[i].available_balance);
    let wallet = balance_of(assets[i].wallet_balance);
    if free is Some && wallet is Some && free->0.valid() && wallet->0.valid() && aligned_sum(
        wallet->0,
        free->0.negated(),
    ).valid() && aligned_sum(free->0, difference(wallet->0, free->0)->0).valid() {
        law_total_is_wallet_balance(free->0, wallet->0);
    }
}

proof fn lemma_first_usdt(assets: Seq<AssetText>, from: int, i: int)
    requires
        0 <= from <= i < assets.len(),
        assets[i].asset == Some("USDT"@),
        forall|k: int| from <= k < i ==> (#[trigger] assets[k]).asset != Some("USDT"@),
    ensures
        usdt_from(assets, from) == Some(assets[i]),
    decreases i - from,
{
    if from < i {
        lemma_first_usdt(assets, from + 1, i);
    }
}

/// An account without USDT is refused.
pub proof fn law_balance_needs_usdt(assets: Seq<AssetText>, from: int)
    requires
        0 <= from,
        forall|k: int| from <= k < assets.len() ==> (#[trigger] assets[k]).asset != Some("USDT"@),
    ensures
        usdt_from(assets, from) is None,
        from == 0 ==> usdt_outcome(Some(assets)) == Some(
            Err::<Dec, ExecutionFault>(
                exchange_fault("USDT asset not found in account information"@),
            ),
        ),
    decreases assets.len() - from,
{
    if from < assets.len() {
        law_balance_needs_usdt(assets, from + 1);
    }
}

} // verus!
