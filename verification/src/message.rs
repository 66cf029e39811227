//! Instructions that the ledger's operations queue for the outside world.

use crate::coin::coins_view;
use crate::coin::Coin;
use crate::coin::CoinView;
use vstd::prelude::*;

verus! {

/// One instruction for a collaborator.
#[derive(Debug, PartialEq, Eq)]
pub enum Message {
    /// The lender is to hand over the coin.
    Borrow { coin: Coin },
    /// The coin is to be paid out to the address.
    Transfer { to_address: String, coin: Coin },
    /// The vault is to pay out the unlocking position.
    WithdrawUnlocked { vault: String, position_id: u64 },
    /// The account's coin balances are to be brought up to date once a vault
    /// has paid out, starting from the balances seen before.
    UpdateCoinBalances { account_id: String, previous_balances: Vec<Coin> },
}

pub enum MessageView {
    Borrow { coin: CoinView },
    Transfer { to_address: Seq<char>, coin: CoinView },
    WithdrawUnlocked { vault: Seq<char>, position_id: u64 },
    UpdateCoinBalances { account_id: Seq<char>, previous_balances: Seq<CoinView> },
}

impl View for Message {
    type V = MessageView;

    open spec fn view(&self) -> MessageView {
        match *self {
            Message::Borrow { coin } => MessageView::Borrow { coin: coin@ },
            Message::Transfer { to_address, coin } => MessageView::Transfer {
                to_address: to_address@,
                coin: coin@,
            },
            Message::WithdrawUnlocked { vault, position_id } => MessageView::WithdrawUnlocked {
                vault: vault@,
                position_id,
            },
            Message::UpdateCoinBalances {
                account_id,
                previous_balances,
            } => MessageView::UpdateCoinBalances {
                account_id: account_id@,
                previous_balances: coins_view(previous_balances@),
            },
        }
    }
}

/// The views of a list of messages, in order.
pub open spec fn messages_view(messages: Seq<Message>) -> Seq<MessageView> {
    messages.map_values(|m: Message| m@)
}

} // verus!
