//! Transactions and their canonical text.

use vstd::prelude::*;
use vstd::string::StringExecFns;

verus! {

/// A transfer between two named parties.
///
/// The amount is held as its decimal text, which is the form in which it
/// enters a block's digest.
pub struct Transaction {
    pub sender: String,
    pub receiver: String,
    pub amount: String,
}

/// What a transaction is, as plain text.
pub struct TransactionView {
    pub sender: Seq<char>,
    pub receiver: Seq<char>,
    pub amount: Seq<char>,
}

impl View for Transaction {
    type V = TransactionView;

    open spec fn view(&self) -> TransactionView {
        TransactionView { sender: self.sender@, receiver: self.receiver@, amount: self.amount@ }
    }
}

impl TransactionView {
    /// The canonical text of one transaction: sender, receiver and amount,
    /// separated by `-`.
    pub open spec fn text(self) -> Seq<char> {
        self.sender + seq!['-'] + self.receiver + seq!['-'] + self.amount
    }
}

/// The views of a list of transactions, in order.
pub open spec fn transaction_views(txs: Seq<Transaction>) -> Seq<TransactionView> {
    Seq::new(txs.len(), |i: int| txs[i]@)
}

/// The canonical text of a list of transactions: the text of each, in
/// order, separated by `;`. The empty list gives the empty text.
pub open spec fn canonical_data(txs: Seq<TransactionView>) -> Seq<char>
    decreases txs.len(),
{
    if txs.len() == 0 {
        Seq::empty()
    } else if txs.len() == 1 {
        txs[0].text()
    } else {
        canonical_data(txs.drop_last()) + seq![';'] + txs.last().text()
    }
}

impl Transaction {
    /// A transaction with the given parties and amount text.
    pub fn new(sender: &str, receiver: &str, amount: &str) -> (r: Transaction)
        ensures
            r@ == (TransactionView { sender: sender@, receiver: receiver@, amount: amount@ }),
    {
        Transaction {
            sender: String::from_str(sender),
            receiver: String::from_str(receiver),
            amount: String::from_str(amount),
        }
    }

    /// Renders the transaction as `sender-receiver-amount`.
    pub fn canonical_text(&self) -> (r: String)
        ensures
            r@ == self@.text(),
    {
        let mut text = self.sender.clone();
        text.append("-");
        text.append(self.receiver.as_str());
        text.append("-");
        text.append(self.amount.as_str());
        proof {
            reveal_strlit("-");
            assert(text@ =~= self@.text());
        }
        text
    }
}

/// Renders a list of transactions as the text that enters a block's digest.
pub fn serialize_transactions(txs: &Vec<Transaction>) -> (r: String)
    ensures
        r@ == canonical_data(transaction_views(txs@)),
{
    let mut data = String::new();
    let mut i: usize = 0;
    while i < txs.len()
        invariant
            i <= txs.len(),
            data@ == canonical_data(transaction_views(txs@.take(i as int))),
        decreases txs.len() - i,
    {
        let ghost before = transaction_views(txs@.take(i as int));
        let ghost after = transaction_views(txs@.take(i + 1));
        if i > 0 {
            data.append(";");
        }
        let item = txs[i].canonical_text();
        data.append(item.as_str());
        proof {
            reveal_strlit(";");
            assert(after.drop_last() =~= before);
            assert(after.last() == txs@[i as int]@);
            assert(data@ =~= canonical_data(after));
        }
        i += 1;
    }
    assert(txs@.take(txs.len() as int) =~= txs@);
    data
}

} // verus!
