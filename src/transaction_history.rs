//! An append-only history of transactions, kept in the order they were added.
use vstd::prelude::*;

verus! {

/// Transactions in insertion order.
pub struct TransactionHistory<T> {
    transactions: Vec<T>,
}

impl<T> View for TransactionHistory<T> {
    type V = Seq<T>;

    closed spec fn view(&self) -> Seq<T> {
        self.transactions@
    }
}

impl<T> TransactionHistory<T> {
    /// An empty history.
    pub fn new() -> (r: Self)
        ensures
            r@ == Seq::<T>::empty(),
    {
        TransactionHistory { transactions: Vec::new() }
    }

    /// Appends `transaction` after all those already held.
    pub fn add_transaction(&mut self, transaction: T)
        ensures
            final(self)@ == old(self)@.push(transaction),
    {
        self.transactions.push(transaction);
    }

    /// The transaction at position `index`, counting from the first added, or
    /// `None` past the end.
    pub fn get_transaction(&self, index: usize) -> (r: Option<&T>)
        ensures
            r is Some <==> index < self@.len(),
            r matches Some(t) ==> *t == self@[index as int],
    {
        if index < self.transactions.len() {
            Some(&self.transactions[index])
        } else {
            None
        }
    }

    /// The number of transactions held.
    pub fn len(&self) -> (r: usize)
        ensures
            r == self@.len(),
    {
        self.transactions.len()
    }
}

} // verus!
