//! The state of one swap form, and its quote recomputed on demand.

use crate::pair::{
    find_opt, flip_pair, resolve, token_opt_view, update_pair, wrapper_views, TokenInfo,
    TokenWrapperInfo,
};
use crate::quote::{quote_for_pair, quote_spec, AmountQuote};
use vstd::prelude::*;

verus! {

/// The known wrappers, the selected pair and the amount text as typed.
pub struct Session {
    pub wrappers: Vec<TokenWrapperInfo>,
    pub from: Option<TokenInfo>,
    pub to: Option<TokenInfo>,
    pub amount: String,
}

impl Session {
    /// A session over `wrappers` with nothing selected and no amount.
    pub fn new(wrappers: Vec<TokenWrapperInfo>) -> (r: Session)
        ensures
            r.wrappers@ == wrappers@,
            r.from is None,
            r.to is None,
            r.amount@ == Seq::<char>::empty(),
    {
        Session { wrappers, from: None, to: None, amount: String::new() }
    }

    /// Selects the pair that `symbol` resolves to.
    pub fn select(&mut self, symbol: &String)
        ensures
            final(self).wrappers@ == old(self).wrappers@,
            final(self).amount@ == old(self).amount@,
            (token_opt_view(final(self).from), token_opt_view(final(self).to)) == resolve(
                wrapper_views(old(self).wrappers@),
                symbol@,
            ),
    {
        let (from, to) = update_pair(symbol, self.wrappers.as_slice());
        self.from = from;
        self.to = to;
    }

    /// Swaps the direction of the selected pair.
    pub fn flip(&mut self)
        ensures
            final(self).wrappers@ == old(self).wrappers@,
            final(self).amount@ == old(self).amount@,
            final(self).from == old(self).to,
            final(self).to == old(self).from,
    {
        let from = self.from.take();
        let to = self.to.take();
        let (a, b) = flip_pair((from, to));
        self.from = a;
        self.to = b;
    }

    /// Replaces the amount text.
    pub fn set_amount(&mut self, text: String)
        ensures
            final(self).wrappers@ == old(self).wrappers@,
            final(self).from == old(self).from,
            final(self).to == old(self).to,
            final(self).amount@ == text@,
    {
        self.amount = text;
    }

    /// The quote for the current state.
    pub fn recompute(&self) -> (r: Option<AmountQuote>)
        ensures
            match r {
                Some(q) => quote_spec(
                    self.amount@,
                    token_opt_view(self.from),
                    token_opt_view(self.to),
                    find_opt(
                        wrapper_views(self.wrappers@),
                        token_opt_view(self.from),
                        token_opt_view(self.to),
                    ),
                ) == Some((q.fee_amount@, q.output_amount@)),
                None => quote_spec(
                    self.amount@,
                    token_opt_view(self.from),
                    token_opt_view(self.to),
                    find_opt(
                        wrapper_views(self.wrappers@),
                        token_opt_view(self.from),
                        token_opt_view(self.to),
                    ),
                ) is None,
            },
    {
        quote_for_pair(self.amount.as_str(), &self.from, &self.to, self.wrappers.as_slice())
    }
}

} // verus!
