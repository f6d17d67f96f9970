//! The chain that a node follows.

use crate::outside::{chain_name, display_chain, display_unchecked_chain};
use crate::text::{decimal, law_decimal_is_faithful, reads_as};
use vstd::prelude::*;

verus! {

/// A chain, by its EIP-155 id.
#[derive(Clone, Copy, Debug, PartialEq, Eq, Structural)]
pub enum Chain {
    /// Displayed by its name where the id has one.
    Named(u64),
    /// Displayed by its id, whether that has a name or not.
    Id(u64),
}

impl Chain {
    /// How the chain is displayed.
    pub open spec fn name(self) -> Seq<char> {
        match self {
            Chain::Named(id) => chain_name(id),
            Chain::Id(id) => decimal(id as nat),
        }
    }

    /// The display of the chain. Ethereum mainnet, Sepolia, Holesky and Goerli go by those names,
    /// and no other chain does.
    pub fn to_text(&self) -> (text: String)
        ensures
            text@ == self.name(),
            (text@ == "mainnet"@) == (*self == Chain::Named(1)),
            (text@ == "sepolia"@) == (*self == Chain::Named(11155111)),
            (text@ == "holesky"@) == (*self == Chain::Named(17000)),
            (text@ == "goerli"@) == (*self == Chain::Named(5)),
    {
        match *self {
            Chain::Named(id) => display_chain(id),
            Chain::Id(id) => {
                proof {
                    crate::text::lemma_decimal_starts_with_digit(id as nat);
                    reveal_strlit("mainnet");
                    reveal_strlit("sepolia");
                    reveal_strlit("holesky");
                    reveal_strlit("goerli");
                }
                display_unchecked_chain(id)
            },
        }
    }
}

/// A chain goes by the name that belongs to its id, or by the id itself, which its display then
/// reads as. Four chains go by names that stand for them alone.
pub proof fn law_chain_goes_by_name_or_id(chain: Chain, text: String)
    requires
        call_ensures(Chain::to_text, (&chain,), text),
    ensures
        chain matches Chain::Named(id) ==> text@ == chain_name(id),
        chain matches Chain::Id(id) ==> reads_as(text@, 10, id as nat),
        text@ == chain.name(),
        text@ == "mainnet"@ <==> chain == Chain::Named(1),
        text@ == "sepolia"@ <==> chain == Chain::Named(11155111),
        text@ == "holesky"@ <==> chain == Chain::Named(17000),
        text@ == "goerli"@ <==> chain == Chain::Named(5),
{
    match chain {
        Chain::Named(_) => {},
        Chain::Id(id) => law_decimal_is_faithful(id as nat, 0),
    }
}

} // verus!
