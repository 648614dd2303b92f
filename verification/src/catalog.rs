//! The asset catalog: the fixed registry of supported cryptocurrencies, each
//! with a quoted price and the set of transfer networks it can move on.
//!
//! Monetary amounts are fixed-point decimals held in integers: fiat values
//! count cents, crypto quantities count millionths of a whole unit, and a
//! price is the number of fiat cents one whole unit quotes at.

use vstd::prelude::*;

verus! {

/// Millionths of a crypto unit per whole unit.
pub const CRYPTO_UNIT: u64 = 1_000_000;

/// A transfer network (blockchain), used only as a membership token against
/// an asset's compatible set.
#[derive(Debug, Clone)]
pub struct Network {
    pub name: String,
    pub prefix: String,
}

/// A supported cryptocurrency.
#[derive(Debug, Clone)]
pub struct Asset {
    pub symbol: String,
    pub prefix: String,
    pub price: u64,
    pub networks: Vec<Network>,
}

/// The registry, keyed by unique symbol.
#[derive(Debug, Clone)]
pub struct Catalog {
    pub assets: Vec<Asset>,
}

/// Networks compare by name and prefix together.
pub open spec fn same_network(a: Network, b: Network) -> bool {
    a.name@ == b.name@ && a.prefix@ == b.prefix@
}

/// `n` is a member of the compatible set `nets`.
pub open spec fn has_network(nets: Seq<Network>, n: Network) -> bool {
    exists|i: int| 0 <= i < nets.len() && same_network(nets[i], n)
}

impl Network {
    pub fn new(name: String, prefix: String) -> (n: Network)
        ensures
            n.name == name,
            n.prefix == prefix,
    {
        Network { name, prefix }
    }

    /// Membership comparison, name and prefix together.
    pub fn eq(&self, other: &Network) -> (r: bool)
        ensures
            r == same_network(*self, *other),
    {
        self.name == other.name && self.prefix == other.prefix
    }
}

impl Asset {
    /// A new catalog entry quoting at `price` fiat cents per unit, with no
    /// compatible network yet; the prefix is the first three characters of
    /// the symbol.
    pub fn new(symbol: String, price: u64) -> (a: Asset)
        requires
            symbol@.len() >= 3,
        ensures
            a.symbol == symbol,
            a.prefix@ == symbol@.subrange(0, 3),
            a.price == price,
            a.networks@.len() == 0,
    {
        let prefix = symbol.as_str().substring_char(0, 3).to_owned();
        Asset { symbol, prefix, price, networks: Vec::new() }
    }

    /// Adds `network` to the compatible set.
    pub fn add_network(&mut self, network: Network)
        ensures
            final (self).networks@ == old(self).networks@.push(network),
            final (self).symbol == old(self).symbol,
            final (self).prefix == old(self).prefix,
            final (self).price == old(self).price,
    {
        self.networks.push(network);
    }

    /// `network` is in this asset's compatible set.
    pub fn supports_network(&self, network: &Network) -> (r: bool)
        ensures
            r == has_network(self.networks@, *network),
    {
        let mut i: usize = 0;
        while i < self.networks.len()
            invariant
                0 <= i <= self.networks@.len(),
                forall|j: int| 0 <= j < i ==> !same_network(self.networks@[j], *network),
            decreases self.networks@.len() - i,
        {
            if self.networks[i].eq(network) {
                return true;
            }
            i = i + 1;
        }
        false
    }
}

impl Catalog {
    /// Symbols are unique and every quoted price is at least one cent.
    pub open spec fn wf(self) -> bool {
        &&& forall|i: int, j: int|
            0 <= i < j < self.assets@.len() ==> self.assets@[i].symbol@ != self.assets@[j].symbol@
        &&& forall|i: int| 0 <= i < self.assets@.len() ==> #[trigger] self.assets@[i].price >= 1
    }

    /// Some catalog entry quotes `sym`.
    pub open spec fn contains(self, sym: Seq<char>) -> bool {
        exists|i: int| 0 <= i < self.assets@.len() && self.assets@[i].symbol@ == sym
    }

    /// Index of the entry for `sym`; well defined when `wf` holds and the
    /// symbol is present.
    pub open spec fn spec_index_of(self, sym: Seq<char>) -> int {
        choose|i: int| 0 <= i < self.assets@.len() && self.assets@[i].symbol@ == sym
    }

    /// The entry for `sym`.
    pub open spec fn spec_asset(self, sym: Seq<char>) -> Asset {
        self.assets@[self.spec_index_of(sym)]
    }

    /// Quoted price of `sym` in fiat cents.
    pub open spec fn spec_price(self, sym: Seq<char>) -> int {
        self.spec_asset(sym).price as int
    }

    pub proof fn lemma_index_unique(self, sym: Seq<char>, i: int)
        requires
            self.wf(),
            0 <= i < self.assets@.len(),
            self.assets@[i].symbol@ == sym,
        ensures
            self.spec_index_of(sym) == i,
            self.spec_asset(sym) == self.assets@[i],
    {
        let k = self.spec_index_of(sym);
        assert(0 <= k < self.assets@.len() && self.assets@[k].symbol@ == sym);
        if k < i {
            assert(self.assets@[k].symbol@ != self.assets@[i].symbol@);
        } else if i < k {
            assert(self.assets@[i].symbol@ != self.assets@[k].symbol@);
        }
    }

    /// An empty registry.
    pub fn new() -> (c: Catalog)
        ensures
            c.assets@.len() == 0,
            c.wf(),
    {
        Catalog { assets: Vec::new() }
    }

    /// Registers one more asset; the caller keeps symbols unique and prices
    /// positive.
    pub fn add_asset(&mut self, asset: Asset)
        requires
            old(self).wf(),
            !old(self).contains(asset.symbol@),
            asset.price >= 1,
        ensures
            final (self).assets@ == old(self).assets@.push(asset),
            final (self).wf(),
            final (self).contains(asset.symbol@),
    {
        self.assets.push(asset);
        assert(self.assets@[self.assets@.len() - 1].symbol@ == asset.symbol@);
        assert forall|i: int, j: int| 0 <= i < j < self.assets@.len() implies self.assets@[i].symbol@
            != self.assets@[j].symbol@ by {
            if j == self.assets@.len() - 1 {
                assert(!old(self).contains(self.assets@[j].symbol@));
            }
        }
    }

    /// Position of the entry quoting `symbol`, if any.
    pub fn index_of(&self, symbol: &String) -> (r: Option<usize>)
        requires
            self.wf(),
        ensures
            match r {
                Some(i) => i < self.assets@.len() && self.assets@[i as int].symbol@ == symbol@
                    && self.spec_index_of(symbol@) == i,
                None => !self.contains(symbol@),
            },
    {
        let mut i: usize = 0;
        while i < self.assets.len()
            invariant
                self.wf(),
                0 <= i <= self.assets@.len(),
                forall|j: int| 0 <= j < i ==> self.assets@[j].symbol@ != symbol@,
            decreases self.assets@.len() - i,
        {
            if self.assets[i].symbol == *symbol {
                proof {
                    self.lemma_index_unique(symbol@, i as int);
                }
                return Some(i);
            }
            i = i + 1;
        }
        None
    }

    /// The entry quoting `symbol`, if any.
    pub fn lookup(&self, symbol: &String) -> (r: Option<&Asset>)
        requires
            self.wf(),
        ensures
            match r {
                Some(a) => self.contains(symbol@) && *a == self.spec_asset(symbol@),
                None => !self.contains(symbol@),
            },
    {
        match self.index_of(symbol) {
            Some(i) => Some(&self.assets[i]),
            None => None,
        }
    }

    /// Quoted price of `symbol`.  An absent symbol is a programming error:
    /// every asset handed to the ledger is drawn from the catalog, so the
    /// caller must establish membership.
    pub fn price_of(&self, symbol: &String) -> (r: u64)
        requires
            self.wf(),
            self.contains(symbol@),
        ensures
            r == self.spec_price(symbol@),
            r >= 1,
    {
        match self.index_of(symbol) {
            Some(i) => self.assets[i].price,
            None => {
                // Unreachable under the precondition.
                proof {
                    assert(false);
                }
                1
            },
        }
    }
}

/// The reference price table: four assets quoted in fiat cents
/// ($69,960.95, $3,926.50, $609.40 and $1.00 per unit), each with an empty
/// compatible-network set until the caller ties networks to it.
pub fn default_catalog() -> (c: Catalog)
    ensures
        c.wf(),
        c.assets@.len() == 4,
        c.assets@[0].symbol@ == "Bitcoin"@ && c.assets@[0].price == 6_996_095,
        c.assets@[1].symbol@ == "Ethereum"@ && c.assets@[1].price == 392_650,
        c.assets@[2].symbol@ == "BNB"@ && c.assets@[2].price == 60_940,
        c.assets@[3].symbol@ == "USDT"@ && c.assets@[3].price == 100,
        forall|i: int| 0 <= i < 4 ==> #[trigger] c.assets@[i].networks@.len() == 0,
        c.spec_price("Bitcoin"@) == 6_996_095,
        c.spec_price("Ethereum"@) == 392_650,
        c.spec_price("BNB"@) == 60_940,
        c.spec_price("USDT"@) == 100,
{
    proof {
        reveal_strlit("Bitcoin");
        reveal_strlit("Ethereum");
        reveal_strlit("BNB");
        reveal_strlit("USDT");
        assert("Bitcoin"@.len() == 7);
        assert("Ethereum"@.len() == 8);
        assert("BNB"@.len() == 3);
        assert("USDT"@.len() == 4);
    }
    let mut c = Catalog::new();
    c.add_asset(Asset::new(String::from_str("Bitcoin"), 6_996_095));
    c.add_asset(Asset::new(String::from_str("Ethereum"), 392_650));
    c.add_asset(Asset::new(String::from_str("BNB"), 60_940));
    c.add_asset(Asset::new(String::from_str("USDT"), 100));
    proof {
        c.lemma_index_unique("Bitcoin"@, 0);
        c.lemma_index_unique("Ethereum"@, 1);
        c.lemma_index_unique("BNB"@, 2);
        c.lemma_index_unique("USDT"@, 3);
    }
    c
}

} // verus!
