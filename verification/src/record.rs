use vstd::prelude::*;

verus! {

/// One currency as it appears in the upstream country catalog.
/// Every field is optional: upstream data is untrusted and may omit any of them.
#[derive(Debug, Clone)]
pub struct Currency {
    pub code: Option<String>,
    pub name: Option<String>,
    pub symbol: Option<String>,
}

/// A single country record, keyed by `name` (the natural key, which upstream
/// data may nevertheless omit).
///
/// Monetary quantities are fixed-point integers counted in micro-units
/// (millionths): `exchange_rate` of `2_000_000` means a rate of 2.0. This
/// keeps the derived-metric arithmetic exact and checkable.
///
/// Policy for the two "no data" outcomes: when the currency code cannot be
/// determined, and when a code exists but the rate table has no entry for it,
/// both `exchange_rate` and `estimated_gdp` are absent (`None`), never a zero
/// sentinel. `estimated_gdp` is present exactly when both `population` and a
/// positive `exchange_rate` are present (see [`Country::wf`]).
#[derive(Debug, Clone)]
pub struct Country {
    pub name: Option<String>,
    pub capital: Option<String>,
    pub region: Option<String>,
    pub population: Option<u64>,
    pub currencies: Option<Currency>,
    pub independent: Option<bool>,
    /// Exchange rate in micro-units (1_000_000 = a rate of 1.0).
    pub exchange_rate: Option<u64>,
    /// Estimated GDP in micro-units.
    pub estimated_gdp: Option<u128>,
    pub flag_url: Option<String>,
    pub last_refreshed_at: Option<String>,
}

/// An exact copy of an optional string (the derived `Clone` carries no
/// specification, so copies that contracts depend on are made here).
pub fn clone_opt_string(s: &Option<String>) -> (r: Option<String>)
    ensures
        r == *s,
{
    match s {
        Some(x) => Some(x.clone()),
        None => None,
    }
}

/// An exact copy of a record list.
pub fn duplicate_records(v: &Vec<Country>) -> (r: Vec<Country>)
    ensures
        r@ == v@,
{
    let mut out: Vec<Country> = Vec::new();
    let mut i: usize = 0;
    while i < v.len()
        invariant
            i <= v@.len(),
            out@ == v@.subrange(0, i as int),
        decreases v@.len() - i,
    {
        out.push(v[i].duplicate());
        proof {
            assert(out@ =~= v@.subrange(0, i + 1 as int));
        }
        i += 1;
    }
    proof {
        assert(v@.subrange(0, v@.len() as int) =~= v@);
    }
    out
}

impl Currency {
    /// An exact copy.
    pub fn duplicate(&self) -> (c: Currency)
        ensures
            c == *self,
    {
        Currency {
            code: clone_opt_string(&self.code),
            name: clone_opt_string(&self.name),
            symbol: clone_opt_string(&self.symbol),
        }
    }
}

impl Country {
    /// An exact copy.
    pub fn duplicate(&self) -> (c: Country)
        ensures
            c == *self,
    {
        Country {
            name: clone_opt_string(&self.name),
            capital: clone_opt_string(&self.capital),
            region: clone_opt_string(&self.region),
            population: self.population,
            currencies: match &self.currencies {
                Some(c) => Some(c.duplicate()),
                None => None,
            },
            independent: self.independent,
            exchange_rate: self.exchange_rate,
            estimated_gdp: self.estimated_gdp,
            flag_url: clone_opt_string(&self.flag_url),
            last_refreshed_at: clone_opt_string(&self.last_refreshed_at),
        }
    }

    /// The currency code of the record, as a mathematical value: the code of
    /// its currency entry, if both exist.
    pub open spec fn spec_currency_code(self) -> Option<Seq<char>> {
        match self.currencies {
            Some(c) => match c.code {
                Some(code) => Some(code@),
                None => None,
            },
            None => None,
        }
    }

    /// Well-formedness of the derived fields: the estimated GDP is present
    /// exactly when both the population and the exchange rate are, and a
    /// present exchange rate is positive.
    pub open spec fn wf(self) -> bool {
        &&& self.estimated_gdp is Some <==> (self.population is Some
            && self.exchange_rate is Some)
        &&& self.exchange_rate is Some ==> self.exchange_rate->0 > 0
    }

    pub fn new(
        name: String,
        capital: String,
        region: String,
        population: u64,
        flag_url: String,
        currencies: Currency,
        independent: Option<bool>,
    ) -> (c: Country)
        ensures
            c.name == Some(name),
            c.capital == Some(capital),
            c.region == Some(region),
            c.population == Some(population),
            c.flag_url == Some(flag_url),
            c.currencies == Some(currencies),
            c.independent == independent,
            c.last_refreshed_at is None,
            c.exchange_rate is None,
            c.estimated_gdp is None,
    {
        Country {
            name: Some(name),
            capital: Some(capital),
            region: Some(region),
            population: Some(population),
            flag_url: Some(flag_url),
            currencies: Some(currencies),
            independent,
            last_refreshed_at: None,
            exchange_rate: None,
            estimated_gdp: None,
        }
    }

    pub fn set_exchange_rate(&mut self, rate: u64)
        ensures
            *final(self) == (Country { exchange_rate: Some(rate), ..*old(self) }),
    {
        self.exchange_rate = Some(rate);
    }

    pub fn set_estimated_gdp(&mut self, gdp: u128)
        ensures
            *final(self) == (Country { estimated_gdp: Some(gdp), ..*old(self) }),
    {
        self.estimated_gdp = Some(gdp);
    }

    pub fn set_last_refreshed_at(&mut self, timestamp: String)
        ensures
            *final(self) == (Country { last_refreshed_at: Some(timestamp), ..*old(self) }),
    {
        self.last_refreshed_at = Some(timestamp);
    }

    /// The currency code, taken from the record's currency entry.
    pub fn get_currency_code(&self) -> (r: Option<&String>)
        ensures
            match r {
                Some(code) => self.spec_currency_code() == Some(code@),
                None => self.spec_currency_code() is None,
            },
    {
        match &self.currencies {
            Some(c) => match &c.code {
                Some(code) => Some(code),
                None => None,
            },
            None => None,
        }
    }

    /// The currency code as an owned string.
    pub fn get_currency_code_owned(&self) -> (r: Option<String>)
        ensures
            match r {
                Some(code) => self.spec_currency_code() == Some(code@),
                None => self.spec_currency_code() is None,
            },
    {
        match &self.currencies {
            Some(c) => match &c.code {
                Some(code) => Some(code.clone()),
                None => None,
            },
            None => None,
        }
    }
}

} // verus!
