//! Financial instrument definitions and the instrument registry.
//!
//! The registry's catalog data lives outside the library; the registry
//! itself is an ordinary value over plain fields, with verified lookup
//! and filtering.

use vstd::prelude::*;

use crate::text::chars_eq;
use crate::text::lower_seq;
use crate::text::str_to_chars;
use crate::text::to_lower;
use crate::time::days_before_year;
use crate::time::supported_day_count;
use crate::time::Date;
use crate::time::MS_PER_DAY;

verus! {

/// Instrument category.
#[derive(Clone, Copy, PartialEq, Eq, Structural, Debug, Hash)]
pub enum Category {
    /// Foreign exchange currency pairs.
    Forex,
    /// Cryptocurrencies.
    Crypto,
    /// Stock indices.
    Index,
    /// Individual stocks.
    Stock,
    /// Commodities (metals, energy, agriculture).
    Commodity,
    /// Exchange-traded funds.
    Etf,
    /// Government bonds.
    Bond,
}

impl Category {
    /// The lowercase tag of the category.
    pub open spec fn tag(self) -> Seq<char> {
        match self {
            Category::Forex => seq!['f', 'o', 'r', 'e', 'x'],
            Category::Crypto => seq!['c', 'r', 'y', 'p', 't', 'o'],
            Category::Index => seq!['i', 'n', 'd', 'e', 'x'],
            Category::Stock => seq!['s', 't', 'o', 'c', 'k'],
            Category::Commodity => seq!['c', 'o', 'm', 'm', 'o', 'd', 'i', 't', 'y'],
            Category::Etf => seq!['e', 't', 'f'],
            Category::Bond => seq!['b', 'o', 'n', 'd'],
        }
    }

    /// Returns the category as its string tag.
    pub fn as_str(&self) -> (r: &'static str)
        ensures
            r@ == self.tag(),
    {
        proof {
            reveal_strlit("forex");
            reveal_strlit("crypto");
            reveal_strlit("index");
            reveal_strlit("stock");
            reveal_strlit("commodity");
            reveal_strlit("etf");
            reveal_strlit("bond");
        }
        match self {
            Category::Forex => "forex",
            Category::Crypto => "crypto",
            Category::Index => "index",
            Category::Stock => "stock",
            Category::Commodity => "commodity",
            Category::Etf => "etf",
            Category::Bond => "bond",
        }
    }
}

/// The category a lowercase tag denotes.
pub open spec fn category_of(s: Seq<char>) -> Option<Category> {
    if s == "forex"@ {
        Some(Category::Forex)
    } else if s == "crypto"@ {
        Some(Category::Crypto)
    } else if s == "index"@ {
        Some(Category::Index)
    } else if s == "stock"@ {
        Some(Category::Stock)
    } else if s == "commodity"@ {
        Some(Category::Commodity)
    } else if s == "etf"@ {
        Some(Category::Etf)
    } else if s == "bond"@ {
        Some(Category::Bond)
    } else {
        None
    }
}

/// Parses a category tag, ASCII case-insensitively.
pub fn parse_category(s: &str) -> (r: Option<Category>)
    ensures
        r == category_of(lower_seq(s@)),
{
    let cs = str_to_chars(s);
    let low = to_lower(&cs);
    proof {
        assert(low@ =~= lower_seq(s@));
    }
    if chars_eq(&low, &str_to_chars("forex")) {
        Some(Category::Forex)
    } else if chars_eq(&low, &str_to_chars("crypto")) {
        Some(Category::Crypto)
    } else if chars_eq(&low, &str_to_chars("index")) {
        Some(Category::Index)
    } else if chars_eq(&low, &str_to_chars("stock")) {
        Some(Category::Stock)
    } else if chars_eq(&low, &str_to_chars("commodity")) {
        Some(Category::Commodity)
    } else if chars_eq(&low, &str_to_chars("etf")) {
        Some(Category::Etf)
    } else if chars_eq(&low, &str_to_chars("bond")) {
        Some(Category::Bond)
    } else {
        None
    }
}

/// A tradable financial instrument.
#[derive(Debug, Clone)]
pub struct Instrument {
    /// Unique identifier, lowercase (e.g., "eurusd").
    id: String,
    /// Human-readable name (e.g., "EUR/USD").
    name: String,
    /// Description of the instrument.
    description: String,
    /// Instrument category.
    category: Category,
    /// Decimal factor scaling wire prices to real prices.
    decimal_factor: u32,
    /// Earliest available tick data, milliseconds since the epoch.
    start_tick_date: Option<u64>,
}

impl Instrument {
    /// Creates a new instrument.
    pub fn new(
        id: String,
        name: String,
        description: String,
        category: Category,
        decimal_factor: u32,
        start_tick_date: Option<u64>,
    ) -> (r: Instrument)
        ensures
            r.id_chars() == id@,
            r.name_chars() == name@,
            r.description_chars() == description@,
            r.category_spec() == category,
            r.decimal_factor_spec() == decimal_factor,
            r.start_spec() == start_tick_date,
    {
        Instrument { id, name, description, category, decimal_factor, start_tick_date }
    }

    /// The identifier's characters.
    pub closed spec fn id_chars(self) -> Seq<char> {
        self.id@
    }

    /// The name's characters.
    pub closed spec fn name_chars(self) -> Seq<char> {
        self.name@
    }

    /// The description's characters.
    pub closed spec fn description_chars(self) -> Seq<char> {
        self.description@
    }

    /// The category.
    pub closed spec fn category_spec(self) -> Category {
        self.category
    }

    /// The decimal factor.
    pub closed spec fn decimal_factor_spec(self) -> u32 {
        self.decimal_factor
    }

    /// The earliest data instant.
    pub closed spec fn start_spec(self) -> Option<u64> {
        self.start_tick_date
    }

    /// Returns the instrument identifier.
    pub fn id(&self) -> (r: &str)
        ensures
            r@ == self.id_chars(),
    {
        self.id.as_str()
    }

    /// Returns the human-readable name.
    pub fn name(&self) -> (r: &str)
        ensures
            r@ == self.name_chars(),
    {
        self.name.as_str()
    }

    /// Returns the description.
    pub fn description(&self) -> (r: &str)
        ensures
            r@ == self.description_chars(),
    {
        self.description.as_str()
    }

    /// Returns the instrument category.
    pub fn category(&self) -> (r: Category)
        ensures
            r == self.category_spec(),
    {
        self.category
    }

    /// Returns the decimal factor for price normalization.
    pub fn decimal_factor(&self) -> (r: u32)
        ensures
            r == self.decimal_factor_spec(),
    {
        self.decimal_factor
    }

    /// Returns the earliest available tick instant, milliseconds since
    /// the epoch.
    pub fn start_tick_date(&self) -> (r: Option<u64>)
        ensures
            r == self.start_spec(),
    {
        self.start_tick_date
    }

    /// Whether tick data is available at the given instant: an earliest
    /// instant is known and lies at or before it.
    pub fn has_data_for(&self, date_ms: u64) -> (r: bool)
        ensures
            r == (self.start_spec() matches Some(s) && s <= date_ms),
    {
        match self.start_tick_date {
            Some(s) => s <= date_ms,
            None => false,
        }
    }

    /// The effective start of a download: the requested date, or the day
    /// the instrument's data begins when that lies later. An instrument
    /// without a known first day, or with one beyond the supported
    /// calendar, leaves the request unchanged.
    pub fn effective_start(&self, requested: Date) -> (r: Date)
        requires
            requested.valid(),
        ensures
            r.valid(),
            self.start_spec() is None ==> r == requested,
            self.start_spec() matches Some(ms) ==> {
                let first_day = ms as int / MS_PER_DAY as int;
                if first_day < days_before_year(10000) && requested.index() < first_day {
                    r.index() == first_day
                } else {
                    r == requested
                }
            },
    {
        match self.start_tick_date {
            None => requested,
            Some(ms) => {
                let day: u64 = ms / MS_PER_DAY;
                let limit: u64 = supported_day_count();
                if day < limit {
                    let first = Date::from_day_number(day);
                    if first.le(&requested) {
                        requested
                    } else {
                        first
                    }
                } else {
                    requested
                }
            },
        }
    }

    /// Returns true if this is a forex instrument.
    pub fn is_forex(&self) -> (r: bool)
        ensures
            r == (self.category_spec() is Forex),
    {
        matches!(self.category, Category::Forex)
    }

    /// Returns true if this is a cryptocurrency instrument.
    pub fn is_crypto(&self) -> (r: bool)
        ensures
            r == (self.category_spec() is Crypto),
    {
        matches!(self.category, Category::Crypto)
    }

    /// Returns true if this is an index instrument.
    pub fn is_index(&self) -> (r: bool)
        ensures
            r == (self.category_spec() is Index),
    {
        matches!(self.category, Category::Index)
    }

    /// Returns true if this is a stock instrument.
    pub fn is_stock(&self) -> (r: bool)
        ensures
            r == (self.category_spec() is Stock),
    {
        matches!(self.category, Category::Stock)
    }

    /// Returns true if this is a commodity instrument.
    pub fn is_commodity(&self) -> (r: bool)
        ensures
            r == (self.category_spec() is Commodity),
    {
        matches!(self.category, Category::Commodity)
    }
}

/// Registry of the instruments the feed offers.
#[derive(Debug)]
pub struct InstrumentRegistry {
    instruments: Vec<Instrument>,
}

impl InstrumentRegistry {
    /// The instruments held.
    pub closed spec fn entries(self) -> Seq<Instrument> {
        self.instruments@
    }

    /// Builds a registry over the given instruments.
    pub fn new(instruments: Vec<Instrument>) -> (r: InstrumentRegistry)
        ensures
            r.entries() == instruments@,
    {
        InstrumentRegistry { instruments }
    }

    /// Looks up an instrument by identifier, ASCII case-insensitively.
    /// Returns the first instrument whose identifier matches the lowered
    /// query.
    pub fn get(&self, id: &str) -> (r: Option<&Instrument>)
        ensures
            r is Some <==> (exists|i: int|
                0 <= i < self.entries().len() && (#[trigger] self.entries()[i]).id_chars()
                    == lower_seq(id@)),
            r matches Some(inst) ==> inst.id_chars() == lower_seq(id@) && (exists|i: int|
                0 <= i < self.entries().len() && #[trigger] self.entries()[i] == *inst),
    {
        let cs = str_to_chars(id);
        let low = to_lower(&cs);
        proof {
            assert(low@ =~= lower_seq(id@));
        }
        let mut k: usize = 0;
        while k < self.instruments.len()
            invariant
                low@ == lower_seq(id@),
                k <= self.entries().len(),
                forall|i: int|
                    0 <= i < k ==> (#[trigger] self.entries()[i]).id_chars() != lower_seq(id@),
            decreases self.entries().len() - k,
        {
            let entry_id = str_to_chars(self.instruments[k].id());
            if chars_eq(&entry_id, &low) {
                return Some(&self.instruments[k]);
            }
            k = k + 1;
        }
        None
    }

    /// Returns all instruments.
    pub fn all(&self) -> (r: &Vec<Instrument>)
        ensures
            r@ == self.entries(),
    {
        &self.instruments
    }

    /// Returns the total number of instruments.
    pub fn len(&self) -> (r: usize)
        ensures
            r == self.entries().len(),
    {
        self.instruments.len()
    }

    /// Returns true if the registry is empty.
    pub fn is_empty(&self) -> (r: bool)
        ensures
            r == (self.entries().len() == 0),
    {
        self.instruments.len() == 0
    }

    /// The indices of the instruments in the given category, ascending.
    pub fn by_category(&self, category: Category) -> (r: Vec<usize>)
        ensures
            forall|j: int|
                0 <= j < r@.len() ==> (#[trigger] r@[j]) < self.entries().len() && self.entries()[
                    r@[j] as int
                ].category_spec() == category,
            forall|i: int|
                0 <= i < self.entries().len() && (#[trigger] self.entries()[i]).category_spec()
                    == category ==> r@.contains(i as usize),
    {
        let mut out: Vec<usize> = Vec::new();
        let mut k: usize = 0;
        while k < self.instruments.len()
            invariant
                k <= self.entries().len(),
                forall|j: int|
                    0 <= j < out@.len() ==> (#[trigger] out@[j]) < k && self.entries()[
                        out@[j] as int
                    ].category_spec() == category,
                forall|i: int|
                    0 <= i < k && (#[trigger] self.entries()[i]).category_spec() == category
                        ==> out@.contains(i as usize),
            decreases self.entries().len() - k,
        {
            if self.instruments[k].category() == category {
                let ghost before = out@;
                out.push(k);
                proof {
                    assert(out@.last() == k);
                    assert(out@.contains(k));
                    assert(forall|i: int|
                        0 <= i < before.len() ==> #[trigger] out@[i] == before[i]);
                    assert forall|i: int|
                        0 <= i < k + 1 && (#[trigger] self.entries()[i]).category_spec()
                            == category implies out@.contains(i as usize) by {
                        if i < k {
                            let w = choose|w: int| 0 <= w < before.len() && before[w] == i as usize;
                            assert(out@[w] == i as usize);
                        }
                    }
                }
            }
            k = k + 1;
        }
        out
    }
}

} // verus!
