use vstd::prelude::*;

use crate::asset::AssetType;
use crate::ticker::{
    eq_ignore_ascii_case, eq_ignore_ascii_case_spec, lemma_eq_ignore_ascii_case_meaning,
    lemma_eq_ignore_ascii_case_symmetric, lemma_eq_ignore_ascii_case_transitive,
};

verus! {

/// Error of a repository operation.
#[derive(Debug, Clone, PartialEq, Eq)]
pub enum RepositoryError {
    /// No position carries the requested ticker.
    NotFound(String),
    /// The underlying store failed.
    Internal(String),
}

/// The human-readable message of a repository error.
pub open spec fn error_message(e: RepositoryError) -> Seq<char> {
    match e {
        RepositoryError::NotFound(ticker) => "Position not found: "@ + ticker@,
        RepositoryError::Internal(msg) => "Repository internal error: "@ + msg@,
    }
}

impl RepositoryError {
    /// Renders the error as its message, e.g. `Position not found: BTC`.
    pub fn to_string(&self) -> (s: String)
        ensures
            s@ == error_message(*self),
    {
        match self {
            RepositoryError::NotFound(ticker) => {
                String::from_str("Position not found: ").concat(ticker.as_str())
            },
            RepositoryError::Internal(msg) => {
                String::from_str("Repository internal error: ").concat(msg.as_str())
            },
        }
    }
}

/// One position of the book. `P` is the numeric type in which quantities and
/// prices are held; the book moves these values but never computes with them.
pub struct PositionRecord<P> {
    /// Asset symbol, e.g. "AAPL", "BTC", "US10Y".
    pub ticker: String,
    /// Classification of the instrument.
    pub asset_type: AssetType,
    /// Number of units held.
    pub quantity: P,
    /// Weighted average acquisition price per unit.
    pub buy_price: P,
    /// Current market price per unit.
    pub current_price: P,
}

impl<P: Copy> Clone for PositionRecord<P> {
    fn clone(&self) -> (c: Self)
        ensures
            c == *self,
    {
        PositionRecord {
            ticker: self.ticker.clone(),
            asset_type: self.asset_type,
            quantity: self.quantity,
            buy_price: self.buy_price,
            current_price: self.current_price,
        }
    }
}

/// The record's ticker equals `ticker` up to ASCII case.
pub open spec fn ticker_matches<P>(r: PositionRecord<P>, ticker: Seq<char>) -> bool {
    eq_ignore_ascii_case_spec(r.ticker@, ticker)
}

/// Index `i` holds the first record whose ticker matches `ticker`.
pub open spec fn is_first_match<P>(s: Seq<PositionRecord<P>>, ticker: Seq<char>, i: int) -> bool {
    &&& 0 <= i < s.len()
    &&& ticker_matches(s[i], ticker)
    &&& forall|j: int| 0 <= j < i ==> !#[trigger] ticker_matches(s[j], ticker)
}

/// The index of the first record whose ticker matches `ticker`, if any.
pub open spec fn first_match<P>(s: Seq<PositionRecord<P>>, ticker: Seq<char>) -> Option<int> {
    if exists|i: int| is_first_match(s, ticker, i) {
        Some(choose|i: int| is_first_match(s, ticker, i))
    } else {
        None
    }
}

/// The record with its current price replaced by `price`.
pub open spec fn with_price<P>(r: PositionRecord<P>, price: P) -> PositionRecord<P> {
    PositionRecord {
        ticker: r.ticker,
        asset_type: r.asset_type,
        quantity: r.quantity,
        buy_price: r.buy_price,
        current_price: price,
    }
}

/// The book after marking the first position that matches `ticker` to `price`;
/// unchanged when no position matches.
pub open spec fn apply_price_update<P>(
    s: Seq<PositionRecord<P>>,
    ticker: Seq<char>,
    price: P,
) -> Seq<PositionRecord<P>> {
    match first_match(s, ticker) {
        Some(i) => s.update(i, with_price(s[i], price)),
        None => s,
    }
}

/// A first match is the first match.
pub proof fn lemma_first_match_at<P>(s: Seq<PositionRecord<P>>, ticker: Seq<char>, i: int)
    requires
        is_first_match(s, ticker, i),
    ensures
        first_match(s, ticker) == Some(i),
{
    let k = choose|k: int| is_first_match(s, ticker, k);
    assert(is_first_match(s, ticker, k));
    if k < i {
        assert(!ticker_matches(s[k], ticker));
    } else if i < k {
        assert(!ticker_matches(s[i], ticker));
    }
}

/// A ticker that matches some record has a first match.
pub proof fn lemma_match_has_first<P>(s: Seq<PositionRecord<P>>, ticker: Seq<char>, k: int)
    requires
        0 <= k < s.len(),
        ticker_matches(s[k], ticker),
    ensures
        first_match(s, ticker) is Some,
        ticker_matches(s[first_match(s, ticker)->0], ticker),
        0 <= first_match(s, ticker)->0 <= k,
    decreases k,
{
    if exists|j: int| 0 <= j < k && ticker_matches(s[j], ticker) {
        let j = choose|j: int| 0 <= j < k && ticker_matches(s[j], ticker);
        lemma_match_has_first(s, ticker, j);
    } else {
        assert(is_first_match(s, ticker, k));
        lemma_first_match_at(s, ticker, k);
    }
}

/// No record matches `ticker` exactly when there is no first match.
pub proof fn lemma_no_match<P>(s: Seq<PositionRecord<P>>, ticker: Seq<char>)
    ensures
        first_match(s, ticker) is None <==> forall|j: int|
            0 <= j < s.len() ==> !#[trigger] ticker_matches(s[j], ticker),
{
    if exists|j: int| 0 <= j < s.len() && ticker_matches(s[j], ticker) {
        let j = choose|j: int| 0 <= j < s.len() && ticker_matches(s[j], ticker);
        lemma_match_has_first(s, ticker, j);
    }
}


/// The in-memory book of positions, in insertion order. Tickers need not be
/// unique: lookups and updates address the first position that matches.
pub struct PositionBook<P> {
    records: Vec<PositionRecord<P>>,
}

impl<P> View for PositionBook<P> {
    type V = Seq<PositionRecord<P>>;

    closed spec fn view(&self) -> Seq<PositionRecord<P>> {
        self.records@
    }
}

impl<P: Copy> PositionBook<P> {
    /// Creates a book holding exactly the given positions, in order.
    pub fn with_positions(positions: Vec<PositionRecord<P>>) -> (book: Self)
        ensures
            book@ == positions@,
    {
        PositionBook { records: positions }
    }

    /// Number of positions held.
    pub fn len(&self) -> (n: usize)
        ensures
            n == self@.len(),
    {
        self.records.len()
    }

    /// Retrieves all positions, in order. The in-memory book never fails.
    pub fn get_all_positions(&self) -> (res: Result<Vec<PositionRecord<P>>, RepositoryError>)
        ensures
            res matches Ok(v) && v@ == self@,
    {
        let n = self.records.len();
        let mut out: Vec<PositionRecord<P>> = Vec::new();
        let mut i: usize = 0;
        while i < n
            invariant
                n == self@.len(),
                i <= n,
                out@ == self@.subrange(0, i as int),
            decreases n - i,
        {
            out.push(self.records[i].clone());
            i = i + 1;
        }
        Ok(out)
    }

    /// Index of the first position whose ticker matches `ticker`, ignoring ASCII case.
    pub fn position_index(&self, ticker: &str) -> (res: Option<usize>)
        ensures
            match res {
                Some(i) => first_match(self@, ticker@) == Some(i as int),
                None => first_match(self@, ticker@) is None,
            },
    {
        let n = self.records.len();
        let mut i: usize = 0;
        while i < n
            invariant
                n == self@.len(),
                i <= n,
                forall|j: int| 0 <= j < i ==> !#[trigger] ticker_matches(self@[j], ticker@),
            decreases n - i,
        {
            if eq_ignore_ascii_case(self.records[i].ticker.as_str(), ticker) {
                proof {
                    assert(is_first_match(self@, ticker@, i as int));
                    lemma_first_match_at(self@, ticker@, i as int);
                }
                return Some(i);
            }
            i = i + 1;
        }
        proof {
            lemma_no_match(self@, ticker@);
        }
        None
    }

    /// Marks the first position matching `ticker` (ignoring ASCII case) to
    /// `new_price`. Fails with `NotFound(ticker)`, leaving the book unchanged,
    /// when no position matches.
    pub fn update_price(&mut self, ticker: &str, new_price: P) -> (res: Result<(), RepositoryError>)
        ensures
            final(self)@ == apply_price_update(old(self)@, ticker@, new_price),
            match first_match(old(self)@, ticker@) {
                Some(_) => res is Ok,
                None => res matches Err(RepositoryError::NotFound(t)) && t@ == ticker@,
            },
    {
        match self.position_index(ticker) {
            Some(i) => {
                let mut rec = self.records[i].clone();
                rec.current_price = new_price;
                self.records.set(i, rec);
                Ok(())
            },
            None => Err(RepositoryError::NotFound(String::from_str(ticker))),
        }
    }
}


/// Books with the same tickers in the same order resolve every ticker to the
/// same position.
proof fn lemma_first_match_depends_on_tickers<P>(
    s1: Seq<PositionRecord<P>>,
    s2: Seq<PositionRecord<P>>,
    ticker: Seq<char>,
)
    requires
        s1.len() == s2.len(),
        forall|j: int| 0 <= j < s1.len() ==> #[trigger] s1[j].ticker@ == s2[j].ticker@,
    ensures
        first_match(s1, ticker) == first_match(s2, ticker),
{
    assert forall|j: int|
        #![trigger ticker_matches(s1[j], ticker)]
        #![trigger ticker_matches(s2[j], ticker)]
        0 <= j < s1.len() implies ticker_matches(s1[j], ticker) == ticker_matches(s2[j], ticker) by {
        assert(s1[j].ticker@ == s2[j].ticker@);
    }
    if exists|i: int| is_first_match(s1, ticker, i) {
        let i = choose|i: int| is_first_match(s1, ticker, i);
        assert(is_first_match(s2, ticker, i));
        lemma_first_match_at(s1, ticker, i);
        lemma_first_match_at(s2, ticker, i);
    } else if exists|i: int| is_first_match(s2, ticker, i) {
        let i = choose|i: int| is_first_match(s2, ticker, i);
        assert(is_first_match(s1, ticker, i));
    }
}

/// A price update changes nothing but one price: the book keeps its length,
/// and every position keeps its ticker, asset type, quantity and buy price;
/// every position other than the first match is left as it was.
pub proof fn lemma_update_changes_only_the_price<P>(
    s: Seq<PositionRecord<P>>,
    ticker: Seq<char>,
    price: P,
)
    ensures
        apply_price_update(s, ticker, price).len() == s.len(),
        forall|j: int|
            0 <= j < s.len() ==> {
                let r = #[trigger] apply_price_update(s, ticker, price)[j];
                &&& r.ticker == s[j].ticker
                &&& r.asset_type == s[j].asset_type
                &&& r.quantity == s[j].quantity
                &&& r.buy_price == s[j].buy_price
            },
        forall|j: int|
            0 <= j < s.len() && first_match(s, ticker) != Some(j) ==> #[trigger] apply_price_update(
                s,
                ticker,
                price,
            )[j] == s[j],
{
    if let Some(i) = first_match(s, ticker) {
        lemma_match_has_first(s, ticker, i);
    }
}

/// Read after write: after a successful update the first position matching the
/// ticker carries the new price, and a price update never changes which
/// position any ticker names. Without a match the book is unchanged.
pub proof fn lemma_update_then_read<P>(
    s: Seq<PositionRecord<P>>,
    ticker: Seq<char>,
    price: P,
    other: Seq<char>,
)
    ensures
        match first_match(s, ticker) {
            Some(i) => {
                &&& 0 <= i < s.len()
                &&& apply_price_update(s, ticker, price)[i].current_price == price
                &&& ticker_matches(apply_price_update(s, ticker, price)[i], ticker)
            },
            None => apply_price_update(s, ticker, price) == s,
        },
        first_match(apply_price_update(s, ticker, price), other) == first_match(s, other),
{
    lemma_update_changes_only_the_price(s, ticker, price);
    if let Some(i) = first_match(s, ticker) {
        lemma_match_has_first(s, ticker, i);
    }
    let t = apply_price_update(s, ticker, price);
    assert forall|j: int| 0 <= j < t.len() implies #[trigger] t[j].ticker@ == s[j].ticker@ by {
        assert(t[j].ticker == s[j].ticker);
    }
    lemma_first_match_depends_on_tickers(t, s, other);
}

/// The last write wins: updating a ticker twice leaves the book as the second
/// update alone would.
pub proof fn lemma_update_last_write_wins<P>(
    s: Seq<PositionRecord<P>>,
    ticker: Seq<char>,
    p: P,
    q: P,
)
    ensures
        apply_price_update(apply_price_update(s, ticker, p), ticker, q) == apply_price_update(
            s,
            ticker,
            q,
        ),
{
    lemma_update_then_read(s, ticker, p, ticker);
    if let Some(i) = first_match(s, ticker) {
        lemma_match_has_first(s, ticker, i);
        assert(apply_price_update(apply_price_update(s, ticker, p), ticker, q) =~= apply_price_update(
            s,
            ticker,
            q,
        ));
    }
}

/// Lookups ignore ASCII case: two tickers equal up to ASCII case name the same
/// position, and updating by either has the same effect.
pub proof fn lemma_lookup_ignores_ascii_case<P>(
    s: Seq<PositionRecord<P>>,
    t1: Seq<char>,
    t2: Seq<char>,
    price: P,
)
    requires
        eq_ignore_ascii_case_spec(t1, t2),
    ensures
        first_match(s, t1) == first_match(s, t2),
        apply_price_update(s, t1, price) == apply_price_update(s, t2, price),
{
    lemma_eq_ignore_ascii_case_symmetric(t1, t2);
    assert forall|j: int|
        #![trigger ticker_matches(s[j], t1)]
        #![trigger ticker_matches(s[j], t2)]
        0 <= j < s.len() implies ticker_matches(s[j], t1) == ticker_matches(s[j], t2) by {
        if ticker_matches(s[j], t1) {
            lemma_eq_ignore_ascii_case_transitive(s[j].ticker@, t1, t2);
        }
        if ticker_matches(s[j], t2) {
            lemma_eq_ignore_ascii_case_transitive(s[j].ticker@, t2, t1);
        }
    }
    if exists|i: int| is_first_match(s, t1, i) {
        let i = choose|i: int| is_first_match(s, t1, i);
        assert(is_first_match(s, t2, i));
        lemma_first_match_at(s, t1, i);
        lemma_first_match_at(s, t2, i);
    } else if exists|i: int| is_first_match(s, t2, i) {
        let i = choose|i: int| is_first_match(s, t2, i);
        assert(is_first_match(s, t1, i));
    }
}

/// Updates that address different positions commute.
pub proof fn lemma_updates_of_distinct_positions_commute<P>(
    s: Seq<PositionRecord<P>>,
    t1: Seq<char>,
    p: P,
    t2: Seq<char>,
    q: P,
)
    requires
        first_match(s, t1) != first_match(s, t2),
    ensures
        apply_price_update(apply_price_update(s, t1, p), t2, q) == apply_price_update(
            apply_price_update(s, t2, q),
            t1,
            p,
        ),
{
    lemma_update_then_read(s, t1, p, t2);
    lemma_update_then_read(s, t2, q, t1);
    if let Some(i) = first_match(s, t1) {
        lemma_match_has_first(s, t1, i);
    }
    if let Some(i) = first_match(s, t2) {
        lemma_match_has_first(s, t2, i);
    }
    assert(apply_price_update(apply_price_update(s, t1, p), t2, q) =~= apply_price_update(
        apply_price_update(s, t2, q),
        t1,
        p,
    ));
}


/// Meaning of a lookup, character by character: the position a ticker names is
/// the first one whose ticker has the query's length and, at every position,
/// the same character or the other ASCII case of the same letter; there is none
/// exactly when no position's ticker is spelled so. Nothing else (length of the
/// ticker, digits, punctuation) excludes a position.
pub proof fn lemma_first_match_meaning<P>(s: Seq<PositionRecord<P>>, t: Seq<char>)
    ensures
        match first_match(s, t) {
            Some(i) => {
                &&& 0 <= i < s.len()
                &&& s[i].ticker@.len() == t.len()
                &&& forall|c: int|
                    #![trigger s[i].ticker@[c], t[c]]
                    0 <= c < t.len() ==> {
                        ||| s[i].ticker@[c] == t[c]
                        ||| 65 <= (s[i].ticker@[c] as u32) <= 90 && (t[c] as u32) == (
                        s[i].ticker@[c] as u32) + 32
                        ||| 65 <= (t[c] as u32) <= 90 && (s[i].ticker@[c] as u32) == (t[c] as u32)
                            + 32
                    }
                &&& forall|j: int|
                    0 <= j < i ==> !{
                        &&& (#[trigger] s[j]).ticker@.len() == t.len()
                        &&& forall|c: int|
                            #![trigger s[j].ticker@[c], t[c]]
                            0 <= c < t.len() ==> {
                                ||| s[j].ticker@[c] == t[c]
                                ||| 65 <= (s[j].ticker@[c] as u32) <= 90 && (t[c] as u32) == (
                                s[j].ticker@[c] as u32) + 32
                                ||| 65 <= (t[c] as u32) <= 90 && (s[j].ticker@[c] as u32) == (
                                t[c] as u32) + 32
                            }
                    }
            },
            None => forall|j: int|
                0 <= j < s.len() ==> !{
                    &&& (#[trigger] s[j]).ticker@.len() == t.len()
                    &&& forall|c: int|
                        #![trigger s[j].ticker@[c], t[c]]
                        0 <= c < t.len() ==> {
                            ||| s[j].ticker@[c] == t[c]
                            ||| 65 <= (s[j].ticker@[c] as u32) <= 90 && (t[c] as u32) == (
                            s[j].ticker@[c] as u32) + 32
                            ||| 65 <= (t[c] as u32) <= 90 && (s[j].ticker@[c] as u32) == (t[c]
                                as u32) + 32
                        }
                },
        },
{
    assert forall|j: int|
        #![trigger ticker_matches(s[j], t)]
        #![trigger s[j]]
        0 <= j < s.len() implies ticker_matches(s[j], t) == {
        &&& s[j].ticker@.len() == t.len()
        &&& forall|c: int|
            #![trigger s[j].ticker@[c], t[c]]
            0 <= c < t.len() ==> {
                ||| s[j].ticker@[c] == t[c]
                ||| 65 <= (s[j].ticker@[c] as u32) <= 90 && (t[c] as u32) == (s[j].ticker@[c]
                    as u32) + 32
                ||| 65 <= (t[c] as u32) <= 90 && (s[j].ticker@[c] as u32) == (t[c] as u32) + 32
            }
    } by {
        lemma_eq_ignore_ascii_case_meaning(s[j].ticker@, t);
    }
    lemma_no_match(s, t);
    if let Some(i) = first_match(s, t) {
        let k = choose|k: int| 0 <= k < s.len() && ticker_matches(s[k], t);
        lemma_match_has_first(s, t, k);
        assert(is_first_match(s, t, i));
        assert(ticker_matches(s[i], t));
        assert forall|j: int| 0 <= j < i implies !ticker_matches(#[trigger] s[j], t) by {
            assert(!ticker_matches(s[j], t));
        }
    } else {
        assert forall|j: int| 0 <= j < s.len() implies !ticker_matches(#[trigger] s[j], t) by {
            assert(!ticker_matches(s[j], t));
        }
    }
}

/// A position is always found by its own ticker and by any ASCII case variant
/// of it, whatever its length or characters: when position `k` holds a ticker
/// spelled like the query up to ASCII letter case, the query names position `k`
/// or an earlier one, and a price update by that query succeeds and is read
/// back there.
pub proof fn lemma_ticker_spelled_alike_is_found<P>(
    s: Seq<PositionRecord<P>>,
    t: Seq<char>,
    k: int,
    price: P,
)
    requires
        0 <= k < s.len(),
        s[k].ticker@.len() == t.len(),
        forall|c: int|
            #![trigger s[k].ticker@[c], t[c]]
            0 <= c < t.len() ==> {
                ||| s[k].ticker@[c] == t[c]
                ||| 65 <= (s[k].ticker@[c] as u32) <= 90 && (t[c] as u32) == (s[k].ticker@[c]
                    as u32) + 32
                ||| 65 <= (t[c] as u32) <= 90 && (s[k].ticker@[c] as u32) == (t[c] as u32) + 32
            },
    ensures
        first_match(s, t) matches Some(i) && 0 <= i <= k && apply_price_update(s, t, price)[i].current_price == price,
{
    lemma_eq_ignore_ascii_case_meaning(s[k].ticker@, t);
    assert(ticker_matches(s[k], t));
    lemma_match_has_first(s, t, k);
    lemma_update_then_read(s, t, price, t);
}

} // verus!
