//! Ticks: one timestamped bid/ask observation, and its text forms.

use vstd::prelude::*;

use crate::json::{json_quoted, json_str_at, json_str_member, json_u64_at, json_u64_member, quote_json};
use crate::decimal::{all_digits, dec, digit_value, digits_value, field_value, is_digit, write_decimal};

verus! {

/// A generic tick: a timestamp and data of the caller's choosing.
#[derive(Clone, Debug)]
pub struct GenTick<T> {
    pub timestamp: u64,
    pub data: T,
}

/// A tick holding a bid and an ask in pips.
#[derive(Clone, Copy, Debug, PartialEq, Eq, Structural)]
pub struct Tick {
    pub bid: usize,
    pub ask: usize,
    pub timestamp: u64,
}

/// A tick together with the symbol it was observed for.
#[derive(Clone, Debug, PartialEq)]
pub struct SymbolTick {
    pub bid: usize,
    pub ask: usize,
    pub timestamp: u64,
    pub symbol: String,
}

/// The two characters that separate the fields of a text row.
pub open spec fn row_sep() -> Seq<char> {
    seq![',', ' ']
}

/// The text row of a tick: `"timestamp, bid, ask\n"`.
pub open spec fn csv_row(t: Tick) -> Seq<char> {
    dec(t.timestamp as nat) + row_sep() + dec(t.bid as nat) + row_sep() + dec(t.ask as nat)
        + seq!['\n']
}

/// The JSON object of a tick and its symbol, in the member order
/// `bid`, `ask`, `timestamp`, `symbol`, with no white space.
pub open spec fn json_row(t: Tick, symbol: Seq<char>) -> Seq<char> {
    seq!['{', '"', 'b', 'i', 'd', '"', ':'] + dec(t.bid as nat)
        + seq![',', '"', 'a', 's', 'k', '"', ':'] + dec(t.ask as nat)
        + seq![',', '"', 't', 'i', 'm', 'e', 's', 't', 'a', 'm', 'p', '"', ':'] + dec(t.timestamp as nat)
        + seq![',', '"', 's', 'y', 'm', 'b', 'o', 'l', '"', ':'] + json_quoted(symbol) + seq!['}']
}

/// The tick made of three decoded members; `None` where one is missing or a price
/// does not fit in a `usize`.
pub open spec fn tick_of_members(bid: Option<u64>, ask: Option<u64>, timestamp: Option<u64>) -> Option<Tick> {
    match (bid, ask, timestamp) {
        (Some(b), Some(a), Some(ts)) => {
            if b <= usize::MAX && a <= usize::MAX {
                Some(Tick { bid: b as usize, ask: a as usize, timestamp: ts })
            } else {
                None
            }
        },
        _ => None,
    }
}

/// The tick that a JSON text denotes, as serde_json reads its members.
pub open spec fn json_tick(s: Seq<char>) -> Option<Tick> {
    tick_of_members(json_u64_at(s, "bid"@), json_u64_at(s, "ask"@), json_u64_at(s, "timestamp"@))
}

/// Whether a field separator starts at position `j` of `s`.
pub open spec fn sep_at(s: Seq<char>, j: int) -> bool {
    0 <= j && j + 1 < s.len() && s[j] == ',' && s[j + 1] == ' '
}

/// The first position at or after `k` where a separator starts, or the length of `s`.
pub open spec fn find_sep(s: Seq<char>, k: int) -> int
    decreases s.len() - k,
{
    if k < 0 || k + 1 >= s.len() {
        s.len() as int
    } else if sep_at(s, k) {
        k
    } else {
        find_sep(s, k + 1)
    }
}

/// The first position at or after `k` that holds a line break, or the length of `s`.
pub open spec fn find_newline(s: Seq<char>, k: int) -> int
    decreases s.len() - k,
{
    if k < 0 || k >= s.len() {
        s.len() as int
    } else if s[k] == '\n' {
        k
    } else {
        find_newline(s, k + 1)
    }
}

/// The tick that a text row denotes: the text is split at each `", "`; the first
/// piece is the timestamp, the second the bid, and the third, up to its first line
/// break, the ask. Each must be a run of digits whose value fits its field.
pub open spec fn csv_tick(s: Seq<char>) -> Option<Tick> {
    let a = find_sep(s, 0);
    let b = find_sep(s, a + 2);
    let c = find_sep(s, b + 2);
    let third = s.subrange(b + 2, c);
    let ask_text = third.subrange(0, find_newline(third, 0));
    if a >= s.len() || b >= s.len() {
        None
    } else {
        match (field_value(s.subrange(0, a)), field_value(s.subrange(a + 2, b)), field_value(ask_text)) {
            (Some(ts), Some(bid), Some(ask)) => {
                if bid <= usize::MAX && ask <= usize::MAX {
                    Some(Tick { bid: bid as usize, ask: ask as usize, timestamp: ts })
                } else {
                    None
                }
            },
            _ => None,
        }
    }
}

impl Tick {
    /// A placeholder tick with every field zero.
    pub fn null() -> (r: Tick)
        ensures
            r == (Tick { bid: 0, ask: 0, timestamp: 0 }),
    {
        Tick { bid: 0, ask: 0, timestamp: 0 }
    }

    /// The text row `"timestamp, bid, ask\n"` of this tick.
    pub fn to_csv_row(&self) -> (r: String)
        ensures
            r@ == csv_row(*self),
    {
        proof {
            reveal_strlit(", ");
            reveal_strlit("\n");
        }
        let r = write_decimal(self.timestamp).concat(", ");
        let r = r.concat(write_decimal(self.bid as u64).as_str());
        let r = r.concat(", ");
        let r = r.concat(write_decimal(self.ask as u64).as_str());
        let r = r.concat("\n");
        proof {
            assert(r@ =~= csv_row(*self));
        }
        r
    }

    /// Builds a tick from decoded members: `None` where one is missing or a price
    /// does not fit in a `usize`.
    pub fn from_members(bid: Option<u64>, ask: Option<u64>, timestamp: Option<u64>) -> (r: Option<Tick>)
        ensures
            r == tick_of_members(bid, ask, timestamp),
    {
        match (bid, ask, timestamp) {
            (Some(b), Some(a), Some(ts)) => {
                if b <= usize::MAX as u64 && a <= usize::MAX as u64 {
                    Some(Tick { bid: b as usize, ask: a as usize, timestamp: ts })
                } else {
                    None
                }
            },
            _ => None,
        }
    }

    /// Reads a tick from a JSON object with unsigned integer members `bid`, `ask`
    /// and `timestamp`; other members are ignored. `None` where there is no such object.
    pub fn from_json_string(s: String) -> (r: Option<Tick>)
        ensures
            r == json_tick(s@),
    {
        let bid = json_u64_member(s.as_str(), "bid");
        let ask = json_u64_member(s.as_str(), "ask");
        let timestamp = json_u64_member(s.as_str(), "timestamp");
        Tick::from_members(bid, ask, timestamp)
    }

    /// The JSON object of this tick qualified by `symbol`:
    /// `{"bid":B,"ask":A,"timestamp":T,"symbol":"S"}`.
    pub fn to_json_string(&self, symbol: String) -> (r: String)
        ensures
            r@ == json_row(*self, symbol@),
    {
        proof {
            reveal_strlit("{\"bid\":");
            reveal_strlit(",\"ask\":");
            reveal_strlit(",\"timestamp\":");
            reveal_strlit(",\"symbol\":");
            reveal_strlit("}");
        }
        let r = String::from_str("{\"bid\":").concat(write_decimal(self.bid as u64).as_str());
        let r = r.concat(",\"ask\":").concat(write_decimal(self.ask as u64).as_str());
        let r = r.concat(",\"timestamp\":").concat(write_decimal(self.timestamp).as_str());
        let r = r.concat(",\"symbol\":").concat(quote_json(symbol.as_str()).as_str());
        let r = r.concat("}");
        proof {
            assert(r@ =~= json_row(*self, symbol@));
        }
        r
    }

    /// The difference between the bid and the ask.
    pub fn spread(&self) -> (r: usize)
        requires
            self.ask <= self.bid,
        ensures
            r == self.bid - self.ask,
    {
        self.bid - self.ask
    }

    /// The mean of the bid and the ask, rounded down.
    pub fn mid(&self) -> (r: usize)
        requires
            self.bid + self.ask <= usize::MAX,
        ensures
            r == (self.bid + self.ask) / 2,
    {
        (self.bid + self.ask) / 2
    }

    /// Drops the symbol of a symbol tick.
    pub fn from_symboltick(st: SymbolTick) -> (r: Tick)
        ensures
            r == (Tick { bid: st.bid, ask: st.ask, timestamp: st.timestamp }),
    {
        Tick { timestamp: st.timestamp, bid: st.bid, ask: st.ask }
    }

    /// Reads a text row `"timestamp, bid, ask"`, optionally ended by a line break.
    /// `None` where the row is not of that form.
    pub fn from_csv_string(s: &str) -> (r: Option<Tick>)
        ensures
            r == csv_tick(s@),
    {
        let n = s.unicode_len();
        let a = next_sep(s, 0);
        if a >= n {
            return None;
        }
        let b = next_sep(s, a + 2);
        if b >= n {
            return None;
        }
        let c = next_sep(s, b + 2);
        let e = next_newline(s, b + 2, c);
        proof {
            let third = s@.subrange(b + 2, c as int);
            assert(third.subrange(0, find_newline(third, 0)) =~= s@.subrange(b + 2, e as int));
        }
        let ts = parse_field(s, 0, a);
        let bid = parse_field(s, a + 2, b);
        let ask = parse_field(s, b + 2, e);
        match (ts, bid, ask) {
            (Some(ts), Some(bid), Some(ask)) => {
                if bid <= usize::MAX as u64 && ask <= usize::MAX as u64 {
                    Some(Tick { bid: bid as usize, ask: ask as usize, timestamp: ts })
                } else {
                    None
                }
            },
            _ => None,
        }
    }
}

impl SymbolTick {
    /// Pairs a tick with a symbol.
    pub fn from_tick(tick: Tick, symbol: String) -> (r: SymbolTick)
        ensures
            r.bid == tick.bid,
            r.ask == tick.ask,
            r.timestamp == tick.timestamp,
            r.symbol == symbol,
    {
        SymbolTick { bid: tick.bid, ask: tick.ask, timestamp: tick.timestamp, symbol }
    }

    /// Reads a symbol tick from a JSON object with unsigned integer members `bid`,
    /// `ask`, `timestamp` and a string member `symbol`. `None` where there is no such object.
    pub fn from_json_string(s: String) -> (r: Option<SymbolTick>)
        ensures
            match r {
                Some(st) => json_tick(s@) == Some(Tick { bid: st.bid, ask: st.ask, timestamp: st.timestamp })
                    && json_str_at(s@, "symbol"@) == Some(st.symbol@),
                None => json_tick(s@) is None || json_str_at(s@, "symbol"@) is None,
            },
    {
        match Tick::from_json_string(s.clone()) {
            Some(t) => match json_str_member(s.as_str(), "symbol") {
                Some(sym) => Some(SymbolTick::from_tick(t, sym)),
                None => None,
            },
            None => None,
        }
    }
}

fn next_sep(s: &str, k: usize) -> (r: usize)
    requires
        k <= s@.len(),
    ensures
        r as int == find_sep(s@, k as int),
        k <= r <= s@.len(),
        r < s@.len() ==> r + 1 < s@.len(),
{
    let n = s.unicode_len();
    let mut j = k;
    while n - j > 1
        invariant
            n == s@.len(),
            k <= j <= n,
            find_sep(s@, k as int) == find_sep(s@, j as int),
        decreases n - j,
    {
        if s.get_char(j) == ',' && s.get_char(j + 1) == ' ' {
            return j;
        }
        j = j + 1;
    }
    n
}

fn next_newline(s: &str, from: usize, to: usize) -> (r: usize)
    requires
        from <= to <= s@.len(),
    ensures
        from <= r <= to,
        r - from == find_newline(s@.subrange(from as int, to as int), 0),
{
    let ghost t = s@.subrange(from as int, to as int);
    let mut j = from;
    while j < to
        invariant
            from <= j <= to <= s@.len(),
            t == s@.subrange(from as int, to as int),
            find_newline(t, 0) == find_newline(t, j - from),
        decreases to - j,
    {
        if s.get_char(j) == '\n' {
            return j;
        }
        j = j + 1;
    }
    to
}

proof fn lemma_find_sep_at(s: Seq<char>, k: int, j: int)
    requires
        0 <= k <= j <= s.len(),
        forall|i: int| k <= i < j ==> s[i] != ',',
        j == s.len() || sep_at(s, j),
    ensures
        find_sep(s, k) == j,
    decreases j - k,
{
    if k < j {
        lemma_find_sep_at(s, k + 1, j);
    }
}

proof fn lemma_find_newline_at(s: Seq<char>, k: int, j: int)
    requires
        0 <= k <= j < s.len(),
        forall|i: int| k <= i < j ==> s[i] != '\n',
        s[j] == '\n',
    ensures
        find_newline(s, k) == j,
    decreases j - k,
{
    if k < j {
        lemma_find_newline_at(s, k + 1, j);
    }
}

proof fn lemma_digits_no_comma(s: Seq<char>, x: Seq<char>, off: int)
    requires
        0 <= off,
        off + x.len() <= s.len(),
        s.subrange(off, off + x.len()) == x,
        all_digits(x),
    ensures
        forall|i: int| off <= i < off + x.len() ==> s[i] != ',' && s[i] != '\n',
{
    assert forall|i: int| off <= i < off + x.len() implies s[i] != ',' && s[i] != '\n' by {
        assert(s[i] == s.subrange(off, off + x.len())[i - off]);
        assert(is_digit(x[i - off]));
    }
}

/// Reading back the text row of a tick gives the tick.
pub proof fn lemma_csv_round_trip(t: Tick)
    ensures
        csv_tick(csv_row(t)) == Some(t),
{
    let d1 = dec(t.timestamp as nat);
    let d2 = dec(t.bid as nat);
    let d3 = dec(t.ask as nat);
    let s = csv_row(t);
    crate::decimal::lemma_dec_reads_back(t.timestamp as nat);
    crate::decimal::lemma_dec_reads_back(t.bid as nat);
    crate::decimal::lemma_dec_reads_back(t.ask as nat);
    let a = d1.len() as int;
    let b = a + 2 + d2.len();
    let n = s.len() as int;
    assert(n == b + 2 + d3.len() + 1);
    assert(s.subrange(0, a) =~= d1);
    assert(s.subrange(a + 2, b) =~= d2);
    assert(s.subrange(b + 2, n - 1) =~= d3);
    assert(s[a] == ',' && s[a + 1] == ' ');
    assert(s[b] == ',' && s[b + 1] == ' ');
    assert(s[n - 1] == '\n');
    lemma_digits_no_comma(s, d1, 0);
    lemma_digits_no_comma(s, d2, a + 2);
    lemma_digits_no_comma(s, d3, b + 2);
    lemma_find_sep_at(s, 0, a);
    lemma_find_sep_at(s, a + 2, b);
    lemma_find_sep_at(s, b + 2, n);
    let third = s.subrange(b + 2, n);
    lemma_find_newline_at(third, 0, third.len() - 1);
    assert(third.subrange(0, third.len() - 1) =~= d3);
}

proof fn lemma_prefix_value_le(s: Seq<char>, j: int)
    requires
        all_digits(s),
        0 <= j <= s.len(),
    ensures
        digits_value(s.subrange(0, j)) <= digits_value(s),
    decreases s.len(),
{
    if j < s.len() {
        let d = s.drop_last();
        assert(d.subrange(0, j) =~= s.subrange(0, j));
        lemma_prefix_value_le(d, j);
    } else {
        assert(s.subrange(0, j) =~= s);
    }
}

fn parse_field(s: &str, from: usize, to: usize) -> (r: Option<u64>)
    requires
        from <= to <= s@.len(),
    ensures
        r == field_value(s@.subrange(from as int, to as int)),
{
    let ghost f = s@.subrange(from as int, to as int);
    if from == to {
        return None;
    }
    let mut acc: u64 = 0;
    let mut i = from;
    while i < to
        invariant
            from <= i <= to <= s@.len(),
            f == s@.subrange(from as int, to as int),
            all_digits(f.subrange(0, i - from)),
            acc as nat == digits_value(f.subrange(0, i - from)),
        decreases to - i,
    {
        let c = s.get_char(i);
        let ghost p = f.subrange(0, i - from + 1);
        assert(p.drop_last() =~= f.subrange(0, i - from));
        if !('0' <= c && c <= '9') {
            assert(!is_digit(f[i - from]));
            return None;
        }
        let d = (c as u32 - '0' as u32) as u64;
        assert(d == digit_value(c));
        if acc > (u64::MAX - d) / 10 {
            proof {
                assert(digits_value(p) > u64::MAX);
                if all_digits(f) {
                    lemma_prefix_value_le(f, i - from + 1);
                }
            }
            return None;
        }
        acc = acc * 10 + d;
        i = i + 1;
        assert(all_digits(f.subrange(0, i - from))) by {
            assert forall|j: int| 0 <= j < p.len() implies #[trigger] is_digit(p[j]) by {
                if j < p.len() - 1 {
                    assert(p[j] == f.subrange(0, i - from - 1)[j]);
                }
            }
        }
    }
    assert(f.subrange(0, i - from) =~= f);
    Some(acc)
}

} // verus!
