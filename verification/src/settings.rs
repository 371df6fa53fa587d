//! The run's configuration as validated data: the query with its rules, and
//! the pagination settings, whose fields arrive as text and must be
//! non-negative integers.
use vstd::prelude::*;
use vstd::string::*;

use crate::error::FilterError;

verus! {

/// The four predicate operators a rule may use.
#[derive(Clone, Copy, Debug, PartialEq, Eq, Structural)]
pub enum Operators {
    Equals,
    NotEquals,
    Contains,
    NotContains,
}

/// A rule: retain a workspace according to what its variables hold under
/// `key`, compared with `value` by `operator`.
#[derive(Clone, Debug)]
pub struct Variable {
    pub key: String,
    pub operator: Operators,
    pub value: String,
}

/// Pagination settings as configured, still textual.
#[derive(Clone, Debug)]
pub struct Pagination {
    pub start_page: String,
    pub max_depth: String,
    pub page_size: String,
}

/// The user's query: an optional server-side name filter and the optional
/// client-side rules.
#[derive(Clone, Debug)]
pub struct Query {
    pub name: Option<String>,
    pub variables: Option<Vec<Variable>>,
}

/// The whole configuration of a run.
#[derive(Clone, Debug)]
pub struct Settings {
    pub log: String,
    pub token: String,
    pub org: String,
    pub output: String,
    pub query: Query,
    pub pagination: Pagination,
}

/// The pagination settings with their numeric values resolved.
#[derive(Clone, Copy, Debug, PartialEq, Eq, Structural)]
pub struct PaginationLimits {
    pub start_page: u32,
    pub max_depth: u32,
    pub page_size: u32,
}

/// A decimal digit.
pub open spec fn is_digit(c: char) -> bool {
    48 <= c as int && c as int <= 57
}

/// The numeric value of a decimal digit.
pub open spec fn digit_val(c: char) -> int {
    c as int - 48
}

/// Every character of `s` is a decimal digit.
pub open spec fn all_digits(s: Seq<char>) -> bool {
    forall|i: int| 0 <= i < s.len() ==> is_digit(#[trigger] s[i])
}

/// The value of `s` read as a decimal numeral.
pub open spec fn dec_value(s: Seq<char>) -> int
    decreases s.len(),
{
    if s.len() == 0 {
        0
    } else {
        dec_value(s.drop_last()) * 10 + digit_val(s.last())
    }
}

/// `s` denotes a non-negative integer that fits in a `u32`.
pub open spec fn valid_u32_text(s: Seq<char>) -> bool {
    s.len() > 0 && all_digits(s) && dec_value(s) <= u32::MAX
}

proof fn lemma_dec_value_nonneg(s: Seq<char>)
    requires
        all_digits(s),
    ensures
        dec_value(s) >= 0,
    decreases s.len(),
{
    if s.len() > 0 {
        assert(all_digits(s.drop_last()));
        lemma_dec_value_nonneg(s.drop_last());
    }
}

/// A decimal numeral's value never shrinks as the numeral is extended.
proof fn lemma_dec_value_prefix_le(s: Seq<char>, i: int, j: int)
    requires
        all_digits(s),
        0 <= i <= j <= s.len(),
    ensures
        dec_value(s.subrange(0, i)) <= dec_value(s.subrange(0, j)),
    decreases j - i,
{
    if i < j {
        let p = s.subrange(0, j - 1);
        let q = s.subrange(0, j);
        assert(q.drop_last() =~= p);
        assert(all_digits(p));
        lemma_dec_value_nonneg(p);
        assert(is_digit(q.last()));
        lemma_dec_value_prefix_le(s, i, j - 1);
    }
}

/// Reads a configuration value as a non-negative integer. Returns the value
/// exactly when the text is a non-empty string of decimal digits whose value
/// fits in a `u32`; any other text is a fatal configuration error.
pub fn parse_u32(s: &str) -> (r: Result<u32, FilterError>)
    ensures
        match r {
            Ok(n) => valid_u32_text(s@) && n == dec_value(s@),
            Err(e) => !valid_u32_text(s@) && e is Int,
        },
{
    let n = s.unicode_len();
    if n == 0 {
        return Err(FilterError::Int("cannot parse integer from empty string".to_owned()));
    }
    let mut acc: u32 = 0;
    let mut i: usize = 0;
    while i < n
        invariant
            0 <= i <= n,
            n == s@.len(),
            all_digits(s@.subrange(0, i as int)),
            acc == dec_value(s@.subrange(0, i as int)),
        decreases n - i,
    {
        let c = s.get_char(i);
        let cv = c as u32;
        let ghost pre = s@.subrange(0, i as int);
        let ghost pre1 = s@.subrange(0, i as int + 1);
        if cv < 48 || cv > 57 {
            assert(!is_digit(s@[i as int]));
            return Err(FilterError::Int("invalid digit found in string".to_owned()));
        }
        let d = cv - 48;
        proof {
            assert(pre1.drop_last() =~= pre);
            assert(pre1.last() == s@[i as int]);
            assert(all_digits(pre1));
        }
        if acc > 429496729u32 || (acc == 429496729u32 && d > 5) {
            proof {
                lemma_dec_value_nonneg(pre);
                assert(dec_value(pre1) > u32::MAX);
                if all_digits(s@) {
                    lemma_dec_value_prefix_le(s@, i as int + 1, s@.len() as int);
                    assert(s@.subrange(0, s@.len() as int) =~= s@);
                }
            }
            return Err(FilterError::Int("number too large to fit in target type".to_owned()));
        }
        acc = acc * 10 + d;
        i = i + 1;
    }
    proof {
        assert(s@.subrange(0, n as int) =~= s@);
    }
    Ok(acc)
}

impl Pagination {
    /// Resolves the three textual pagination settings to their numeric
    /// values; any field that is not a non-negative integer is a fatal
    /// configuration error, reported before any request is made.
    pub fn resolve(&self) -> (r: Result<PaginationLimits, FilterError>)
        ensures
            match r {
                Ok(l) => {
                    &&& valid_u32_text(self.start_page@)
                    &&& valid_u32_text(self.max_depth@)
                    &&& valid_u32_text(self.page_size@)
                    &&& l.start_page == dec_value(self.start_page@)
                    &&& l.max_depth == dec_value(self.max_depth@)
                    &&& l.page_size == dec_value(self.page_size@)
                },
                Err(e) => {
                    &&& {
                        ||| !valid_u32_text(self.start_page@)
                        ||| !valid_u32_text(self.max_depth@)
                        ||| !valid_u32_text(self.page_size@)
                    }
                    &&& e is Int
                },
            },
    {
        let start_page = match parse_u32(self.start_page.as_str()) {
            Ok(v) => v,
            Err(e) => {
                return Err(e);
            },
        };
        let max_depth = match parse_u32(self.max_depth.as_str()) {
            Ok(v) => v,
            Err(e) => {
                return Err(e);
            },
        };
        let page_size = match parse_u32(self.page_size.as_str()) {
            Ok(v) => v,
            Err(e) => {
                return Err(e);
            },
        };
        Ok(PaginationLimits { start_page, max_depth, page_size })
    }
}

} // verus!
