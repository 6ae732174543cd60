//! Resolution of the tunable parameters from the raw text they were given as.
//! Looking the text up (in the environment or elsewhere) is the caller's part.
use vstd::prelude::*;

verus! {

/// Scan window, in milliseconds, used when none is configured.
pub const DEFAULT_SCAN_INTERVAL_MS: u64 = 4000;

/// The parameters of the service, resolved from optional raw text values.
pub struct COEnv {}

/// Whether every character of `s` is an ASCII decimal digit.
pub open spec fn all_digits(s: Seq<char>) -> bool {
    forall|i: int| 0 <= i < s.len() ==> '0' <= #[trigger] s[i] <= '9'
}

/// The value of a string of decimal digits, most significant first.
pub open spec fn decimal_value(s: Seq<char>) -> int
    decreases s.len(),
{
    if s.len() == 0 {
        0
    } else {
        decimal_value(s.drop_last()) * 10 + (s.last() as int - '0' as int)
    }
}

/// The digits of a number text once an optional leading `+` is removed.
pub open spec fn unsigned_digits(s: Seq<char>) -> Seq<char> {
    if s.len() > 0 && s[0] == '+' {
        s.drop_first()
    } else {
        s
    }
}

/// The `u64` a text denotes: an optional `+` followed by one or more decimal
/// digits whose value fits in 64 bits; anything else denotes none.
pub open spec fn u64_of(s: Seq<char>) -> Option<u64> {
    let d = unsigned_digits(s);
    if d.len() > 0 && all_digits(d) && decimal_value(d) <= u64::MAX {
        Some(decimal_value(d) as u64)
    } else {
        None
    }
}

proof fn lemma_decimal_value_grows(s: Seq<char>, i: int)
    requires
        0 <= i <= s.len(),
        all_digits(s),
    ensures
        decimal_value(s.subrange(0, i)) <= decimal_value(s),
        decimal_value(s.subrange(0, i)) >= 0,
    decreases s.len() - i,
{
    if i < s.len() {
        lemma_decimal_value_grows(s, i + 1);
        let t = s.subrange(0, i + 1);
        assert(t.drop_last() =~= s.subrange(0, i));
        assert('0' <= s[i] <= '9');
    } else {
        assert(s.subrange(0, i) =~= s);
        lemma_decimal_value_nonneg(s);
    }
}

proof fn lemma_decimal_value_nonneg(s: Seq<char>)
    requires
        all_digits(s),
    ensures
        decimal_value(s) >= 0,
    decreases s.len(),
{
    if s.len() > 0 {
        assert(all_digits(s.drop_last()));
        lemma_decimal_value_nonneg(s.drop_last());
        assert('0' <= s[s.len() - 1] <= '9');
    }
}

/// Parses a decimal text as a `u64`, as `str::parse::<u64>` does.
pub fn parse_u64(s: &str) -> (r: Option<u64>)
    ensures
        r == u64_of(s@),
{
    let n = s.unicode_len();
    let mut start: usize = 0;
    if n > 0 && s.get_char(0) == '+' {
        start = 1;
    }
    let ghost d = unsigned_digits(s@);
    assert(d =~= s@.subrange(start as int, n as int));
    if start == n {
        assert(d.len() == 0);
        return None;
    }
    let mut k: usize = start;
    while k < n
        invariant
            start <= k <= n,
            n == s@.len(),
            d == s@.subrange(start as int, n as int),
            d == unsigned_digits(s@),
            forall|i: int| start <= i < k ==> '0' <= #[trigger] s@[i] <= '9',
        decreases n - k,
    {
        let c = s.get_char(k);
        if c < '0' || c > '9' {
            assert(d[k - start] == c);
            assert(!all_digits(d));
            return None;
        }
        k = k + 1;
    }
    assert(all_digits(d)) by {
        assert forall|i: int| 0 <= i < d.len() implies '0' <= #[trigger] d[i] <= '9' by {
            assert(d[i] == s@[start + i]);
        }
    }
    let mut acc: u64 = 0;
    let mut k: usize = start;
    while k < n
        invariant
            start <= k <= n,
            n == s@.len(),
            d == s@.subrange(start as int, n as int),
            d == unsigned_digits(s@),
            all_digits(d),
            acc as int == decimal_value(d.subrange(0, k - start)),
        decreases n - k,
    {
        let c = s.get_char(k);
        let ghost j = k - start;
        proof {
            assert(d[j] == c);
            assert('0' <= d[j] <= '9');
            assert(d.subrange(0, j + 1).drop_last() =~= d.subrange(0, j));
        }
        let digit: u64 = (c as u32 - '0' as u32) as u64;
        assert(decimal_value(d.subrange(0, j + 1)) == acc as int * 10 + digit);
        if acc > (u64::MAX - digit) / 10 {
            proof {
                lemma_decimal_value_grows(d, j + 1);
                assert(acc as int * 10 + digit > u64::MAX) by (nonlinear_arith)
                    requires
                        acc as int > (u64::MAX - digit) as int / 10,
                        0 <= digit <= 9,
                ;
            }
            return None;
        }
        acc = acc * 10 + digit;
        k = k + 1;
    }
    assert(d.subrange(0, n - start) =~= d);
    Some(acc)
}

impl COEnv {
    /// The value of a string parameter: `value` when it was given, `def`
    /// otherwise.
    pub fn read_env_string(value: Option<String>, def: String) -> (r: String)
        ensures
            r@ == (match value {
                Some(v) => v@,
                None => def@,
            }),
    {
        match value {
            Some(v) => v,
            None => def,
        }
    }

    /// The value of an integer parameter: `value` parsed as a `u64` when it
    /// was given and parses, `def` otherwise.
    pub fn read_env_u64(value: Option<&str>, def: u64) -> (r: u64)
        ensures
            r == (match value {
                Some(v) => match u64_of(v@) {
                    Some(n) => n,
                    None => def,
                },
                None => def,
            }),
    {
        match value {
            Some(v) => match parse_u64(v) {
                Some(n) => n,
                None => def,
            },
            None => def,
        }
    }

    /// The scan window in milliseconds, 4000 unless a valid value is given.
    pub fn scan_interval(value: Option<&str>) -> (r: u64)
        ensures
            r == (match value {
                Some(v) => match u64_of(v@) {
                    Some(n) => n,
                    None => DEFAULT_SCAN_INTERVAL_MS,
                },
                None => DEFAULT_SCAN_INTERVAL_MS,
            }),
    {
        COEnv::read_env_u64(value, DEFAULT_SCAN_INTERVAL_MS)
    }

    /// The text of the target beacon's UUID, a fixed default unless one is
    /// given.
    pub fn welcome_beacon_uuid(value: Option<String>) -> (r: String)
        ensures
            r@ == (match value {
                Some(v) => v@,
                None => default_beacon_uuid(),
            }),
    {
        COEnv::read_env_string(value, "3a91f427-8c56-4ea3-b219-7dc45a8f33e1".to_string())
    }
}

/// The UUID text used when no target beacon is configured.
pub open spec fn default_beacon_uuid() -> Seq<char> {
    "3a91f427-8c56-4ea3-b219-7dc45a8f33e1"@
}

} // verus!
