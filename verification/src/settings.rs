//! Process configuration: raw setting values with their defaults, and the
//! parsing the boundary needs to turn them into numbers.
//!
//! The embedding application reads raw values from its environment once at
//! startup and hands them here; the core never reads ambient global state.

use vstd::prelude::*;
use vstd::string::StrSliceExecFns;

verus! {

/// `c` is a decimal digit.
pub open spec fn is_digit(c: char) -> bool {
    48 <= c as u32 <= 57
}

/// Every character of `s` is a decimal digit.
pub open spec fn all_digits(s: Seq<char>) -> bool {
    forall|i: int| 0 <= i < s.len() ==> is_digit(s[i])
}

/// The number the decimal digits of `s` spell, most significant first.
pub open spec fn digits_value(s: Seq<char>) -> int
    recommends
        all_digits(s),
    decreases s.len(),
{
    if s.len() == 0 {
        0
    } else {
        digits_value(s.drop_last()) * 10 + (s.last() as u32 - 48)
    }
}

/// A digit string's value only grows as digits are appended.
proof fn lemma_digits_value_prefix(s: Seq<char>, j: int)
    requires
        all_digits(s),
        0 <= j <= s.len(),
    ensures
        0 <= digits_value(s.take(j)) <= digits_value(s),
    decreases s.len(),
{
    if j < s.len() {
        assert(s.drop_last().take(j) =~= s.take(j));
        lemma_digits_value_prefix(s.drop_last(), j);
    } else {
        assert(s.take(j) =~= s);
        if s.len() > 0 {
            lemma_digits_value_prefix(s.drop_last(), s.len() - 1);
            assert(s.drop_last().take(s.len() - 1) =~= s.drop_last());
        }
    }
}

/// Parse a decimal number: the value of `s`, when `s` is one or more
/// decimal digits spelling a value that fits in `usize`, and nothing
/// otherwise.
pub fn parse_usize(s: &str) -> (r: Option<usize>)
    ensures
        (r matches Some(v) ==> s@.len() > 0 && all_digits(s@) && v == digits_value(s@)),
        r is None ==> s@.len() == 0 || !all_digits(s@) || digits_value(s@) > usize::MAX,
{
    let n = s.unicode_len();
    if n == 0 {
        return None;
    }
    let mut acc: usize = 0;
    let mut i: usize = 0;
    while i < n
        invariant
            0 <= i <= n,
            n == s@.len(),
            all_digits(s@.take(i as int)),
            acc == digits_value(s@.take(i as int)),
        decreases n - i,
    {
        let c = s.get_char(i);
        let d = c as u32;
        if d < 48 || d > 57 {
            proof {
                assert(!is_digit(s@[i as int]));
            }
            return None;
        }
        let digit = (d - 48) as usize;
        if acc > (usize::MAX - digit) / 10 {
            proof {
                assert(s@.take(i + 1).drop_last() =~= s@.take(i as int));
                assert(s@.take(i + 1).last() == s@[i as int]);
                assert(digits_value(s@.take(i + 1)) > usize::MAX);
                if all_digits(s@) {
                    lemma_digits_value_prefix(s@, i + 1);
                }
            }
            return None;
        }
        proof {
            assert(s@.take(i + 1).drop_last() =~= s@.take(i as int));
            assert(s@.take(i + 1).last() == s@[i as int]);
        }
        acc = acc * 10 + digit;
        i = i + 1;
    }
    proof {
        assert(s@.take(n as int) =~= s@);
    }
    Some(acc)
}

/// The raw configuration of the search service: where to listen, which
/// metric scores a query, how many neighbours to return, and which search
/// strategy answers queries.
pub struct Settings {
    pub host: String,
    pub port: String,
    pub similarity_metric: String,
    pub k_neighbours: String,
    pub search_algorithm: String,
}

impl Settings {
    /// Configuration from optionally-present raw values, with a default for
    /// each absent one: host "0.0.0.0", port "5000", metric "cosine", five
    /// neighbours, brute-force search.
    pub fn new(
        host: Option<String>,
        port: Option<String>,
        similarity_metric: Option<String>,
        k_neighbours: Option<String>,
        search_algorithm: Option<String>,
    ) -> (r: Settings)
        ensures
            r.host@ == (match host {
                Some(v) => v@,
                None => "0.0.0.0"@,
            }),
            r.port@ == (match port {
                Some(v) => v@,
                None => "5000"@,
            }),
            r.similarity_metric@ == (match similarity_metric {
                Some(v) => v@,
                None => "cosine"@,
            }),
            r.k_neighbours@ == (match k_neighbours {
                Some(v) => v@,
                None => "5"@,
            }),
            r.search_algorithm@ == (match search_algorithm {
                Some(v) => v@,
                None => "brute"@,
            }),
    {
        Settings {
            host: match host {
                Some(v) => v,
                None => "0.0.0.0".to_owned(),
            },
            port: match port {
                Some(v) => v,
                None => "5000".to_owned(),
            },
            similarity_metric: match similarity_metric {
                Some(v) => v,
                None => "cosine".to_owned(),
            },
            k_neighbours: match k_neighbours {
                Some(v) => v,
                None => "5".to_owned(),
            },
            search_algorithm: match search_algorithm {
                Some(v) => v,
                None => "brute".to_owned(),
            },
        }
    }
}

} // verus!
