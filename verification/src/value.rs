use vstd::prelude::*;

verus! {

/// The type that a handler declares for one path parameter.
#[derive(Clone, Copy, Debug, PartialEq, Eq, Structural)]
pub enum Kind {
    /// A signed integer, parsed from the path component.
    Int,
    /// A plain string, bound to the path component as it stands.
    Str,
}

/// A typed value bound to one path parameter by a successful match.
#[derive(Clone, Debug, PartialEq, Eq)]
pub enum Value {
    /// An integer parameter.
    Int(i64),
    /// A string parameter.
    Str(String),
}

/// Mathematical form of a [`Value`].
pub enum ValueModel {
    /// An integer parameter.
    Int(i64),
    /// A string parameter.
    Str(Seq<char>),
}

impl Value {
    /// The mathematical value this holds.
    pub open spec fn model(self) -> ValueModel {
        match self {
            Value::Int(i) => ValueModel::Int(i),
            Value::Str(s) => ValueModel::Str(s@),
        }
    }
}

/// Whether `c` is a decimal digit.
pub open spec fn is_digit(c: char) -> bool {
    '0' <= c && c <= '9'
}

/// The value of the digit `c`.
pub open spec fn digit_val(c: char) -> int {
    c as int - '0' as int
}

/// Whether every character of `s` is a decimal digit.
pub open spec fn all_digits(s: Seq<char>) -> bool {
    forall|i: int| 0 <= i < s.len() ==> is_digit(s[i])
}

/// The number that the digit string `s` denotes in base ten.
pub open spec fn digits_val(s: Seq<char>) -> int
    decreases s.len(),
{
    if s.len() == 0 {
        0
    } else {
        10 * digits_val(s.drop_last()) + digit_val(s.last())
    }
}

/// The integer the magnitude `ds` denotes, under the sign `neg`, when it
/// is a non-empty digit string whose value fits in an `i64`.
pub open spec fn spec_parse_magnitude(ds: Seq<char>, neg: bool) -> Option<i64> {
    if ds.len() == 0 || !all_digits(ds) {
        None
    } else if neg {
        if digits_val(ds) <= i64::MAX as int + 1 {
            Some((-digits_val(ds)) as i64)
        } else {
            None
        }
    } else {
        if digits_val(ds) <= i64::MAX as int {
            Some(digits_val(ds) as i64)
        } else {
            None
        }
    }
}

/// The integer that `s` denotes: an optional sign followed by at least one
/// digit, within the range of an `i64`. Anything else denotes nothing.
pub open spec fn spec_parse_int(s: Seq<char>) -> Option<i64> {
    if s.len() > 0 && s[0] == '-' {
        spec_parse_magnitude(s.skip(1), true)
    } else if s.len() > 0 && s[0] == '+' {
        spec_parse_magnitude(s.skip(1), false)
    } else {
        spec_parse_magnitude(s, false)
    }
}

/// The typed value that the path component `comp` denotes under `k`:
/// integers must parse, strings always bind.
pub open spec fn spec_parse_value(k: Kind, comp: Seq<char>) -> Option<ValueModel> {
    match k {
        Kind::Int => match spec_parse_int(comp) {
            Some(i) => Some(ValueModel::Int(i)),
            None => None,
        },
        Kind::Str => Some(ValueModel::Str(comp)),
    }
}

proof fn lemma_digits_val_nonneg(s: Seq<char>)
    requires
        all_digits(s),
    ensures
        digits_val(s) >= 0,
    decreases s.len(),
{
    if s.len() > 0 {
        assert(all_digits(s.drop_last()));
        lemma_digits_val_nonneg(s.drop_last());
    }
}

proof fn lemma_digits_val_take(s: Seq<char>, j: int)
    requires
        all_digits(s),
        0 <= j <= s.len(),
    ensures
        digits_val(s.take(j)) <= digits_val(s),
    decreases s.len(),
{
    if j == s.len() {
        assert(s.take(j) =~= s);
    } else {
        assert(all_digits(s.drop_last()));
        lemma_digits_val_nonneg(s.drop_last());
        lemma_digits_val_take(s.drop_last(), j);
        assert(s.drop_last().take(j) =~= s.take(j));
    }
}

/// Parse `s` as a signed decimal integer, exactly as
/// [`spec_parse_int`] describes.
pub fn parse_int(s: &str) -> (r: Option<i64>)
    ensures
        r == spec_parse_int(s@),
{
    let n = s.unicode_len();
    let mut start: usize = 0;
    let mut neg = false;
    if n > 0 {
        let c0 = s.get_char(0);
        if c0 == '-' {
            neg = true;
            start = 1;
        } else if c0 == '+' {
            start = 1;
        }
    }
    let ghost ds: Seq<char> = s@.skip(start as int);
    proof {
        assert(s@.skip(0) =~= s@);
        assert(spec_parse_int(s@) == spec_parse_magnitude(ds, neg));
    }
    if start == n {
        return None;
    }
    let mut acc: u128 = 0;
    let mut i: usize = start;
    while i < n
        invariant
            start <= i <= n,
            start < n,
            n == s@.len(),
            ds == s@.skip(start as int),
            spec_parse_int(s@) == spec_parse_magnitude(ds, neg),
            all_digits(ds.take(i - start)),
            acc == digits_val(ds.take(i - start)),
            acc <= 9223372036854775808u128,
        decreases n - i,
    {
        let c = s.get_char(i);
        if c < '0' || c > '9' {
            proof {
                assert(ds[i - start] == c);
                assert(!all_digits(ds));
            }
            return None;
        }
        let d: u128 = (c as u32 - '0' as u32) as u128;
        let acc2: u128 = acc * 10 + d;
        proof {
            let m = i - start;
            assert(ds.take(m + 1).drop_last() =~= ds.take(m));
            assert(ds.take(m + 1).last() == ds[m]);
            assert(ds[m] == c);
            assert(digits_val(ds.take(m + 1)) == acc2);
        }
        if acc2 > 9223372036854775808u128 {
            proof {
                let m = i - start;
                if all_digits(ds) {
                    lemma_digits_val_take(ds, m + 1);
                    assert(digits_val(ds) > i64::MAX as int + 1);
                }
            }
            return None;
        }
        acc = acc2;
        i += 1;
    }
    proof {
        assert(ds.take(n - start) =~= ds);
    }
    if neg {
        if acc == 9223372036854775808u128 {
            Some(i64::MIN)
        } else {
            Some(-(acc as i64))
        }
    } else {
        if acc == 9223372036854775808u128 {
            None
        } else {
            Some(acc as i64)
        }
    }
}

/// Parse one path component under the declared kind `k`.
pub fn parse_value(k: Kind, comp: &str) -> (r: Option<Value>)
    ensures
        match r {
            Some(v) => spec_parse_value(k, comp@) == Some(v.model()),
            None => spec_parse_value(k, comp@) is None,
        },
{
    match k {
        Kind::Int => match parse_int(comp) {
            Some(i) => Some(Value::Int(i)),
            None => None,
        },
        Kind::Str => Some(Value::Str(comp.to_owned())),
    }
}

} // verus!
