//! Connection configuration and its resolution: an explicit, one-shot step
//! that turns what the config file and the environment supplied into an
//! immutable configuration value, falling back to documented defaults. A
//! config-file value wins over an environment value, which wins over the
//! default; business logic never looks anything up implicitly.

use vstd::prelude::*;

verus! {

/// The resolved connection configuration: where the core scheduler listens.
#[derive(Debug)]
pub struct Config {
    pub core_host: String,
    pub core_port: u32,
}

/// The port the core scheduler listens on when nothing overrides it.
pub const DEFAULT_CORE_PORT: u32 = 5633;

/// A decimal digit.
pub open spec fn is_dec_digit(c: char) -> bool {
    48 <= c as u32 <= 57
}

/// The numeric value of one decimal digit.
pub open spec fn dec_digit_val(c: char) -> int {
    c as u32 - 48
}

/// The value of a digit string, most significant digit first.
pub open spec fn dec_val(s: Seq<char>) -> int
    decreases s.len(),
{
    if s.len() == 0 {
        0
    } else {
        dec_val(s.drop_last()) * 10 + dec_digit_val(s.last())
    }
}

/// The digits of a numeral: what remains after an optional leading plus.
pub open spec fn numeral_digits(s: Seq<char>) -> Seq<char> {
    if s.len() > 0 && s[0] == '+' {
        s.drop_first()
    } else {
        s
    }
}

/// A string this library accepts as a port: an optional leading plus, then
/// at least one decimal digit, with a value that fits in `u32`.
pub open spec fn is_port_numeral(s: Seq<char>) -> bool {
    let d = numeral_digits(s);
    &&& d.len() > 0
    &&& forall|i: int| 0 <= i < d.len() ==> is_dec_digit(d[i])
    &&& dec_val(d) <= u32::MAX
}

/// The value of a port numeral.
pub open spec fn port_numeral_val(s: Seq<char>) -> int {
    dec_val(numeral_digits(s))
}

/// A digit string's value is never negative.
proof fn lemma_dec_val_nonneg(s: Seq<char>)
    requires
        forall|i: int| 0 <= i < s.len() ==> is_dec_digit(s[i]),
    ensures
        dec_val(s) >= 0,
    decreases s.len(),
{
    if s.len() > 0 {
        lemma_dec_val_nonneg(s.drop_last());
    }
}

/// A digit string is worth at least any of its prefixes.
proof fn lemma_dec_val_prefix_le(s: Seq<char>, j: int)
    requires
        forall|i: int| 0 <= i < s.len() ==> is_dec_digit(s[i]),
        0 <= j <= s.len(),
    ensures
        dec_val(s.take(j)) <= dec_val(s),
    decreases s.len() - j,
{
    if j == s.len() {
        assert(s.take(j) =~= s);
    } else {
        lemma_dec_val_prefix_le(s, j + 1);
        let t = s.take(j + 1);
        assert(t.drop_last() =~= s.take(j));
        lemma_dec_val_nonneg(s.take(j));
        assert(dec_val(t) == dec_val(s.take(j)) * 10 + dec_digit_val(s[j]));
        assert(dec_val(s.take(j)) <= dec_val(s.take(j)) * 10 + dec_digit_val(s[j]));
    }
}

/// Parse a port numeral: returns its value exactly when the whole string is
/// an optionally plus-signed digit string whose value fits in `u32`.
pub fn parse_port(s: &str) -> (r: Option<u32>)
    ensures
        r is Some <==> is_port_numeral(s@),
        r matches Some(v) ==> v == port_numeral_val(s@),
{
    let n = s.unicode_len();
    let mut start: usize = 0;
    if n > 0 && s.get_char(0) == '+' {
        start = 1;
    }
    if start == n {
        proof {
            assert(numeral_digits(s@).len() == 0);
        }
        return None;
    }
    let ghost digits = numeral_digits(s@);
    proof {
        assert(digits =~= s@.subrange(start as int, n as int));
    }
    let mut i: usize = start;
    let mut acc: u64 = 0;
    while i < n
        invariant
            start <= i <= n == s@.len(),
            digits == numeral_digits(s@),
            digits =~= s@.subrange(start as int, n as int),
            forall|j: int| start <= j < i ==> is_dec_digit(s@[j]),
            acc == dec_val(s@.subrange(start as int, i as int)),
            acc <= u32::MAX,
        decreases n - i,
    {
        let c = s.get_char(i);
        let cu = c as u32;
        if cu < 48 || cu > 57 {
            proof {
                assert(digits[i - start] == s@[i as int]);
                assert(!is_dec_digit(digits[i - start]));
            }
            return None;
        }
        let d64: u64 = (cu - 48) as u64;
        proof {
            let before = s@.subrange(start as int, i as int);
            let after = s@.subrange(start as int, i + 1);
            assert(after.drop_last() =~= before);
            assert(after.last() == s@[i as int]);
        }
        acc = acc * 10 + d64;
        if acc > 0xFFFF_FFFFu64 {
            proof {
                if is_port_numeral(s@) {
                    assert(forall|j: int| start <= j < n ==> is_dec_digit(#[trigger] s@[j])) by {
                        assert(forall|j: int|
                            0 <= j < digits.len() ==> is_dec_digit(#[trigger] digits[j]));
                        assert(forall|j: int|
                            start <= j < n ==> s@[j] == digits[j - start]);
                    }
                    lemma_dec_val_prefix_le(digits, i + 1 - start);
                    assert(digits.take(i + 1 - start) =~= s@.subrange(start as int, i + 1));
                }
            }
            return None;
        }
        i += 1;
    }
    proof {
        assert(s@.subrange(start as int, n as int) =~= digits);
        lemma_dec_val_nonneg(digits);
    }
    Some(acc as u32)
}

/// The host to connect to: an explicit config-file value wins, then the
/// environment, then the loopback default.
pub fn resolve_host(file_host: Option<String>, env_host: Option<String>) -> (h: String)
    ensures
        file_host matches Some(v) ==> h == v,
        file_host is None ==> (env_host matches Some(v) ==> h == v),
        file_host is None && env_host is None ==> h@ == "127.0.0.1"@,
{
    match file_host {
        Some(v) => v,
        None => match env_host {
            Some(v) => v,
            None => "127.0.0.1".to_owned(),
        },
    }
}

/// The port to connect to: an explicit config-file value wins, then an
/// environment value that is a port numeral, then the default. An
/// environment value that is no port numeral is ignored, not an error.
pub fn resolve_port(file_port: Option<u32>, env_port: Option<String>) -> (p: u32)
    ensures
        file_port matches Some(v) ==> p == v,
        file_port is None ==> (env_port matches Some(v) ==> (is_port_numeral(v@) ==> p
            == port_numeral_val(v@))),
        file_port is None ==> (env_port matches Some(v) ==> (!is_port_numeral(v@) ==> p
            == DEFAULT_CORE_PORT)),
        file_port is None && env_port is None ==> p == DEFAULT_CORE_PORT,
{
    match file_port {
        Some(v) => v,
        None => match env_port {
            Some(v) => match parse_port(v.as_str()) {
                Some(p) => p,
                None => DEFAULT_CORE_PORT,
            },
            None => DEFAULT_CORE_PORT,
        },
    }
}

/// One-shot resolution of the whole configuration from what the config
/// file and the environment supplied.
pub fn resolve_config(
    file_host: Option<String>,
    file_port: Option<u32>,
    env_host: Option<String>,
    env_port: Option<String>,
) -> (c: Config)
    ensures
        file_host matches Some(v) ==> c.core_host == v,
        file_host is None ==> (env_host matches Some(v) ==> c.core_host == v),
        file_host is None && env_host is None ==> c.core_host@ == "127.0.0.1"@,
        file_port matches Some(v) ==> c.core_port == v,
        file_port is None ==> (env_port matches Some(v) ==> (is_port_numeral(v@) ==> c.core_port
            == port_numeral_val(v@))),
        file_port is None ==> (env_port matches Some(v) ==> (!is_port_numeral(v@) ==> c.core_port
            == DEFAULT_CORE_PORT)),
        file_port is None && env_port is None ==> c.core_port == DEFAULT_CORE_PORT,
{
    Config {
        core_host: resolve_host(file_host, env_host),
        core_port: resolve_port(file_port, env_port),
    }
}

} // verus!
