//! Mapping a log source back to the client process it belongs to.
//!
//! A source id `pid:<n>` names one exact process and fails closed when that
//! process is gone. Any other id is a legacy identity, accepted only when
//! exactly one client carries that character and server (ignoring ASCII
//! case).

use vstd::prelude::*;
use vstd::string::StringExecFns;
use crate::clients::{EqWindow, pids_of};
use crate::log_events::LogSource;
use crate::text::{decimal, digit_char, eq_ignore_ascii_case, eq_ignore_case, push_decimal};

verus! {

pub open spec fn is_digit(c: char) -> bool {
    48 <= (c as int) <= 57
}

/// The value of a string of decimal digits.
pub open spec fn digits_value(s: Seq<char>) -> int
    decreases s.len(),
{
    if s.len() == 0 {
        0
    } else {
        digits_value(s.drop_last()) * 10 + ((s.last() as int) - 48)
    }
}

/// The text after one optional leading `+`.
pub open spec fn strip_plus(s: Seq<char>) -> Seq<char> {
    if s.len() > 0 && s[0] == '+' {
        s.drop_first()
    } else {
        s
    }
}

/// All characters are decimal digits.
pub open spec fn all_digits(d: Seq<char>) -> bool {
    forall|i: int| 0 <= i < d.len() ==> is_digit(#[trigger] d[i])
}

/// `str::parse::<u32>`: an optional `+` followed by at least one decimal
/// digit, whose value fits in `u32`.
pub open spec fn parse_u32(s: Seq<char>) -> Option<u32> {
    let d = strip_plus(s);
    if d.len() > 0 && all_digits(d) && digits_value(d) <= u32::MAX {
        Some(digits_value(d) as u32)
    } else {
        None
    }
}

proof fn lemma_digits_value_nonneg(s: Seq<char>)
    requires
        forall|i: int| 0 <= i < s.len() ==> is_digit(#[trigger] s[i]),
    ensures
        digits_value(s) >= 0,
    decreases s.len(),
{
    if s.len() > 0 {
        lemma_digits_value_nonneg(s.drop_last());
        assert(is_digit(s[s.len() - 1]));
    }
}

proof fn lemma_digits_value_grows(s: Seq<char>)
    requires
        s.len() > 0,
        forall|i: int| 0 <= i < s.len() ==> is_digit(#[trigger] s[i]),
    ensures
        digits_value(s) >= digits_value(s.drop_last()),
{
    lemma_digits_value_nonneg(s.drop_last());
    assert(is_digit(s[s.len() - 1]));
}

/// Parse a decimal `u32` from the characters of `s` starting at `start`.
pub fn parse_u32_from(s: &str, start: usize) -> (r: Option<u32>)
    requires
        start <= s@.len(),
    ensures
        r == parse_u32(s@.skip(start as int)),
{
    let n = s.unicode_len();
    let ghost t = s@.skip(start as int);
    let mut i = start;
    if i < n && s.get_char(i) == '+' {
        i = i + 1;
    }
    let ghost d = strip_plus(t);
    assert(d =~= s@.skip(i as int));
    if i == n {
        return None;
    }
    let first = i;
    let mut value: u64 = 0;
    proof {
        assert(d.take(0) =~= Seq::<char>::empty());
    }
    while i < n
        invariant
            n == s@.len(),
            t == s@.skip(start as int),
            d == strip_plus(t),
            first <= i <= n,
            first < n,
            d =~= s@.skip(first as int),
            forall|k: int| 0 <= k < i - first ==> is_digit(#[trigger] d[k]),
            value == digits_value(d.take(i - first)),
            value <= u32::MAX,
        decreases n - i,
    {
        let c = s.get_char(i);
        let code = c as u32;
        if code < 48 || code > 57 {
            assert(d[i - first] == c);
            assert(!is_digit(d[i - first]));
            assert(!all_digits(d));
            assert(parse_u32(t) is None);
            return None;
        }
        proof {
            let p = d.take(i - first + 1);
            assert(p.drop_last() =~= d.take(i - first));
            assert(p.last() == c);
        }
        value = value * 10 + (code - 48) as u64;
        if value > 0xFFFF_FFFF {
            proof {
                let p = d.take(i - first + 1);
                assert forall|k: int| 0 <= k < p.len() implies is_digit(#[trigger] p[k]) by {
                    assert(p[k] == d[k]);
                }
                let rest = d.skip(i - first + 1);
                assert(d =~= p + rest);
                lemma_prefix_value_bound(p, rest);
                assert(digits_value(p) == value);
                assert(parse_u32(t) is None);
            }
            return None;
        }
        i = i + 1;
    }
    proof {
        assert(d.take(n - first) =~= d);
    }
    Some(value as u32)
}

/// Appending digits never lowers a decimal value.
proof fn lemma_prefix_value_bound(p: Seq<char>, rest: Seq<char>)
    requires
        forall|k: int| 0 <= k < (p + rest).len() ==> is_digit(#[trigger] (p + rest)[k]) || k >= p.len(),
        forall|k: int| 0 <= k < p.len() ==> is_digit(#[trigger] p[k]),
    ensures
        (forall|k: int| 0 <= k < (p + rest).len() ==> is_digit(#[trigger] (p + rest)[k])) ==> digits_value(p
            + rest) >= digits_value(p),
    decreases rest.len(),
{
    if rest.len() > 0 {
        let q = p + rest;
        if forall|k: int| 0 <= k < q.len() ==> is_digit(#[trigger] q[k]) {
            assert(q.drop_last() =~= p + rest.drop_last());
            assert forall|k: int| 0 <= k < (p + rest.drop_last()).len() implies is_digit(
                #[trigger] (p + rest.drop_last())[k],
            ) by {
                assert((p + rest.drop_last())[k] == q[k]);
            }
            lemma_prefix_value_bound(p, rest.drop_last());
            lemma_digits_value_grows(q);
        }
    } else {
        assert(p + rest =~= p);
    }
}

/// The source's id names an exact process (`pid:` prefix).
pub open spec fn has_pid_prefix(id: Seq<char>) -> bool {
    id.len() >= 4 && id[0] == 'p' && id[1] == 'i' && id[2] == 'd' && id[3] == ':'
}

/// A window carries the source's character and server (ignoring ASCII case).
pub open spec fn identity_matches(w: EqWindow, source: LogSource) -> bool {
    &&& w.character matches Some(c) && eq_ignore_case(c@, source.character@)
    &&& w.server matches Some(s) && eq_ignore_case(s@, source.server@)
}

pub open spec fn matching_windows(ws: Seq<EqWindow>, source: LogSource) -> Seq<EqWindow> {
    ws.filter(|w: EqWindow| identity_matches(w, source))
}

/// The client a log source belongs to.
pub open spec fn source_pid(ws: Seq<EqWindow>, source: LogSource) -> Option<u32> {
    if has_pid_prefix(source.id@) {
        match parse_u32(source.id@.skip(4)) {
            Some(pid) => if pids_of(ws).contains(pid) { Some(pid) } else { None },
            None => None,
        }
    } else if matching_windows(ws, source).len() == 1 {
        Some(matching_windows(ws, source)[0].pid)
    } else {
        None
    }
}

fn window_matches(w: &EqWindow, source: &LogSource) -> (b: bool)
    ensures
        b == identity_matches(*w, *source),
{
    let character_ok = match &w.character {
        Some(c) => eq_ignore_ascii_case(c.as_str(), source.character.as_str()),
        None => false,
    };
    let server_ok = match &w.server {
        Some(s) => eq_ignore_ascii_case(s.as_str(), source.server.as_str()),
        None => false,
    };
    character_ok && server_ok
}

/// The client process a log source belongs to, failing closed.
pub fn pid_for_log_source(windows: &[EqWindow], source: &LogSource) -> (r: Option<u32>)
    ensures
        r == source_pid(windows@, *source),
{
    let id = source.id.as_str();
    let n = id.unicode_len();
    if n >= 4 && id.get_char(0) == 'p' && id.get_char(1) == 'i' && id.get_char(2) == 'd' && id.get_char(3)
        == ':' {
        return match parse_u32_from(id, 4) {
            Some(pid) => {
                match crate::clients::position_of(windows, pid) {
                    Some(i) => {
                        assert(pids_of(windows@)[i as int] == pid);
                        Some(pid)
                    },
                    None => None,
                }
            },
            None => None,
        };
    }
    let ghost pred = |w: EqWindow| identity_matches(w, *source);
    let len = windows.len();
    let mut count: usize = 0;
    let mut first: u32 = 0;
    let mut i: usize = 0;
    proof {
        assert(windows@.take(0).filter(pred) =~= Seq::<EqWindow>::empty()) by {
            reveal_with_fuel(Seq::filter, 1);
        }
    }
    while i < len
        invariant
            len == windows@.len(),
            i <= len,
            pred == (|w: EqWindow| identity_matches(w, *source)),
            count == windows@.take(i as int).filter(pred).len(),
            count <= i,
            count >= 1 ==> first == windows@.take(i as int).filter(pred)[0].pid,
        decreases len - i,
    {
        proof {
            assert(windows@.take(i + 1).drop_last() =~= windows@.take(i as int));
            assert(windows@.take(i + 1).last() == windows@[i as int]);
            reveal_with_fuel(Seq::filter, 1);
        }
        if window_matches(&windows[i], source) {
            if count == 0 {
                first = windows[i].pid;
            }
            count = count + 1;
        }
        i = i + 1;
    }
    proof {
        assert(windows@.take(len as int) =~= windows@);
    }
    if count == 1 {
        Some(first)
    } else {
        None
    }
}

/// The id of the log source that names one exact process: `pid:<pid>`.
pub open spec fn pid_source_view(pid: u32) -> Seq<char> {
    seq!['p', 'i', 'd', ':'] + decimal(pid as nat)
}

pub fn pid_source_id(pid: u32) -> (s: String)
    ensures
        s@ == pid_source_view(pid),
{
    proof {
        reveal_strlit("pid:");
    }
    let mut s = String::from_str("pid:");
    push_decimal(&mut s, pid as u64);
    proof {
        assert(s@ =~= pid_source_view(pid));
    }
    s
}

/// A decimal representation is all digits, starts with a digit and reads
/// back as its number.
pub proof fn lemma_decimal_digits(n: nat)
    ensures
        all_digits(decimal(n)),
        decimal(n).len() > 0,
        digits_value(decimal(n)) == n,
    decreases n,
{
    let d = decimal(n);
    if n < 10 {
        assert(d.drop_last() =~= Seq::<char>::empty());
        assert((digit_char(n as int) as int) == 48 + n);
        assert(digits_value(Seq::<char>::empty()) == 0);
        assert(digits_value(d) == digits_value(d.drop_last()) * 10 + ((d.last() as int) - 48));
    } else {
        lemma_decimal_digits(n / 10);
        assert(d.drop_last() =~= decimal(n / 10));
        assert(d.last() == digit_char((n % 10) as int));
        assert((digit_char((n % 10) as int) as int) == 48 + n % 10);
        assert(digits_value(d) == digits_value(decimal(n / 10)) * 10 + (n % 10));
        assert((n / 10) * 10 + n % 10 == n);
        assert forall|i: int| 0 <= i < d.len() implies is_digit(#[trigger] d[i]) by {
            if i < d.len() - 1 {
                assert(d[i] == decimal(n / 10)[i]);
            }
        }
    }
}

/// A source id written for a process reads back as that process id.
pub proof fn law_pid_source_round_trip(pid: u32)
    ensures
        has_pid_prefix(pid_source_view(pid)),
        parse_u32(pid_source_view(pid).skip(4)) == Some(pid),
{
    lemma_decimal_digits(pid as nat);
    let v = pid_source_view(pid);
    assert(v.skip(4) =~= decimal(pid as nat));
    let d = decimal(pid as nat);
    assert(is_digit(d[0]));
    assert(strip_plus(d) == d);
}

} // verus!
