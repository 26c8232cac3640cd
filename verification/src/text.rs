//! Character-level text handling: decimal numbers, Rust's unsigned-integer
//! parsing, Unicode whitespace, trimming and whitespace splitting.

use vstd::prelude::*;

verus! {

/// The character of the decimal digit `d` (`0 <= d < 10`).
pub open spec fn digit_char(d: int) -> char {
    (d + 48) as char
}

/// The decimal representation of `n`, without sign or leading zeros.
pub open spec fn decimal(n: nat) -> Seq<char>
    decreases n,
{
    if n < 10 {
        seq![digit_char(n as int)]
    } else {
        decimal(n / 10).push(digit_char((n % 10) as int))
    }
}

/// Calls `String::push`, which std documents as appending the char to the
/// end of the string; the contract claims just that: the string's characters
/// are the old ones followed by `c`.
#[verifier::external_body]
fn push_char(s: &mut String, c: char)
    ensures
        final(s)@ == old(s)@.push(c),
{
    s.push(c)
}

fn digit_to_char(d: u64) -> (c: char)
    requires
        d < 10,
    ensures
        c == digit_char(d as int),
{
    let b: u8 = d as u8 + 48u8;
    b as char
}

/// Appends the decimal representation of `n` to `out`.
pub fn push_decimal(out: &mut String, n: u64)
    ensures
        final(out)@ == old(out)@ + decimal(n as nat),
    decreases n,
{
    if n >= 10 {
        push_decimal(out, n / 10);
    }
    let c = digit_to_char(n % 10);
    push_char(out, c);
    assert(out@ =~= old(out)@ + decimal(n as nat)) by {
        if n >= 10 {
            assert(decimal(n as nat) == decimal((n / 10) as nat).push(digit_char((n % 10) as int)));
        }
    }
}

/// Whether `c` is an ASCII decimal digit.
pub open spec fn is_digit(c: char) -> bool {
    '0' <= c <= '9'
}

/// Whether every character of `s` is an ASCII decimal digit.
pub open spec fn all_digits(s: Seq<char>) -> bool {
    forall|i: int| 0 <= i < s.len() ==> is_digit(#[trigger] s[i])
}

/// The number that the digit string `s` denotes (0 for the empty string).
pub open spec fn digits_value(s: Seq<char>) -> nat
    decreases s.len(),
{
    if s.len() == 0 {
        0
    } else {
        digits_value(s.drop_last()) * 10 + (s.last() as int - 48) as nat
    }
}

/// The digits that Rust's unsigned-integer parsing reads: one leading `+` is
/// skipped.
pub open spec fn unsigned_digits(s: Seq<char>) -> Seq<char> {
    if s.len() > 0 && s[0] == '+' {
        s.drop_first()
    } else {
        s
    }
}

/// What `str::parse` gives for an unsigned integer type whose largest value
/// is `max`: the value when `s` is an optional `+` followed by at least one
/// ASCII digit and the value fits, and nothing otherwise.
pub open spec fn parse_unsigned(s: Seq<char>, max: nat) -> Option<nat> {
    let d = unsigned_digits(s);
    if d.len() > 0 && all_digits(d) && digits_value(d) <= max {
        Some(digits_value(d))
    } else {
        None
    }
}

/// A digit string denotes at least what any of its prefixes denotes.
proof fn lemma_digits_value_prefix(d: Seq<char>, k: int)
    requires
        all_digits(d),
        0 <= k <= d.len(),
    ensures
        digits_value(d.take(k)) <= digits_value(d),
    decreases d.len(),
{
    if k < d.len() {
        let e = d.drop_last();
        assert(e.take(k) =~= d.take(k));
        assert(all_digits(e)) by {
            assert forall|i: int| 0 <= i < e.len() implies is_digit(#[trigger] e[i]) by {
                assert(e[i] == d[i]);
            }
        }
        lemma_digits_value_prefix(e, k);
    } else {
        assert(d.take(k) =~= d);
    }
}

/// Parses `s[lo..hi]` as an unsigned integer no larger than `max`, as
/// `str::parse` does for the unsigned type whose largest value is `max`.
pub fn parse_unsigned_range(s: &Vec<char>, lo: usize, hi: usize, max: u64) -> (r: Option<u64>)
    requires
        lo <= hi <= s.len(),
        max <= u32::MAX,
    ensures
        match parse_unsigned(s@.subrange(lo as int, hi as int), max as nat) {
            Some(v) => r == Some(v as u64),
            None => r is None,
        },
{
    let ghost whole = s@.subrange(lo as int, hi as int);
    let mut start = lo;
    if lo < hi && s[lo] == '+' {
        start = lo + 1;
    }
    let ghost d = s@.subrange(start as int, hi as int);
    assert(d =~= unsigned_digits(whole));
    if start == hi {
        return None;
    }
    let mut value: u64 = 0;
    let mut i = start;
    while i < hi
        invariant
            lo <= start <= i <= hi <= s.len(),
            start < hi,
            max <= u32::MAX,
            d == s@.subrange(start as int, hi as int),
            d == unsigned_digits(s@.subrange(lo as int, hi as int)),
            all_digits(s@.subrange(start as int, i as int)),
            value as nat == digits_value(s@.subrange(start as int, i as int)),
            value <= max,
        decreases hi - i,
    {
        let c = s[i];
        let ghost pre = s@.subrange(start as int, i as int);
        let ghost next = s@.subrange(start as int, i + 1);
        assert(next.drop_last() =~= pre);
        assert(d.take(i + 1 - start) =~= next);
        if !('0' <= c && c <= '9') {
            assert(d[i - start] == c);
            return None;
        }
        let digit: u64 = (c as u32 - 48) as u64;
        let v = value * 10 + digit;
        assert(v as nat == digits_value(next));
        assert(all_digits(next)) by {
            assert forall|j: int| 0 <= j < next.len() implies is_digit(#[trigger] next[j]) by {
                if j < pre.len() {
                    assert(next[j] == pre[j]);
                }
            }
        }
        if v > max {
            proof {
                if all_digits(d) {
                    lemma_digits_value_prefix(d, i + 1 - start);
                }
            }
            return None;
        }
        value = v;
        i = i + 1;
    }
    assert(s@.subrange(start as int, i as int) =~= d);
    Some(value)
}

/// The decimal representation of `n` is a non-empty digit string that
/// denotes `n`.
pub proof fn lemma_decimal_digits(n: nat)
    ensures
        decimal(n).len() > 0,
        all_digits(decimal(n)),
        digits_value(decimal(n)) == n,
    decreases n,
{
    if n >= 10 {
        lemma_decimal_digits(n / 10);
        let s = decimal(n);
        let p = decimal(n / 10);
        assert(s.drop_last() =~= p);
        assert(s.last() as int == n % 10 + 48);
        assert(n == (n / 10) * 10 + n % 10);
        assert(digits_value(s) == digits_value(p) * 10 + (s.last() as int - 48) as nat);
        assert(digits_value(s) == n);
        assert(all_digits(s)) by {
            assert forall|i: int| 0 <= i < s.len() implies is_digit(#[trigger] s[i]) by {
                if i < p.len() {
                    assert(s[i] == p[i]);
                }
            }
        }
    } else {
        let s = decimal(n);
        assert(s.drop_last() =~= Seq::<char>::empty());
        assert(s.last() as int == n + 48);
        assert(digits_value(s) == digits_value(s.drop_last()) * 10 + (s.last() as int - 48) as nat);
        assert(digits_value(s) == n);
    }
}

/// Law: parsing the decimal representation of a number that fits gives the
/// number back (`n.to_string().parse() == Ok(n)`).
pub proof fn lemma_parse_decimal(n: nat, max: nat)
    requires
        n <= max,
    ensures
        parse_unsigned(decimal(n), max) == Some(n),
{
    lemma_decimal_digits(n);
    assert(is_digit(decimal(n)[0]));
    assert(unsigned_digits(decimal(n)) == decimal(n));
}

/// The characters of `s`, in order.
pub fn chars_of(s: &str) -> (v: Vec<char>)
    ensures
        v@ == s@,
{
    let mut v: Vec<char> = Vec::new();
    for c in it: s.chars()
        invariant
            v@ == it.seq().take(it.index() as int),
    {
        v.push(c);
    }
    assert(v@ =~= s@);
    v
}

/// Whether `c` has the Unicode `White_Space` property (`char::is_whitespace`).
pub open spec fn is_whitespace(c: char) -> bool {
    ||| '\t' <= c <= '\r'
    ||| c == ' '
    ||| c == '\u{85}'
    ||| c == '\u{a0}'
    ||| c == '\u{1680}'
    ||| '\u{2000}' <= c <= '\u{200a}'
    ||| c == '\u{2028}'
    ||| c == '\u{2029}'
    ||| c == '\u{202f}'
    ||| c == '\u{205f}'
    ||| c == '\u{3000}'
}

/// Decides `is_whitespace`.
pub fn whitespace(c: char) -> (b: bool)
    ensures
        b == is_whitespace(c),
{
    ('\t' <= c && c <= '\r') || c == ' ' || c == '\u{85}' || c == '\u{a0}' || c == '\u{1680}'
        || ('\u{2000}' <= c && c <= '\u{200a}') || c == '\u{2028}' || c == '\u{2029}'
        || c == '\u{202f}' || c == '\u{205f}' || c == '\u{3000}'
}

/// `s` without its leading whitespace.
pub open spec fn trim_start(s: Seq<char>) -> Seq<char>
    decreases s.len(),
{
    if s.len() > 0 && is_whitespace(s[0]) {
        trim_start(s.drop_first())
    } else {
        s
    }
}

/// `s` without its trailing whitespace.
pub open spec fn trim_end(s: Seq<char>) -> Seq<char>
    decreases s.len(),
{
    if s.len() > 0 && is_whitespace(s.last()) {
        trim_end(s.drop_last())
    } else {
        s
    }
}

/// `s` without leading and trailing whitespace (`str::trim`).
pub open spec fn trim(s: Seq<char>) -> Seq<char> {
    trim_end(trim_start(s))
}

/// The string made of `v[lo..hi]`.
pub fn string_from_range(v: &Vec<char>, lo: usize, hi: usize) -> (s: String)
    requires
        lo <= hi <= v.len(),
    ensures
        s@ == v@.subrange(lo as int, hi as int),
{
    let mut s = String::new();
    let mut i = lo;
    while i < hi
        invariant
            lo <= i <= hi <= v.len(),
            s@ == v@.subrange(lo as int, i as int),
        decreases hi - i,
    {
        push_char(&mut s, v[i]);
        assert(s@ =~= v@.subrange(lo as int, i + 1));
        i = i + 1;
    }
    s
}

/// `s` without leading and trailing whitespace, as a new string.
pub fn trimmed(s: &str) -> (r: String)
    ensures
        r@ == trim(s@),
{
    let v = chars_of(s);
    let n = v.len();
    let mut a: usize = 0;
    assert(v@.subrange(0, n as int) =~= v@);
    while a < n && whitespace(v[a])
        invariant
            a <= n == v.len(),
            v@ == s@,
            trim_start(s@) == trim_start(v@.subrange(a as int, n as int)),
        decreases n - a,
    {
        assert(v@.subrange(a as int, n as int).drop_first() =~= v@.subrange(a + 1, n as int));
        a = a + 1;
    }
    assert(trim_start(s@) == v@.subrange(a as int, n as int));
    let mut b: usize = n;
    while b > a && whitespace(v[b - 1])
        invariant
            a <= b <= n == v.len(),
            v@ == s@,
            trim_start(s@) == v@.subrange(a as int, n as int),
            trim(s@) == trim_end(v@.subrange(a as int, b as int)),
        decreases b,
    {
        assert(v@.subrange(a as int, b as int).drop_last() =~= v@.subrange(a as int, b - 1));
        b = b - 1;
    }
    assert(trim(s@) == v@.subrange(a as int, b as int));
    string_from_range(&v, a, b)
}

/// The whitespace-separated words of `s`, in order (`str::split_whitespace`).
pub open spec fn words(s: Seq<char>) -> Seq<Seq<char>>
    decreases s.len(),
{
    if s.len() == 0 {
        seq![]
    } else {
        let w = words(s.drop_last());
        let c = s.last();
        if is_whitespace(c) {
            w
        } else if s.len() == 1 || is_whitespace(s[s.len() - 2]) {
            w.push(seq![c])
        } else {
            w.update(w.len() - 1, w.last().push(c))
        }
    }
}

/// The values of the words that parse as `u32`, in order; the other words
/// are skipped.
pub open spec fn parsed_u32s(ws: Seq<Seq<char>>) -> Seq<u32>
    decreases ws.len(),
{
    if ws.len() == 0 {
        seq![]
    } else {
        let r = parsed_u32s(ws.drop_last());
        match parse_unsigned(ws.last(), u32::MAX as nat) {
            Some(v) => r.push(v as u32),
            None => r,
        }
    }
}

proof fn lemma_parsed_push(ws: Seq<Seq<char>>, w: Seq<char>)
    ensures
        parsed_u32s(ws.push(w)) == match parse_unsigned(w, u32::MAX as nat) {
            Some(v) => parsed_u32s(ws).push(v as u32),
            None => parsed_u32s(ws),
        },
{
    assert(ws.push(w).drop_last() =~= ws);
}

/// Splits `s` at whitespace and keeps, in order, the words that parse as
/// `u32` (`s.split_whitespace().filter_map(|w| w.parse().ok())`).
pub fn parse_u32_words(s: &str) -> (r: Vec<u32>)
    ensures
        r@ == parsed_u32s(words(s@)),
{
    let v = chars_of(s);
    let n = v.len();
    let mut out: Vec<u32> = Vec::new();
    let mut in_word = false;
    let mut start: usize = 0;
    let mut i: usize = 0;
    while i < n
        invariant
            i <= n == v.len(),
            v@ == s@,
            in_word ==> start < i,
            in_word ==> forall|j: int| start <= j < i ==> !is_whitespace(#[trigger] v@[j]),
            in_word ==> words(v@.take(i as int)) == words(v@.take(start as int)).push(
                v@.subrange(start as int, i as int),
            ),
            in_word ==> out@ == parsed_u32s(words(v@.take(start as int))),
            !in_word ==> out@ == parsed_u32s(words(v@.take(i as int))),
            !in_word ==> (i == 0 || is_whitespace(v@[i - 1])),
        decreases n - i,
    {
        let c = v[i];
        let ghost t = v@.take(i + 1);
        assert(t.drop_last() =~= v@.take(i as int));
        assert(t.last() == c);
        if whitespace(c) {
            if in_word {
                let ghost word = v@.subrange(start as int, i as int);
                proof {
                    lemma_parsed_push(words(v@.take(start as int)), word);
                }
                match parse_unsigned_range(&v, start, i, 4294967295u64) {
                    Some(x) => {
                        out.push(x as u32);
                    },
                    None => {},
                }
                in_word = false;
            }
        } else {
            if in_word {
                assert(t[t.len() - 2] == v@[i - 1]);
                assert(v@.subrange(start as int, i as int).push(c) =~= v@.subrange(
                    start as int,
                    i + 1,
                ));
                assert(words(t) =~= words(v@.take(start as int)).push(
                    v@.subrange(start as int, i + 1),
                ));
            } else {
                if i > 0 {
                    assert(t[t.len() - 2] == v@[i - 1]);
                }
                assert(seq![c] =~= v@.subrange(i as int, i + 1));
                start = i;
                in_word = true;
            }
        }
        i = i + 1;
    }
    if in_word {
        assert(v@.take(n as int) =~= v@);
        let ghost word = v@.subrange(start as int, n as int);
        proof {
            lemma_parsed_push(words(v@.take(start as int)), word);
        }
        match parse_unsigned_range(&v, start, n, 4294967295u64) {
            Some(x) => {
                out.push(x as u32);
            },
            None => {},
        }
    } else {
        assert(v@.take(n as int) =~= v@);
    }
    out
}

/// Whether every character of `s` is whitespace.
pub open spec fn all_whitespace(s: Seq<char>) -> bool {
    forall|i: int| 0 <= i < s.len() ==> is_whitespace(#[trigger] s[i])
}

/// Whitespace at the end of a text adds no word.
pub proof fn lemma_words_trailing_whitespace(s: Seq<char>, t: Seq<char>)
    requires
        all_whitespace(t),
    ensures
        words(s + t) == words(s),
    decreases t.len(),
{
    if t.len() == 0 {
        assert(s + t =~= s);
    } else {
        assert((s + t).drop_last() =~= s + t.drop_last());
        assert((s + t).last() == t.last());
        assert(is_whitespace(t[t.len() - 1]));
        lemma_words_trailing_whitespace(s, t.drop_last());
    }
}

/// A run of non-whitespace characters after whitespace (or at the start) is
/// one more word.
pub proof fn lemma_words_push_word(s: Seq<char>, d: Seq<char>)
    requires
        s.len() == 0 || is_whitespace(s.last()),
        d.len() > 0,
        forall|i: int| 0 <= i < d.len() ==> !is_whitespace(#[trigger] d[i]),
    ensures
        words(s + d) == words(s).push(d),
    decreases d.len(),
{
    let sd = s + d;
    assert(sd.drop_last() =~= s + d.drop_last());
    assert(sd.last() == d[d.len() - 1]);
    if d.len() == 1 {
        assert(s + d.drop_last() =~= s);
        if s.len() > 0 {
            assert(sd[sd.len() - 2] == s.last());
        }
        assert(seq![sd.last()] =~= d);
    } else {
        lemma_words_push_word(s, d.drop_last());
        assert(sd[sd.len() - 2] == d[d.len() - 2]);
        let w = words(s + d.drop_last());
        assert(w.update(w.len() - 1, w.last().push(d[d.len() - 1])) =~= words(s).push(d)) by {
            assert(d.drop_last().push(d[d.len() - 1]) =~= d);
        }
    }
}

/// The numbers `ns` written in decimal, each followed by `sep`.
pub open spec fn listed(ns: Seq<u32>, sep: Seq<char>) -> Seq<char>
    decreases ns.len(),
{
    if ns.len() == 0 {
        Seq::<char>::empty()
    } else {
        listed(ns.drop_last(), sep) + decimal(ns.last() as nat) + sep
    }
}

/// Law: numbers written in decimal, each followed by whitespace, are read
/// back by `parse_u32_words` in order.
pub proof fn lemma_listed_read_back(ns: Seq<u32>, sep: Seq<char>)
    requires
        sep.len() > 0,
        all_whitespace(sep),
    ensures
        parsed_u32s(words(listed(ns, sep))) == ns,
        words(listed(ns, sep)).len() == ns.len(),
    decreases ns.len(),
{
    if ns.len() == 0 {
        assert(ns =~= Seq::<u32>::empty());
    } else {
        let pre = listed(ns.drop_last(), sep);
        let d = decimal(ns.last() as nat);
        lemma_listed_read_back(ns.drop_last(), sep);
        lemma_decimal_digits(ns.last() as nat);
        assert forall|i: int| 0 <= i < d.len() implies !is_whitespace(#[trigger] d[i]) by {
            assert(is_digit(d[i]));
        }
        if pre.len() > 0 {
            assert(pre == listed(ns.drop_last().drop_last(), sep) + decimal(
                ns.drop_last().last() as nat,
            ) + sep);
            assert(pre.last() == sep.last());
            assert(is_whitespace(sep[sep.len() - 1]));
        }
        lemma_words_push_word(pre, d);
        lemma_words_trailing_whitespace(pre + d, sep);
        lemma_parsed_push(words(pre), d);
        lemma_parse_decimal(ns.last() as nat, u32::MAX as nat);
        assert(ns.drop_last().push(ns.last()) =~= ns);
    }
}

/// Whether `s[i..j]` is a run of digits that ends where `s` has a non-digit
/// at `j`, and that reads as `value` for a type whose largest value is `max`.
pub open spec fn number_field(s: Seq<char>, i: int, j: int, value: nat, max: nat) -> bool {
    &&& 0 <= i < j < s.len()
    &&& all_digits(s.subrange(i, j))
    &&& !is_digit(s[j])
    &&& parse_unsigned(s.subrange(i, j), max) == Some(value)
}

/// A number written in decimal between a text `a` and a text `b` that starts
/// with a non-digit is found right after `a`, and reads back as itself.
pub proof fn lemma_number_field(a: Seq<char>, n: nat, b: Seq<char>, max: nat)
    requires
        n <= max,
        b.len() > 0,
        !is_digit(b[0]),
    ensures
        (a + decimal(n) + b).take(a.len() as int) == a,
        number_field(a + decimal(n) + b, a.len() as int, (a.len() + decimal(n).len()) as int, n, max),
{
    let d = decimal(n);
    let s = a + d + b;
    lemma_decimal_digits(n);
    lemma_parse_decimal(n, max);
    assert(s.take(a.len() as int) =~= a);
    assert(s.subrange(a.len() as int, (a.len() + d.len()) as int) =~= d);
    assert(s[(a.len() + d.len()) as int] == b[0]);
}

/// Where a digit run starting at `i` ends is determined by the text: two
/// number fields starting at the same place are the same field.
pub proof fn lemma_number_field_unique(
    s: Seq<char>,
    i: int,
    j1: int,
    j2: int,
    v1: nat,
    v2: nat,
    max: nat,
)
    requires
        number_field(s, i, j1, v1, max),
        number_field(s, i, j2, v2, max),
    ensures
        j1 == j2,
        v1 == v2,
{
    if j1 < j2 {
        assert(s.subrange(i, j2)[j1 - i] == s[j1]);
        assert(is_digit(s.subrange(i, j2)[j1 - i]));
    } else if j2 < j1 {
        assert(s.subrange(i, j1)[j2 - i] == s[j2]);
        assert(is_digit(s.subrange(i, j1)[j2 - i]));
    }
}

} // verus!
