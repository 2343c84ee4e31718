//! Decimal digit runs and separator splitting over character sequences:
//! the textual ground the duration and probe parsers are built on.

use vstd::prelude::*;

verus! {

/// One past the largest value accepted as a 32-bit component.
pub const DIGIT_CAP: u64 = 4294967296;

/// The characters '0' through '9'.
pub open spec fn is_digit(c: char) -> bool {
    c == '0' || c == '1' || c == '2' || c == '3' || c == '4' || c == '5' || c == '6' || c == '7'
        || c == '8' || c == '9'
}

/// The numeric value of a decimal digit character (unspecified elsewhere).
pub open spec fn digit_val(c: char) -> nat {
    if c == '0' {
        0
    } else if c == '1' {
        1
    } else if c == '2' {
        2
    } else if c == '3' {
        3
    } else if c == '4' {
        4
    } else if c == '5' {
        5
    } else if c == '6' {
        6
    } else if c == '7' {
        7
    } else if c == '8' {
        8
    } else if c == '9' {
        9
    } else {
        10
    }
}

/// The digit character for a value below ten.
pub open spec fn digit_char(d: nat) -> char {
    if d == 0 {
        '0'
    } else if d == 1 {
        '1'
    } else if d == 2 {
        '2'
    } else if d == 3 {
        '3'
    } else if d == 4 {
        '4'
    } else if d == 5 {
        '5'
    } else if d == 6 {
        '6'
    } else if d == 7 {
        '7'
    } else if d == 8 {
        '8'
    } else {
        '9'
    }
}

/// The value of a run of decimal digits, most significant first.
pub open spec fn digits_val(s: Seq<char>) -> nat
    decreases s.len(),
{
    if s.len() == 0 {
        0
    } else {
        digits_val(s.drop_last()) * 10 + digit_val(s.last())
    }
}

/// The decimal rendering of `n`: no sign, no padding, at least one digit.
pub open spec fn dec_rep(n: nat) -> Seq<char>
    decreases n,
{
    if n < 10 {
        seq![digit_char(n)]
    } else {
        dec_rep(n / 10).push(digit_char(n % 10))
    }
}

/// Clamps a digit-run value to one past `u32::MAX`, so that saturation
/// and overflow can be told apart without tracking the exact value.
pub open spec fn sat32(x: nat) -> nat {
    if x > u32::MAX {
        (u32::MAX + 1) as nat
    } else {
        x
    }
}

/// A non-empty digit run whose value fits in 32 bits.
pub open spec fn is_u32_text(s: Seq<char>) -> bool {
    &&& s.len() > 0
    &&& forall|j: int| 0 <= j < s.len() ==> is_digit(#[trigger] s[j])
    &&& digits_val(s) <= u32::MAX
}

/// Index of the first occurrence of `sep` in `s`, or `s.len()` when absent.
pub open spec fn first_sep(s: Seq<char>, sep: char) -> int
    decreases s.len(),
{
    if s.len() == 0 {
        0
    } else if s[0] == sep {
        0
    } else {
        1 + first_sep(s.subrange(1, s.len() as int), sep)
    }
}

/// The parts of `s` delimited by `sep`, in order; always at least one part,
/// and an empty `s` yields one empty part.
pub open spec fn split_sep(s: Seq<char>, sep: char) -> Seq<Seq<char>>
    decreases s.len(),
{
    if s.len() == 0 {
        seq![s]
    } else if s[0] == sep {
        seq![Seq::<char>::empty()] + split_sep(s.subrange(1, s.len() as int), sep)
    } else {
        let rest = split_sep(s.subrange(1, s.len() as int), sep);
        seq![seq![s[0]] + rest[0]] + rest.subrange(1, rest.len() as int)
    }
}

pub proof fn lemma_digit_char_val(d: nat)
    requires
        d < 10,
    ensures
        is_digit(digit_char(d)),
        digit_val(digit_char(d)) == d,
{
}

pub proof fn lemma_dec_rep_digits(n: nat)
    ensures
        dec_rep(n).len() >= 1,
        forall|i: int| 0 <= i < dec_rep(n).len() ==> is_digit(#[trigger] dec_rep(n)[i]),
    decreases n,
{
    if n < 10 {
        lemma_digit_char_val(n);
    } else {
        lemma_dec_rep_digits(n / 10);
        lemma_digit_char_val(n % 10);
        assert forall|i: int| 0 <= i < dec_rep(n).len() implies is_digit(#[trigger] dec_rep(n)[i]) by {
            if i < dec_rep(n / 10).len() {
                assert(dec_rep(n)[i] == dec_rep(n / 10)[i]);
            } else {
                assert(dec_rep(n)[i] == digit_char(n % 10));
            }
        }
    }
}

pub proof fn lemma_dec_rep_val(n: nat)
    ensures
        digits_val(dec_rep(n)) == n,
    decreases n,
{
    if n < 10 {
        lemma_digit_char_val(n);
        let s = dec_rep(n);
        assert(s == seq![digit_char(n)]);
        assert(s.drop_last() =~= Seq::<char>::empty());
        assert(s.last() == digit_char(n));
        assert(digits_val(s) == digits_val(s.drop_last()) * 10 + digit_val(s.last()));
        assert(digits_val(Seq::<char>::empty()) == 0);
    } else {
        lemma_dec_rep_val(n / 10);
        lemma_digit_char_val(n % 10);
        let s = dec_rep(n);
        assert(s == dec_rep(n / 10).push(digit_char(n % 10)));
        assert(s.drop_last() =~= dec_rep(n / 10));
        assert(s.last() == digit_char(n % 10));
        assert(digits_val(s) == digits_val(s.drop_last()) * 10 + digit_val(s.last()));
        assert(digits_val(s.drop_last()) == n / 10);
        vstd::arithmetic::div_mod::lemma_fundamental_div_mod(n as int, 10);
        assert(digits_val(s) == (n / 10) * 10 + n % 10);
    }
}

/// Extending a digit run by one character multiplies its value by ten.
pub proof fn lemma_digits_val_step(s: Seq<char>, from: int, i: int)
    requires
        0 <= from <= i < s.len(),
    ensures
        digits_val(s.subrange(from, i + 1)) == digits_val(s.subrange(from, i)) * 10 + digit_val(
            s[i],
        ),
{
    let t = s.subrange(from, i + 1);
    assert(t.drop_last() =~= s.subrange(from, i));
    assert(t.last() == s[i]);
}

/// `first_sep` is exactly the index before which no separator occurs.
pub proof fn lemma_first_sep_is(s: Seq<char>, sep: char, i: int)
    requires
        0 <= i <= s.len(),
        forall|j: int| 0 <= j < i ==> s[j] != sep,
        i < s.len() ==> s[i] == sep,
    ensures
        first_sep(s, sep) == i,
    decreases s.len(),
{
    if s.len() == 0 {
    } else if i == 0 {
    } else {
        assert(s[0] != sep);
        let t = s.subrange(1, s.len() as int);
        assert forall|j: int| 0 <= j < i - 1 implies t[j] != sep by {
            assert(t[j] == s[j + 1]);
        }
        assert(i - 1 < t.len() ==> t[i - 1] == sep);
        lemma_first_sep_is(t, sep, i - 1);
    }
}

pub proof fn lemma_first_sep_bounds(s: Seq<char>, sep: char)
    ensures
        0 <= first_sep(s, sep) <= s.len(),
        first_sep(s, sep) < s.len() ==> s[first_sep(s, sep)] == sep,
        forall|j: int| 0 <= j < first_sep(s, sep) ==> s[j] != sep,
    decreases s.len(),
{
    if s.len() == 0 {
    } else if s[0] == sep {
    } else {
        let t = s.subrange(1, s.len() as int);
        lemma_first_sep_bounds(t, sep);
        let f = first_sep(s, sep);
        assert(f == 1 + first_sep(t, sep));
        assert forall|j: int| 0 <= j < f implies s[j] != sep by {
            if j > 0 {
                assert(s[j] == t[j - 1]);
            }
        }
    }
}

pub proof fn lemma_split_sep_len(s: Seq<char>, sep: char)
    ensures
        split_sep(s, sep).len() >= 1,
    decreases s.len(),
{
    if s.len() == 0 {
    } else {
        lemma_split_sep_len(s.subrange(1, s.len() as int), sep);
    }
}

/// `split_sep` unfolded at the first separator: the head part is everything
/// before it, and the tail parts are the split of everything after it.
pub proof fn lemma_split_sep_first(s: Seq<char>, sep: char)
    ensures
        first_sep(s, sep) == s.len() ==> split_sep(s, sep) == seq![s],
        first_sep(s, sep) < s.len() ==> split_sep(s, sep) == seq![
            s.subrange(0, first_sep(s, sep)),
        ] + split_sep(s.subrange(first_sep(s, sep) + 1, s.len() as int), sep),
    decreases s.len(),
{
    lemma_first_sep_bounds(s, sep);
    let f = first_sep(s, sep);
    if s.len() == 0 {
        assert(split_sep(s, sep) =~~= seq![s]);
    } else if s[0] == sep {
        assert(f == 0);
        assert(s.subrange(0, 0) =~= Seq::<char>::empty());
        assert(split_sep(s, sep) =~~= seq![s.subrange(0, 0)] + split_sep(
            s.subrange(1, s.len() as int),
            sep,
        ));
    } else {
        let t = s.subrange(1, s.len() as int);
        lemma_split_sep_first(t, sep);
        lemma_split_sep_len(t, sep);
        let rest = split_sep(t, sep);
        let ft = first_sep(t, sep);
        assert(f == 1 + ft);
        if ft == t.len() {
            assert(rest == seq![t]);
            assert(seq![s[0]] + rest[0] =~= s);
            assert(rest.subrange(1, rest.len() as int) =~~= Seq::<Seq<char>>::empty());
            assert(split_sep(s, sep) =~~= seq![s]);
        } else {
            assert(rest == seq![t.subrange(0, ft)] + split_sep(
                t.subrange(ft + 1, t.len() as int),
                sep,
            ));
            assert(seq![s[0]] + rest[0] =~= s.subrange(0, f));
            assert(t.subrange(ft + 1, t.len() as int) =~= s.subrange(f + 1, s.len() as int));
            assert(rest.subrange(1, rest.len() as int) =~~= split_sep(
                s.subrange(f + 1, s.len() as int),
                sep,
            ));
            assert(split_sep(s, sep) =~~= seq![s.subrange(0, f)] + split_sep(
                s.subrange(f + 1, s.len() as int),
                sep,
            ));
        }
    }
}

/// A separator-free prefix followed by the separator splits off whole.
pub proof fn lemma_split_sep_prepend(a: Seq<char>, sep: char, rest: Seq<char>)
    requires
        forall|j: int| 0 <= j < a.len() ==> a[j] != sep,
    ensures
        split_sep(a + seq![sep] + rest, sep) == seq![a] + split_sep(rest, sep),
{
    let s = a + seq![sep] + rest;
    assert forall|j: int| 0 <= j < a.len() implies s[j] != sep by {
        assert(s[j] == a[j]);
    }
    assert(s[a.len() as int] == sep);
    lemma_first_sep_is(s, sep, a.len() as int);
    lemma_split_sep_first(s, sep);
    assert(s.subrange(0, a.len() as int) =~= a);
    assert(s.subrange(a.len() as int + 1, s.len() as int) =~= rest);
}

/// A separator-free sequence is a single part.
pub proof fn lemma_split_sep_whole(a: Seq<char>, sep: char)
    requires
        forall|j: int| 0 <= j < a.len() ==> a[j] != sep,
    ensures
        split_sep(a, sep) == seq![a],
{
    lemma_first_sep_is(a, sep, a.len() as int);
    lemma_split_sep_first(a, sep);
}

/// Position of the first `sep` in `s`, or its character length when absent.
pub fn find_sep(s: &str, sep: char) -> (r: usize)
    ensures
        r == first_sep(s@, sep),
        r <= s@.len(),
{
    let n = s.unicode_len();
    let mut i: usize = 0;
    loop
        invariant
            i <= n,
            n == s@.len(),
            forall|j: int| 0 <= j < i ==> s@[j] != sep,
        decreases n - i,
    {
        if i == n {
            proof {
                lemma_first_sep_is(s@, sep, i as int);
            }
            return i;
        }
        let c = s.get_char(i);
        if c == sep {
            proof {
                lemma_first_sep_is(s@, sep, i as int);
            }
            return i;
        }
        i = i + 1;
    }
}

/// The numeric value of a decimal digit character; `None` for any other.
pub fn digit_of(c: char) -> (r: Option<u64>)
    ensures
        r is Some <==> is_digit(c),
        r matches Some(v) ==> v == digit_val(c),
{
    match c {
        '0' => Some(0),
        '1' => Some(1),
        '2' => Some(2),
        '3' => Some(3),
        '4' => Some(4),
        '5' => Some(5),
        '6' => Some(6),
        '7' => Some(7),
        '8' => Some(8),
        '9' => Some(9),
        _ => None,
    }
}

/// Scans `s` between `from` and `to`: `Some` exactly when every character
/// there is a digit, carrying the run's value clamped one past `u32::MAX`.
pub fn scan_digits(s: &str, from: usize, to: usize) -> (r: Option<u64>)
    requires
        from <= to <= s@.len(),
    ensures
        r is Some <==> (forall|j: int| from <= j < to ==> is_digit(#[trigger] s@[j])),
        r matches Some(v) ==> v == sat32(digits_val(s@.subrange(from as int, to as int))),
{
    let mut acc: u64 = 0;
    let mut i: usize = from;
    while i < to
        invariant
            from <= i <= to <= s@.len(),
            forall|j: int| from <= j < i ==> is_digit(#[trigger] s@[j]),
            acc == sat32(digits_val(s@.subrange(from as int, i as int))),
        decreases to - i,
    {
        let c = s.get_char(i);
        match digit_of(c) {
            None => {
                return None;
            },
            Some(d) => {
                proof {
                    lemma_digits_val_step(s@, from as int, i as int);
                }
                let next = acc * 10 + d;
                if next > u32::MAX as u64 {
                    acc = DIGIT_CAP;
                } else {
                    acc = next;
                }
            },
        }
        i = i + 1;
    }
    proof {
        assert(s@.subrange(from as int, i as int) == s@.subrange(from as int, to as int));
    }
    Some(acc)
}

/// Parses a non-empty unsigned decimal integer; rejects empty text,
/// non-digits, and values past `u32::MAX`.
pub fn parse_u32(s: &str) -> (r: Option<u32>)
    ensures
        r is Some <==> is_u32_text(s@),
        r matches Some(v) ==> v == digits_val(s@),
{
    let n = s.unicode_len();
    if n == 0 {
        return None;
    }
    match scan_digits(s, 0, n) {
        None => None,
        Some(v) => {
            proof {
                assert(s@.subrange(0, n as int) =~= s@);
            }
            if v <= u32::MAX as u64 {
                Some(v as u32)
            } else {
                None
            }
        },
    }
}

/// The one-character text of a decimal digit.
pub fn digit_str(d: u64) -> (r: &'static str)
    requires
        d < 10,
    ensures
        r@ == seq![digit_char(d as nat)],
{
    let r: &'static str = if d == 0 {
        "0"
    } else if d == 1 {
        "1"
    } else if d == 2 {
        "2"
    } else if d == 3 {
        "3"
    } else if d == 4 {
        "4"
    } else if d == 5 {
        "5"
    } else if d == 6 {
        "6"
    } else if d == 7 {
        "7"
    } else if d == 8 {
        "8"
    } else {
        "9"
    };
    proof {
        reveal_strlit("0");
        reveal_strlit("1");
        reveal_strlit("2");
        reveal_strlit("3");
        reveal_strlit("4");
        reveal_strlit("5");
        reveal_strlit("6");
        reveal_strlit("7");
        reveal_strlit("8");
        reveal_strlit("9");
        assert(r@ =~= seq![digit_char(d as nat)]);
    }
    r
}

/// Renders `n` in decimal, most significant digit first, no padding.
pub fn u64_to_dec(n: u64) -> (r: String)
    ensures
        r@ == dec_rep(n as nat),
    decreases n,
{
    if n < 10 {
        let d = digit_str(n);
        d.to_owned()
    } else {
        let mut s = u64_to_dec(n / 10);
        s.append(digit_str(n % 10));
        proof {
            assert(dec_rep((n as nat) / 10) + seq![digit_char((n as nat) % 10)] =~= dec_rep(
                n as nat,
            ));
        }
        s
    }
}

/// Splits `s` on `sep`; the returned parts follow `split_sep` exactly.
pub fn split_parts(s: &str, sep: char) -> (r: Vec<String>)
    ensures
        r@.len() == split_sep(s@, sep).len(),
        forall|i: int| 0 <= i < r@.len() ==> #[trigger] r@[i]@ == split_sep(s@, sep)[i],
        r@.len() >= 1,
    decreases s@.len(),
{
    let n = s.unicode_len();
    let i = find_sep(s, sep);
    proof {
        lemma_split_sep_first(s@, sep);
    }
    if i == n {
        let mut v: Vec<String> = Vec::new();
        v.push(s.to_owned());
        v
    } else {
        let head = s.substring_char(0, i);
        let tail = s.substring_char(i + 1, n);
        let mut rest = split_parts(tail, sep);
        rest.insert(0, head.to_owned());
        proof {
            assert(forall|k: int|
                0 <= k < rest@.len() ==> #[trigger] rest@[k]@ == split_sep(s@, sep)[k]);
        }
        rest
    }
}

} // verus!
