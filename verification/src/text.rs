use vstd::prelude::*;

verus! {

/// Whether `c` is one of the ASCII digits `0` to `9`.
pub open spec fn is_digit(c: char) -> bool {
    48 <= c as int <= 57
}

/// The ASCII digit for `d` (`0 <= d < 10`).
pub open spec fn digit_char(d: int) -> char {
    (d + 48) as char
}

/// The numeric value of a string of decimal digits, most significant first.
pub open spec fn digits_value(s: Seq<char>) -> int
    decreases s.len(),
{
    if s.len() == 0 {
        0
    } else {
        digits_value(s.drop_last()) * 10 + (s.last() as int - 48)
    }
}

/// The digits after an optional leading `+`.
pub open spec fn unsigned_digits(s: Seq<char>) -> Seq<char> {
    if s.len() > 0 && s[0] == '+' {
        s.drop_first()
    } else {
        s
    }
}

/// What reading `s` as an unsigned 64-bit decimal number gives: an optional
/// `+`, then one or more digits, and nothing else, with a value that fits
/// in 64 bits.
pub open spec fn parse_u64_spec(s: Seq<char>) -> Option<u64> {
    let d = unsigned_digits(s);
    if d.len() > 0 && (forall|i: int| 0 <= i < d.len() ==> is_digit(#[trigger] d[i]))
        && digits_value(d) <= u64::MAX {
        Some(digits_value(d) as u64)
    } else {
        None
    }
}

/// The decimal representation of `n`, without sign or leading zeros.
pub open spec fn decimal(n: nat) -> Seq<char>
    decreases n,
{
    if n < 10 {
        seq![digit_char(n as int)]
    } else {
        decimal(n / 10).push(digit_char((n % 10) as int))
    }
}

/// The part of `s` after the last `sep`, or all of `s` when `sep` does not
/// occur in it.
pub open spec fn after_last(s: Seq<char>, sep: char) -> Seq<char>
    decreases s.len(),
{
    if s.len() == 0 {
        s
    } else if s.last() == sep {
        Seq::empty()
    } else {
        after_last(s.drop_last(), sep).push(s.last())
    }
}

/// The part of `s` before the first `sep`, or all of `s` when `sep` does
/// not occur in it.
pub open spec fn before_first(s: Seq<char>, sep: char) -> Seq<char>
    decreases s.len(),
{
    if s.len() == 0 {
        s
    } else if s[0] == sep {
        Seq::empty()
    } else {
        seq![s[0]] + before_first(s.drop_first(), sep)
    }
}

/// The characters of `s`, in order.
pub fn chars_of(s: &str) -> (v: Vec<char>)
    ensures
        v@ == s@,
{
    let mut v: Vec<char> = Vec::new();
    for c in it: s.chars()
        invariant
            v@ == it.seq().take(it.index() as int),
            it.seq() == s@,
    {
        v.push(c);
    }
    v
}

/// Whether two texts hold the same characters.
pub fn same_text(a: &str, b: &str) -> (r: bool)
    ensures
        r == (a@ == b@),
{
    a.to_owned() == b.to_owned()
}

fn digit_text(d: u64) -> (s: &'static str)
    requires
        d < 10,
    ensures
        s@ == seq![digit_char(d as int)],
{
    proof {
        reveal_strlit("0");
        reveal_strlit("1");
        reveal_strlit("2");
        reveal_strlit("3");
        reveal_strlit("4");
        reveal_strlit("5");
        reveal_strlit("6");
        reveal_strlit("7");
        reveal_strlit("8");
        reveal_strlit("9");
    }
    match d {
        0 => "0",
        1 => "1",
        2 => "2",
        3 => "3",
        4 => "4",
        5 => "5",
        6 => "6",
        7 => "7",
        8 => "8",
        _ => "9",
    }
}

/// Writes `n` in decimal, as `u64`'s `to_string` does.
pub fn decimal_text(n: u64) -> (s: String)
    ensures
        s@ == decimal(n as nat),
    decreases n,
{
    if n < 10 {
        String::from_str(digit_text(n))
    } else {
        let mut s = decimal_text(n / 10);
        s.append(digit_text(n % 10));
        s
    }
}

/// Cutting `a + b` at the first `sep` gives `a` when `sep` does not occur
/// in `a` and `b` starts with it.
pub proof fn lemma_before_first_of_join(a: Seq<char>, b: Seq<char>, sep: char)
    requires
        forall|i: int| 0 <= i < a.len() ==> #[trigger] a[i] != sep,
        b.len() > 0 && b[0] == sep,
    ensures
        before_first(a + b, sep) == a,
    decreases a.len(),
{
    if a.len() == 0 {
        assert(a + b =~= b);
    } else {
        assert((a + b).drop_first() =~= a.drop_first() + b);
        assert((a + b)[0] == a[0]);
        lemma_before_first_of_join(a.drop_first(), b, sep);
        assert(seq![a[0]] + a.drop_first() =~= a);
    }
}

/// A text without `sep` is kept whole by cutting at the first `sep`.
pub proof fn lemma_before_first_absent(s: Seq<char>, sep: char)
    requires
        forall|i: int| 0 <= i < s.len() ==> #[trigger] s[i] != sep,
    ensures
        before_first(s, sep) == s,
    decreases s.len(),
{
    if s.len() > 0 {
        assert forall|i: int| 0 <= i < s.drop_first().len() implies #[trigger] s.drop_first()[i] != sep by {
            assert(s.drop_first()[i] == s[i + 1]);
        }
        lemma_before_first_absent(s.drop_first(), sep);
        assert(seq![s[0]] + s.drop_first() =~= s);
    }
}

/// Taking what follows the last `sep` of `a + b` gives `b` when `sep` does
/// not occur in `b` and `a` ends with it.
pub proof fn lemma_after_last_of_join(a: Seq<char>, b: Seq<char>, sep: char)
    requires
        forall|i: int| 0 <= i < b.len() ==> #[trigger] b[i] != sep,
        a.len() > 0 && a.last() == sep,
    ensures
        after_last(a + b, sep) == b,
    decreases b.len(),
{
    if b.len() == 0 {
        assert(a + b =~= a);
    } else {
        assert((a + b).drop_last() =~= a + b.drop_last());
        assert((a + b).last() == b.last());
        lemma_after_last_of_join(a, b.drop_last(), sep);
        assert(b.drop_last().push(b.last()) =~= b);
    }
}

proof fn lemma_digits_value_grows(s: Seq<char>, k: int)
    requires
        0 <= k <= s.len(),
        forall|i: int| 0 <= i < s.len() ==> is_digit(#[trigger] s[i]),
    ensures
        0 <= digits_value(s.take(k)) <= digits_value(s),
    decreases s.len(),
{
    if s.len() > 0 {
        if k == s.len() {
            assert(s.take(k) =~= s);
            lemma_digits_value_grows(s.drop_last(), k - 1);
            assert(s.drop_last().take(k - 1) =~= s.drop_last());
        } else {
            lemma_digits_value_grows(s.drop_last(), k);
            assert(s.drop_last().take(k) =~= s.take(k));
            let ghost d = s.last();
            assert(is_digit(s[s.len() - 1]));
        }
    }
}

/// Reads `s` as an unsigned 64-bit decimal number, as `str::parse::<u64>`
/// does: an optional `+`, then digits only; `None` for anything else or for
/// a value above `u64::MAX`.
pub fn parse_u64(s: &str) -> (r: Option<u64>)
    ensures
        r == parse_u64_spec(s@),
{
    let cs = chars_of(s);
    let n = cs.len();
    let mut start: usize = 0;
    if n > 0 && cs[0] == '+' {
        start = 1;
    }
    let ghost d = unsigned_digits(s@);
    assert(d =~= s@.subrange(start as int, n as int));
    if start == n {
        return None;
    }
    let mut i: usize = start;
    let mut value: u64 = 0;
    while i < n
        invariant
            cs@ == s@,
            n == cs@.len(),
            start <= i <= n,
            d == s@.subrange(start as int, n as int),
            d == unsigned_digits(s@),
            d.len() > 0,
            forall|j: int| 0 <= j < i - start ==> is_digit(#[trigger] d[j]),
            value == digits_value(d.take(i - start)),
        decreases n - i,
    {
        let c = cs[i];
        assert(d[i - start] == c);
        if c < '0' || c > '9' {
            assert(!is_digit(d[i - start]));
            return None;
        }
        let code = c as u32;
        assert(code == c as int);
        let digit = (code - 48) as u64;
        assert(d.take(i - start + 1).last() == c);
        assert(d.take(i - start + 1).drop_last() =~= d.take(i - start));
        assert(digits_value(d.take(i - start + 1)) == value * 10 + digit);
        if value > (u64::MAX - digit) / 10 {
            assert(value * 10 + digit > u64::MAX) by (nonlinear_arith)
                requires value > (u64::MAX - digit) / 10, digit < 10;
            proof {
                if forall|j: int| 0 <= j < d.len() ==> is_digit(#[trigger] d[j]) {
                    lemma_digits_value_grows(d, i - start + 1);
                }
            }
            return None;
        }
        value = value * 10 + digit;
        i = i + 1;
    }
    assert(d.take(n - start) =~= d);
    Some(value)
}

/// The decimal text of a number is a non-empty run of digits, with no sign,
/// whose value is the number.
pub proof fn lemma_decimal_digits(n: nat)
    ensures
        decimal(n).len() > 0,
        decimal(n)[0] != '+',
        forall|i: int| 0 <= i < decimal(n).len() ==> is_digit(#[trigger] decimal(n)[i]),
        digits_value(decimal(n)) == n,
    decreases n,
{
    if n >= 10 {
        lemma_decimal_digits(n / 10);
        assert(decimal(n).drop_last() =~= decimal(n / 10));
        assert(digit_char((n % 10) as int) as int == n % 10 + 48);
        assert(decimal(n).last() == digit_char((n % 10) as int));
        assert((n / 10) * 10 + n % 10 == n);
        let dd = decimal(n);
        assert(digits_value(dd) == digits_value(dd.drop_last()) * 10 + (dd.last() as int - 48));
        assert forall|i: int| 0 <= i < decimal(n).len() implies is_digit(#[trigger] decimal(n)[i]) by {
            if i < decimal(n).len() - 1 {
                assert(decimal(n)[i] == decimal(n / 10)[i]);
            }
        }
    } else {
        assert(decimal(n).drop_last() =~= Seq::<char>::empty());
        assert(digit_char(n as int) as int == n + 48);
        let dd = decimal(n);
        assert(dd.last() == digit_char(n as int));
        assert(digits_value(dd.drop_last()) == 0);
    }
}

/// Reading back what `decimal_text` writes gives the number again.
pub proof fn lemma_decimal_parses_back(n: u64)
    ensures
        parse_u64_spec(decimal(n as nat)) == Some(n),
{
    lemma_decimal_digits(n as nat);
}

/// The part of `s` after its last `sep` (all of `s` when there is none).
pub fn text_after_last<'a>(s: &'a str, sep: char) -> (r: &'a str)
    ensures
        r@ == after_last(s@, sep),
{
    let cs = chars_of(s);
    let n = cs.len();
    let mut k: usize = n;
    assert(s@.take(n as int) =~= s@);
    assert(s@.subrange(n as int, n as int) =~= Seq::<char>::empty());
    while k > 0 && cs[k - 1] != sep
        invariant
            cs@ == s@,
            n == cs@.len(),
            k <= n,
            after_last(s@, sep) == after_last(s@.take(k as int), sep) + s@.subrange(k as int, n as int),
        decreases k,
    {
        assert(s@.take(k as int).drop_last() =~= s@.take(k - 1));
        assert(s@.take(k as int).last() == s@[k - 1]);
        assert(s@.subrange(k - 1, n as int) =~= seq![s@[k - 1]] + s@.subrange(k as int, n as int));
        assert(after_last(s@.take(k - 1), sep).push(s@[k - 1]) + s@.subrange(k as int, n as int)
            =~= after_last(s@.take(k - 1), sep) + s@.subrange(k - 1, n as int));
        k = k - 1;
    }
    if k > 0 {
        assert(s@.take(k as int).last() == s@[k - 1]);
    }
    assert(after_last(s@.take(k as int), sep) =~= Seq::<char>::empty());
    assert(after_last(s@, sep) =~= s@.subrange(k as int, n as int));
    s.substring_char(k, n)
}

/// The part of `s` before its first `sep` (all of `s` when there is none).
pub fn text_before_first<'a>(s: &'a str, sep: char) -> (r: &'a str)
    ensures
        r@ == before_first(s@, sep),
{
    let cs = chars_of(s);
    let n = cs.len();
    let mut j: usize = 0;
    assert(s@.take(0) =~= Seq::<char>::empty());
    assert(s@.skip(0) =~= s@);
    while j < n && cs[j] != sep
        invariant
            cs@ == s@,
            n == cs@.len(),
            j <= n,
            before_first(s@, sep) == s@.take(j as int) + before_first(s@.skip(j as int), sep),
        decreases n - j,
    {
        assert(s@.skip(j as int).drop_first() =~= s@.skip(j + 1));
        assert(s@.skip(j as int)[0] == s@[j as int]);
        assert(s@.take(j + 1) =~= s@.take(j as int) + seq![s@[j as int]]);
        j = j + 1;
    }
    if j < n {
        assert(s@.skip(j as int)[0] == s@[j as int]);
    } else {
        assert(s@.skip(j as int) =~= Seq::<char>::empty());
    }
    assert(before_first(s@, sep) =~= s@.take(j as int));
    s.substring_char(0, j)
}

/// What follows the last `sep` is a suffix of `s` in which `sep` does not
/// occur.
pub proof fn lemma_after_last_is_clean_suffix(s: Seq<char>, sep: char)
    ensures
        after_last(s, sep).len() <= s.len(),
        after_last(s, sep) == s.subrange(s.len() - after_last(s, sep).len(), s.len() as int),
        forall|i: int| 0 <= i < after_last(s, sep).len() ==> #[trigger] after_last(s, sep)[i] != sep,
    decreases s.len(),
{
    if s.len() > 0 && s.last() != sep {
        lemma_after_last_is_clean_suffix(s.drop_last(), sep);
        let r = after_last(s.drop_last(), sep);
        assert(after_last(s, sep) =~= s.subrange(s.len() - after_last(s, sep).len(), s.len() as int));
        assert forall|i: int| 0 <= i < after_last(s, sep).len() implies #[trigger] after_last(s, sep)[i] != sep by {
            if i < r.len() {
                assert(after_last(s, sep)[i] == r[i]);
            }
        }
    } else if s.len() > 0 {
        assert(s.subrange(s.len() as int, s.len() as int) =~= Seq::<char>::empty());
    }
}

/// What comes before the first `sep` is a prefix of `s` in which `sep`
/// does not occur.
pub proof fn lemma_before_first_is_clean_prefix(s: Seq<char>, sep: char)
    ensures
        before_first(s, sep).len() <= s.len(),
        before_first(s, sep) == s.take(before_first(s, sep).len() as int),
        forall|i: int| 0 <= i < before_first(s, sep).len() ==> #[trigger] before_first(s, sep)[i] != sep,
    decreases s.len(),
{
    if s.len() > 0 && s[0] != sep {
        lemma_before_first_is_clean_prefix(s.drop_first(), sep);
        let r = before_first(s.drop_first(), sep);
        assert(before_first(s, sep) =~= s.take(before_first(s, sep).len() as int));
        assert forall|i: int| 0 <= i < before_first(s, sep).len() implies #[trigger] before_first(s, sep)[i] != sep by {
            if i > 0 {
                assert(before_first(s, sep)[i] == r[i - 1]);
            }
        }
    } else {
        assert(s.take(0) =~= Seq::<char>::empty());
    }
}

/// A leading `+` is accepted: `+` followed by the decimal text of `n`
/// reads as `n`.
pub proof fn lemma_plus_sign_accepted(n: u64)
    ensures
        parse_u64_spec(seq!['+'] + decimal(n as nat)) == Some(n),
{
    lemma_decimal_digits(n as nat);
    assert((seq!['+'] + decimal(n as nat)).drop_first() =~= decimal(n as nat));
}

/// Leading zeros do not change the value: `0` followed by the decimal text
/// of `n` reads as `n`.
pub proof fn lemma_leading_zero_accepted(n: u64)
    ensures
        parse_u64_spec(seq!['0'] + decimal(n as nat)) == Some(n),
{
    let d = decimal(n as nat);
    let z = seq!['0'] + d;
    lemma_decimal_digits(n as nat);
    assert forall|i: int| 0 <= i < z.len() implies is_digit(#[trigger] z[i]) by {
        if i > 0 {
            assert(z[i] == d[i - 1]);
        }
    }
    lemma_leading_zero_value(d);
}

proof fn lemma_leading_zero_value(d: Seq<char>)
    ensures
        digits_value(seq!['0'] + d) == digits_value(d),
    decreases d.len(),
{
    if d.len() == 0 {
        assert((seq!['0'] + d).drop_last() =~= Seq::<char>::empty());
        assert((seq!['0'] + d).last() == '0');
        assert('0' as int == 48);
        assert(digits_value((seq!['0'] + d).drop_last()) == 0);
    } else {
        assert((seq!['0'] + d).drop_last() =~= seq!['0'] + d.drop_last());
        assert((seq!['0'] + d).last() == d.last());
        lemma_leading_zero_value(d.drop_last());
        let z = seq!['0'] + d;
        assert(digits_value(z) == digits_value(z.drop_last()) * 10 + (z.last() as int - 48));
    }
}

/// Any character that is neither a digit nor `+`, wherever it stands,
/// makes the text unreadable as a number.
pub proof fn lemma_stray_character_rejected(a: Seq<char>, c: char, b: Seq<char>)
    requires
        !(48 <= c as int <= 57),
        c != '+',
    ensures
        parse_u64_spec(a + seq![c] + b) == None::<u64>,
{
    let s = a + seq![c] + b;
    let d = unsigned_digits(s);
    assert(s[a.len() as int] == c);
    if s.len() > 0 && s[0] == '+' {
        assert(a.len() > 0);
        assert(d[a.len() - 1] == c);
    } else {
        assert(d[a.len() as int] == c);
    }
}

/// The empty text is not a number.
pub proof fn lemma_empty_rejected()
    ensures
        parse_u64_spec(Seq::<char>::empty()) == None::<u64>,
{
}

/// A decimal number above `u64::MAX` is not read.
pub proof fn lemma_too_large_rejected(n: nat)
    requires
        n > u64::MAX,
    ensures
        parse_u64_spec(decimal(n)) == None::<u64>,
{
    lemma_decimal_digits(n);
}

} // verus!
