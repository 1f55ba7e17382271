//! Character-level text handling for attribute values: decimal rendering and
//! parsing of integers, and trimming of padding characters.
use vstd::prelude::*;

verus! {

// ---------------------------------------------------------------------------
// Digits
// ---------------------------------------------------------------------------

/// Whether `c` is one of the ASCII digits `0` to `9`.
pub open spec fn is_digit(c: char) -> bool {
    48 <= (c as int) && (c as int) <= 57
}

/// The value of the ASCII digit `c`.
pub open spec fn digit_value(c: char) -> int {
    (c as int) - 48
}

/// The ASCII digit whose value is `d` (for `0 <= d < 10`).
pub open spec fn digit_char(d: int) -> char {
    (d + 48) as char
}

/// Whether every character of `s` is an ASCII digit.
pub open spec fn all_digits(s: Seq<char>) -> bool {
    forall|i: int| 0 <= i < s.len() ==> #[trigger] is_digit(s[i])
}

/// The number that the digits `s` denote, most significant digit first.
pub open spec fn digits_value(s: Seq<char>) -> int
    decreases s.len(),
{
    if s.len() == 0 {
        0
    } else {
        digits_value(s.drop_last()) * 10 + digit_value(s.last())
    }
}

/// The shortest decimal text of the natural number `n`.
pub open spec fn nat_text(n: nat) -> Seq<char>
    decreases n,
{
    if n < 10 {
        seq![digit_char(n as int)]
    } else {
        nat_text(n / 10).push(digit_char((n % 10) as int))
    }
}

/// The decimal text of the integer `n`, with a leading `-` when it is negative:
/// what `to_string` gives for a signed integer.
pub open spec fn int_text(n: int) -> Seq<char> {
    if n < 0 {
        seq!['-'] + nat_text((-n) as nat)
    } else {
        nat_text(n as nat)
    }
}

/// `s` without its first character when that character is `c`.
pub open spec fn without_sign(s: Seq<char>, c: char) -> Seq<char> {
    if s.len() > 0 && s[0] == c {
        s.drop_first()
    } else {
        s
    }
}

/// Whether `s` is a non-empty run of digits whose value is at most `bound`.
pub open spec fn digits_within(s: Seq<char>, bound: int) -> bool {
    s.len() > 0 && all_digits(s) && digits_value(s) <= bound
}

/// What `str::parse::<u64>` gives for `s`: an optional `+`, then one or more
/// ASCII digits whose value fits in a `u64`.
pub open spec fn spec_parse_u64(s: Seq<char>) -> Option<u64> {
    let body = without_sign(s, '+');
    if digits_within(body, u64::MAX as int) {
        Some(digits_value(body) as u64)
    } else {
        None
    }
}

/// What `str::parse::<i64>` gives for `s`: an optional `+` or `-`, then one or
/// more ASCII digits, with the signed value in the range of an `i64`.
pub open spec fn spec_parse_i64(s: Seq<char>) -> Option<i64> {
    if s.len() > 0 && s[0] == '-' {
        let body = s.drop_first();
        if digits_within(body, 0x8000_0000_0000_0000) {
            Some((-digits_value(body)) as i64)
        } else {
            None
        }
    } else {
        let body = without_sign(s, '+');
        if digits_within(body, i64::MAX as int) {
            Some(digits_value(body) as i64)
        } else {
            None
        }
    }
}

// ---------------------------------------------------------------------------
// Trimming
// ---------------------------------------------------------------------------

/// Which characters a trim removes.
#[derive(Clone, Copy, PartialEq, Eq, Structural)]
pub enum Padding {
    /// The NUL character.
    Nul,
    /// The characters with the Unicode `White_Space` property.
    WhiteSpace,
}

/// Whether `c` has the Unicode `White_Space` property.
pub open spec fn is_white_space(c: char) -> bool {
    let x: int = c as int;
    ||| 9 <= x <= 13
    ||| x == 0x20
    ||| x == 0x85
    ||| x == 0xA0
    ||| x == 0x1680
    ||| 0x2000 <= x <= 0x200A
    ||| x == 0x2028
    ||| x == 0x2029
    ||| x == 0x202F
    ||| x == 0x205F
    ||| x == 0x3000
}

/// Whether `c` is a character that `padding` names.
pub open spec fn is_padding(padding: Padding, c: char) -> bool {
    match padding {
        Padding::Nul => c as int == 0,
        Padding::WhiteSpace => is_white_space(c),
    }
}

/// `s` with all its leading padding characters removed.
pub open spec fn trim_front(s: Seq<char>, padding: Padding) -> Seq<char>
    decreases s.len(),
{
    if s.len() > 0 && is_padding(padding, s[0]) {
        trim_front(s.drop_first(), padding)
    } else {
        s
    }
}

/// `s` with all its trailing padding characters removed.
pub open spec fn trim_back(s: Seq<char>, padding: Padding) -> Seq<char>
    decreases s.len(),
{
    if s.len() > 0 && is_padding(padding, s.last()) {
        trim_back(s.drop_last(), padding)
    } else {
        s
    }
}

/// `s` with its leading and trailing padding characters removed, as
/// `str::trim_matches` (for NUL) and `str::trim` (for white space) do.
pub open spec fn trim_both(s: Seq<char>, padding: Padding) -> Seq<char> {
    trim_back(trim_front(s, padding), padding)
}

/// A stored timestamp text with NUL padding removed first and then white space.
pub open spec fn clean_text(s: Seq<char>) -> Seq<char> {
    trim_both(trim_both(s, Padding::Nul), Padding::WhiteSpace)
}

// ---------------------------------------------------------------------------
// Lemmas
// ---------------------------------------------------------------------------

/// A run of digits is worth at least as much as any of its prefixes.
pub proof fn lemma_digits_value_prefix(s: Seq<char>, k: int)
    requires
        all_digits(s),
        0 <= k <= s.len(),
    ensures
        0 <= digits_value(s.take(k)) <= digits_value(s),
    decreases s.len(),
{
    if s.len() == 0 {
        assert(s.take(k) =~= s);
    } else if k == s.len() {
        assert(s.take(k) =~= s);
        lemma_digits_value_nonneg(s);
    } else {
        let t = s.drop_last();
        assert(all_digits(t)) by {
            assert forall|i: int| 0 <= i < t.len() implies #[trigger] is_digit(t[i]) by {
                assert(t[i] == s[i]);
            }
        }
        lemma_digits_value_prefix(t, k);
        assert(t.take(k) =~= s.take(k));
        lemma_digits_value_nonneg(t);
        assert(is_digit(s[s.len() - 1]));
    }
}

/// A run of digits is worth zero or more.
pub proof fn lemma_digits_value_nonneg(s: Seq<char>)
    requires
        all_digits(s),
    ensures
        digits_value(s) >= 0,
    decreases s.len(),
{
    if s.len() > 0 {
        let t = s.drop_last();
        assert(all_digits(t)) by {
            assert forall|i: int| 0 <= i < t.len() implies #[trigger] is_digit(t[i]) by {
                assert(t[i] == s[i]);
            }
        }
        lemma_digits_value_nonneg(t);
        assert(is_digit(s[s.len() - 1]));
    }
}

/// The decimal text of `n` is a non-empty run of digits worth `n`.
pub proof fn lemma_nat_text(n: nat)
    ensures
        nat_text(n).len() > 0,
        all_digits(nat_text(n)),
        digits_value(nat_text(n)) == n,
    decreases n,
{
    if n < 10 {
        let s = nat_text(n);
        assert(s.drop_last() =~= Seq::<char>::empty());
        assert(s.last() == digit_char(n as int));
        assert(digit_char(n as int) as int == n + 48);
        assert(is_digit(s[0]));
        assert(digits_value(s.drop_last()) == 0);
        assert(digits_value(s) == n);
    } else {
        lemma_nat_text(n / 10);
        let s = nat_text(n);
        let t = nat_text(n / 10);
        assert(s.drop_last() =~= t);
        assert(all_digits(s)) by {
            assert forall|i: int| 0 <= i < s.len() implies #[trigger] is_digit(s[i]) by {
                if i < t.len() {
                    assert(s[i] == t[i]);
                }
            }
        }
        assert(n == 10 * (n / 10) + n % 10) by {
            vstd::arithmetic::div_mod::lemma_fundamental_div_mod(n as int, 10);
        }
        assert(s.last() == digit_char((n % 10) as int));
        assert(digit_char((n % 10) as int) as int == n % 10 + 48);
        assert(digits_value(s) == digits_value(t) * 10 + digit_value(s.last()));
        assert(digits_value(t) == n / 10);
        assert(digit_value(s.last()) == n % 10);
        let v: int = digits_value(s);
        let w: int = digits_value(t);
        assert(v == n) by (nonlinear_arith)
            requires
                v == w * 10 + n % 10,
                w == n / 10,
        ;
    }
}

/// Reading back the decimal text of a `u64` gives the same number.
pub proof fn lemma_parse_u64_of_text(n: u64)
    ensures
        spec_parse_u64(nat_text(n as nat)) == Some(n),
{
    lemma_nat_text(n as nat);
    let s = nat_text(n as nat);
    assert(is_digit(s[0]));
    assert(without_sign(s, '+') == s);
}

/// Reading back the decimal text of an `i64` gives the same number.
pub proof fn lemma_parse_i64_of_text(n: i64)
    ensures
        spec_parse_i64(int_text(n as int)) == Some(n),
{
    if n < 0 {
        let m = (-n) as nat;
        lemma_nat_text(m);
        let s = int_text(n as int);
        assert(s.drop_first() =~= nat_text(m));
    } else {
        lemma_nat_text(n as nat);
        let s = nat_text(n as nat);
        assert(is_digit(s[0]));
        assert(without_sign(s, '+') == s);
    }
}

/// Neither end of a decimal text is padding, so trimming leaves it as it is.
pub proof fn lemma_clean_int_text(n: int)
    ensures
        clean_text(int_text(n)) == int_text(n),
{
    let s = int_text(n);
    let m: nat = if n < 0 { (-n) as nat } else { n as nat };
    lemma_nat_text(m);
    let t = nat_text(m);
    assert(is_digit(t[0]));
    assert(is_digit(t[t.len() - 1]));
    assert(s.len() > 0);
    assert(!is_padding(Padding::Nul, s[0]) && !is_padding(Padding::WhiteSpace, s[0]));
    assert(s.last() == t.last());
    assert(!is_padding(Padding::Nul, s.last()) && !is_padding(Padding::WhiteSpace, s.last()));
    assert(trim_front(s, Padding::Nul) == s);
    assert(trim_back(s, Padding::Nul) == s);
    assert(trim_front(s, Padding::WhiteSpace) == s);
    assert(trim_back(s, Padding::WhiteSpace) == s);
}

// ---------------------------------------------------------------------------
// Executable functions
// ---------------------------------------------------------------------------

/// The ASCII digit of `d`.
pub fn digit_to_char(d: u64) -> (c: char)
    requires
        d < 10,
    ensures
        c == digit_char(d as int),
        is_digit(c),
        digit_value(c) == d,
{
    let b: u8 = (d as u8) + 48;
    b as char
}

/// Appends the decimal text of `n` to `out`.
pub fn push_nat_text(n: u64, out: &mut Vec<char>)
    ensures
        final(out)@ == old(out)@ + nat_text(n as nat),
    decreases n,
{
    if n >= 10 {
        push_nat_text(n / 10, out);
    }
    let c = digit_to_char(n % 10);
    out.push(c);
    proof {
        if n >= 10 {
            assert(nat_text(n as nat) == nat_text((n / 10) as nat).push(c));
        } else {
            assert(nat_text(n as nat) == seq![c]);
        }
    }
}

/// The decimal text of `n`, as `u64::to_string` gives it.
pub fn u64_text(n: u64) -> (s: Vec<char>)
    ensures
        s@ == nat_text(n as nat),
{
    let mut out: Vec<char> = Vec::new();
    push_nat_text(n, &mut out);
    out
}

/// The decimal text of `n`, as `i64::to_string` gives it.
pub fn i64_text(n: i64) -> (s: Vec<char>)
    ensures
        s@ == int_text(n as int),
{
    let mut out: Vec<char> = Vec::new();
    if n < 0 {
        out.push('-');
        let m: u64 = (-(n as i128)) as u64;
        push_nat_text(m, &mut out);
    } else {
        push_nat_text(n as u64, &mut out);
    }
    out
}

/// The value of the digits `s[start..]` when they are all digits, there is at
/// least one, and the value is at most `bound`.
fn digits_from(s: &Vec<char>, start: usize, bound: u64) -> (r: Option<u64>)
    requires
        start <= s.len(),
    ensures
        r == (if digits_within(s@.subrange(start as int, s.len() as int), bound as int) {
            Some(digits_value(s@.subrange(start as int, s.len() as int)) as u64)
        } else {
            None::<u64>
        }),
{
    let ghost full = s@.subrange(start as int, s.len() as int);
    if start == s.len() {
        return None;
    }
    let mut acc: u64 = 0;
    let mut i: usize = start;
    while i < s.len()
        invariant
            start <= i <= s.len(),
            full == s@.subrange(start as int, s.len() as int),
            all_digits(s@.subrange(start as int, i as int)),
            acc as int == digits_value(s@.subrange(start as int, i as int)),
            acc <= bound,
        decreases s.len() - i,
    {
        let c = s[i];
        let ghost before = s@.subrange(start as int, i as int);
        let ghost after = s@.subrange(start as int, i + 1);
        assert(after.drop_last() =~= before);
        assert(after.take((i - start) as int) =~= before);
        assert(full.take((i + 1 - start) as int) =~= after);
        if !('0' <= c && c <= '9') {
            proof {
                assert(full[(i - start) as int] == c);
                assert(!is_digit(c));
            }
            return None;
        }
        let d: u64 = (c as u64) - 48;
        let next: u128 = (acc as u128) * 10 + (d as u128);
        assert(all_digits(after)) by {
            assert forall|j: int| 0 <= j < after.len() implies #[trigger] is_digit(after[j]) by {
                if j < before.len() {
                    assert(after[j] == before[j]);
                }
            }
        }
        assert(next == digits_value(after));
        if next > bound as u128 {
            proof {
                if all_digits(full) {
                    lemma_digits_value_prefix(full, (i + 1 - start) as int);
                }
            }
            return None;
        }
        acc = next as u64;
        i = i + 1;
    }
    assert(s@.subrange(start as int, i as int) =~= full);
    Some(acc)
}

/// What `str::parse::<u64>` gives for the characters `s`.
pub fn parse_u64(s: &Vec<char>) -> (r: Option<u64>)
    ensures
        r == spec_parse_u64(s@),
{
    let start: usize = if s.len() > 0 && s[0] == '+' { 1 } else { 0 };
    let r = digits_from(s, start, u64::MAX);
    proof {
        if start == 1 {
            assert(s@.subrange(1, s.len() as int) =~= s@.drop_first());
        } else {
            assert(s@.subrange(0, s.len() as int) =~= s@);
        }
    }
    r
}

/// What `str::parse::<i64>` gives for the characters `s`.
pub fn parse_i64(s: &Vec<char>) -> (r: Option<i64>)
    ensures
        r == spec_parse_i64(s@),
{
    if s.len() > 0 && s[0] == '-' {
        assert(s@.subrange(1, s.len() as int) =~= s@.drop_first());
        match digits_from(s, 1, 0x8000_0000_0000_0000u64) {
            None => None,
            Some(m) => {
                proof {
                    lemma_digits_value_nonneg(s@.drop_first());
                }
                if m == 0x8000_0000_0000_0000u64 {
                    Some(i64::MIN)
                } else {
                    Some(-(m as i64))
                }
            },
        }
    } else {
        let start: usize = if s.len() > 0 && s[0] == '+' { 1 } else { 0 };
        proof {
            if start == 1 {
                assert(s@.subrange(1, s.len() as int) =~= s@.drop_first());
            } else {
                assert(s@.subrange(0, s.len() as int) =~= s@);
            }
        }
        match digits_from(s, start, i64::MAX as u64) {
            None => None,
            Some(m) => {
                proof {
                    lemma_digits_value_nonneg(s@.subrange(start as int, s.len() as int));
                }
                Some(m as i64)
            },
        }
    }
}

/// Whether `c` is a character that `padding` names.
pub fn padding_char(padding: Padding, c: char) -> (r: bool)
    ensures
        r == is_padding(padding, c),
{
    match padding {
        Padding::Nul => c == '\0',
        Padding::WhiteSpace => {
            let x: u32 = c as u32;
            (9 <= x && x <= 13) || x == 0x20 || x == 0x85 || x == 0xA0 || x == 0x1680 || (0x2000
                <= x && x <= 0x200A) || x == 0x2028 || x == 0x2029 || x == 0x202F || x == 0x205F
                || x == 0x3000
        },
    }
}

/// `s` with its leading and trailing padding characters removed.
pub fn trim_padding(s: &Vec<char>, padding: Padding) -> (r: Vec<char>)
    ensures
        r@ == trim_both(s@, padding),
{
    let n: usize = s.len();
    let mut i: usize = 0;
    assert(s@.subrange(0, n as int) =~= s@);
    while i < n && padding_char(padding, s[i])
        invariant
            0 <= i <= n == s.len(),
            trim_front(s@, padding) == trim_front(s@.subrange(i as int, n as int), padding),
        decreases n - i,
    {
        let ghost t = s@.subrange(i as int, n as int);
        assert(t.drop_first() =~= s@.subrange(i + 1, n as int));
        i = i + 1;
    }
    let ghost front = s@.subrange(i as int, n as int);
    assert(trim_front(front, padding) == front);
    let mut j: usize = n;
    while j > i && padding_char(padding, s[j - 1])
        invariant
            i <= j <= n == s.len(),
            front == s@.subrange(i as int, n as int),
            trim_back(front, padding) == trim_back(s@.subrange(i as int, j as int), padding),
        decreases j - i,
    {
        let ghost t = s@.subrange(i as int, j as int);
        assert(t.drop_last() =~= s@.subrange(i as int, j - 1));
        j = j - 1;
    }
    let ghost kept = s@.subrange(i as int, j as int);
    assert(trim_back(kept, padding) == kept);
    let mut out: Vec<char> = Vec::new();
    let mut k: usize = i;
    while k < j
        invariant
            i <= k <= j <= n == s.len(),
            out@ == s@.subrange(i as int, k as int),
        decreases j - k,
    {
        out.push(s[k]);
        assert(out@ =~= s@.subrange(i as int, k + 1));
        k = k + 1;
    }
    out
}

/// A stored timestamp text with NUL padding and then white space removed.
pub fn clean(s: &Vec<char>) -> (r: Vec<char>)
    ensures
        r@ == clean_text(s@),
{
    let without_nul = trim_padding(s, Padding::Nul);
    trim_padding(&without_nul, Padding::WhiteSpace)
}

} // verus!
