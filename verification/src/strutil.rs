//! Verified building blocks for the small amount of text handling the
//! crate needs: decimal rendering, substring search, and trimming.

use vstd::prelude::*;

verus! {

/// The character for one decimal digit.
pub open spec fn digit_char(d: nat) -> char {
    if d == 0 {
        '0'
    } else if d == 1 {
        '1'
    } else if d == 2 {
        '2'
    } else if d == 3 {
        '3'
    } else if d == 4 {
        '4'
    } else if d == 5 {
        '5'
    } else if d == 6 {
        '6'
    } else if d == 7 {
        '7'
    } else if d == 8 {
        '8'
    } else {
        '9'
    }
}

/// The decimal rendering of `n`, without leading zeroes.
pub open spec fn spec_dec(n: nat) -> Seq<char>
    decreases n,
{
    if n < 10 {
        seq![digit_char(n)]
    } else {
        spec_dec(n / 10) + seq![digit_char(n % 10)]
    }
}

/// Two-digit zero-padded rendering of `n` (for `n < 100`).
pub open spec fn spec_pad2(n: nat) -> Seq<char> {
    seq![digit_char(n / 10 % 10), digit_char(n % 10)]
}

/// Four-digit zero-padded rendering of `n` (for `n < 10000`).
pub open spec fn spec_pad4(n: nat) -> Seq<char> {
    seq![
        digit_char(n / 1000 % 10),
        digit_char(n / 100 % 10),
        digit_char(n / 10 % 10),
        digit_char(n % 10),
    ]
}

/// The one-character string for a decimal digit.
pub fn digit_str(d: u32) -> (r: &'static str)
    requires
        d < 10,
    ensures
        r@ == seq![digit_char(d as nat)],
{
    if d == 0 {
        proof {
            reveal_strlit("0");
            assert("0"@ =~= seq![digit_char(0)]);
        }
        "0"
    } else if d == 1 {
        proof {
            reveal_strlit("1");
            assert("1"@ =~= seq![digit_char(1)]);
        }
        "1"
    } else if d == 2 {
        proof {
            reveal_strlit("2");
            assert("2"@ =~= seq![digit_char(2)]);
        }
        "2"
    } else if d == 3 {
        proof {
            reveal_strlit("3");
            assert("3"@ =~= seq![digit_char(3)]);
        }
        "3"
    } else if d == 4 {
        proof {
            reveal_strlit("4");
            assert("4"@ =~= seq![digit_char(4)]);
        }
        "4"
    } else if d == 5 {
        proof {
            reveal_strlit("5");
            assert("5"@ =~= seq![digit_char(5)]);
        }
        "5"
    } else if d == 6 {
        proof {
            reveal_strlit("6");
            assert("6"@ =~= seq![digit_char(6)]);
        }
        "6"
    } else if d == 7 {
        proof {
            reveal_strlit("7");
            assert("7"@ =~= seq![digit_char(7)]);
        }
        "7"
    } else if d == 8 {
        proof {
            reveal_strlit("8");
            assert("8"@ =~= seq![digit_char(8)]);
        }
        "8"
    } else {
        proof {
            reveal_strlit("9");
            assert("9"@ =~= seq![digit_char(9)]);
        }
        "9"
    }
}

/// The digit characters of `ds`, highest digit first, where `ds` holds
/// the digits of a number lowest first.
pub open spec fn chars_of_rev(ds: Seq<u32>) -> Seq<char> {
    Seq::new(ds.len(), |i: int| digit_char(ds[ds.len() - 1 - i] as nat))
}

/// Appends the decimal rendering of `n` to `out`.
pub fn append_u32(out: &mut String, n: u32)
    ensures
        final(out)@ == old(out)@ + spec_dec(n as nat),
{
    let mut digits: Vec<u32> = Vec::new();
    let mut m: u32 = n;
    while m >= 10
        invariant
            spec_dec(n as nat) == spec_dec(m as nat) + chars_of_rev(digits@),
            forall|k: int| 0 <= k < digits@.len() ==> digits@[k] < 10,
        decreases m,
    {
        let d: u32 = m % 10;
        proof {
            assert(chars_of_rev(digits@.push(d)) =~= seq![digit_char(d as nat)] + chars_of_rev(
                digits@,
            ));
            assert(spec_dec(m as nat) == spec_dec((m / 10) as nat) + seq![
                digit_char((m % 10) as nat),
            ]);
            assert(spec_dec((m / 10) as nat) + chars_of_rev(digits@.push(d)) =~= spec_dec(m as nat)
                + chars_of_rev(digits@));
        }
        digits.push(d);
        m = m / 10;
    }
    out.append(digit_str(m));
    let ghost mid = out@;
    proof {
        assert(mid == old(out)@ + spec_dec(n as nat).subrange(
            0,
            spec_dec(n as nat).len() - digits@.len(),
        )) by {
            assert(spec_dec(m as nat) =~= spec_dec(n as nat).subrange(
                0,
                spec_dec(n as nat).len() - digits@.len(),
            ));
        }
    }
    let mut i: usize = digits.len();
    while i > 0
        invariant
            i <= digits.len(),
            spec_dec(n as nat) == spec_dec(m as nat) + chars_of_rev(digits@),
            forall|k: int| 0 <= k < digits@.len() ==> digits@[k] < 10,
            out@ == old(out)@ + spec_dec(n as nat).subrange(
                0,
                spec_dec(n as nat).len() - i,
            ),
        decreases i,
    {
        i = i - 1;
        let d = digits[i];
        proof {
            assert(digit_char(d as nat) == spec_dec(n as nat)[spec_dec(n as nat).len() - 1
                - i]) by {
                assert(chars_of_rev(digits@)[digits@.len() - 1 - i] == digit_char(d as nat));
                assert(spec_dec(n as nat)[spec_dec(m as nat).len() + digits@.len() - 1 - i]
                    == chars_of_rev(digits@)[digits@.len() - 1 - i]);
            }
        }
        out.append(digit_str(d));
        proof {
            assert(out@ =~= old(out)@ + spec_dec(n as nat).subrange(
                0,
                spec_dec(n as nat).len() - i,
            ));
        }
    }
    proof {
        assert(spec_dec(n as nat).subrange(0, spec_dec(n as nat).len() as int) =~= spec_dec(
            n as nat,
        ));
    }
}

/// Appends the two-digit zero-padded rendering of `n` to `out`.
pub fn append_pad2(out: &mut String, n: u32)
    requires
        n < 100,
    ensures
        final(out)@ == old(out)@ + spec_pad2(n as nat),
{
    out.append(digit_str(n / 10 % 10));
    out.append(digit_str(n % 10));
    proof {
        assert(out@ =~= old(out)@ + spec_pad2(n as nat));
    }
}

/// Appends the four-digit zero-padded rendering of `n` to `out`.
pub fn append_pad4(out: &mut String, n: u32)
    requires
        n < 10000,
    ensures
        final(out)@ == old(out)@ + spec_pad4(n as nat),
{
    out.append(digit_str(n / 1000 % 10));
    out.append(digit_str(n / 100 % 10));
    out.append(digit_str(n / 10 % 10));
    out.append(digit_str(n % 10));
    proof {
        assert(out@ =~= old(out)@ + spec_pad4(n as nat));
    }
}

/// The decimal rendering of `n` as an owned string.
pub fn u32_to_string(n: u32) -> (r: String)
    ensures
        r@ == spec_dec(n as nat),
{
    let mut s = String::new();
    append_u32(&mut s, n);
    proof {
        assert(s@ =~= spec_dec(n as nat));
    }
    s
}

/// True of the ten decimal digit characters.
pub open spec fn is_digit_char(c: char) -> bool {
    exists|d: nat| d < 10 && c == #[trigger] digit_char(d)
}

/// Distinct digits have distinct characters.
pub proof fn lemma_digit_char_injective(a: nat, b: nat)
    requires
        a < 10,
        b < 10,
        digit_char(a) == digit_char(b),
    ensures
        a == b,
{
}

/// A decimal rendering is never empty.
pub proof fn lemma_spec_dec_len(n: nat)
    ensures
        spec_dec(n).len() >= 1,
    decreases n,
{
    if n >= 10 {
        lemma_spec_dec_len(n / 10);
    }
}

/// Every character of a decimal rendering is a digit character.
pub proof fn lemma_spec_dec_digits(n: nat)
    ensures
        forall|i: int| 0 <= i < spec_dec(n).len() ==> is_digit_char(#[trigger] spec_dec(n)[i]),
    decreases n,
{
    if n < 10 {
        assert(spec_dec(n)[0] == digit_char(n));
    } else {
        lemma_spec_dec_digits(n / 10);
        assert(spec_dec(n).last() == digit_char(n % 10));
        assert(forall|i: int|
            0 <= i < spec_dec(n / 10).len() ==> #[trigger] spec_dec(n)[i] == spec_dec(n / 10)[i]);
    }
}

/// Distinct numbers have distinct decimal renderings.
pub proof fn lemma_spec_dec_injective(a: nat, b: nat)
    requires
        spec_dec(a) == spec_dec(b),
    ensures
        a == b,
    decreases a,
{
    lemma_spec_dec_len(a);
    lemma_spec_dec_len(b);
    if a < 10 && b < 10 {
        assert(spec_dec(a)[0] == digit_char(a) && spec_dec(b)[0] == digit_char(b));
    } else if a >= 10 && b >= 10 {
        assert(spec_dec(a).last() == digit_char(a % 10));
        assert(spec_dec(b).last() == digit_char(b % 10));
        assert(spec_dec(a / 10) =~= spec_dec(b / 10)) by {
            assert(spec_dec(a / 10).len() == spec_dec(a).len() - 1);
            assert(spec_dec(b / 10).len() == spec_dec(b).len() - 1);
            assert(forall|i: int|
                0 <= i < spec_dec(a / 10).len() ==> #[trigger] spec_dec(a / 10)[i] == spec_dec(
                    a,
                )[i]);
            assert(forall|i: int|
                0 <= i < spec_dec(b / 10).len() ==> #[trigger] spec_dec(b / 10)[i] == spec_dec(
                    b,
                )[i]);
        }
        lemma_spec_dec_injective(a / 10, b / 10);
    } else if a < 10 {
        lemma_spec_dec_len(b / 10);
        assert(spec_dec(b).len() >= 2);
    } else {
        lemma_spec_dec_len(a / 10);
        assert(spec_dec(a).len() >= 2);
    }
}

/// True when `needle` occurs contiguously inside `hay`.
pub open spec fn spec_contains(hay: Seq<char>, needle: Seq<char>) -> bool {
    exists|i: int|
        0 <= i && i + needle.len() <= hay.len() && #[trigger] hay.subrange(i, i + needle.len())
            == needle
}

/// Substring search over characters.
pub fn contains_str(hay: &str, needle: &str) -> (r: bool)
    ensures
        r == spec_contains(hay@, needle@),
{
    let hl = hay.unicode_len();
    let nl = needle.unicode_len();
    if nl > hl {
        return false;
    }
    let mut i: usize = 0;
    while i <= hl - nl
        invariant
            nl == needle@.len(),
            hl == hay@.len(),
            nl <= hl,
            i <= hl - nl + 1,
            forall|k: int|
                0 <= k < i ==> #[trigger] hay@.subrange(k, k + needle@.len()) != needle@,
        decreases hl + 1 - nl - i,
    {
        let mut j: usize = 0;
        let mut ok = true;
        while j < nl
            invariant_except_break
                ok,
            invariant
                nl == needle@.len(),
                hl == hay@.len(),
                i + nl <= hl,
                j <= nl,
                forall|k: int| 0 <= k < j ==> hay@[i + k] == needle@[k],
            ensures
                j <= nl,
                forall|k: int| 0 <= k < j ==> hay@[i + k] == needle@[k],
                ok ==> j == nl,
                !ok ==> j < nl && hay@[i + j] != needle@[j as int],
            decreases nl - j,
        {
            if hay.get_char(i + j) != needle.get_char(j) {
                ok = false;
                break;
            }
            j = j + 1;
        }
        if ok {
            proof {
                assert(hay@.subrange(i as int, i + needle@.len()) =~= needle@);
            }
            return true;
        }
        proof {
            assert forall|k: int| 0 <= k < i + 1 implies #[trigger] hay@.subrange(
                k,
                k + needle@.len(),
            ) != needle@ by {
                if k == i {
                    assert(hay@.subrange(i as int, i + needle@.len())[j as int] == hay@[i + j]);
                }
            }
        }
        i = i + 1;
    }
    proof {
        assert forall|k: int|
            0 <= k && k + needle@.len() <= hay@.len() implies #[trigger] hay@.subrange(
            k,
            k + needle@.len(),
        ) != needle@ by {
            assert(k < i);
        }
    }
    false
}

/// The numeric value of one decimal digit character.
pub open spec fn spec_digit_val(c: char) -> Option<nat> {
    if c == '0' {
        Some(0 as nat)
    } else if c == '1' {
        Some(1 as nat)
    } else if c == '2' {
        Some(2 as nat)
    } else if c == '3' {
        Some(3 as nat)
    } else if c == '4' {
        Some(4 as nat)
    } else if c == '5' {
        Some(5 as nat)
    } else if c == '6' {
        Some(6 as nat)
    } else if c == '7' {
        Some(7 as nat)
    } else if c == '8' {
        Some(8 as nat)
    } else if c == '9' {
        Some(9 as nat)
    } else {
        None
    }
}

/// The numeric value of a non-empty run of decimal digits; anything
/// else has none.
pub open spec fn spec_digits_val(s: Seq<char>) -> Option<nat>
    decreases s.len(),
{
    if s.len() == 0 {
        None
    } else if s.len() == 1 {
        spec_digit_val(s[0])
    } else {
        match (spec_digits_val(s.drop_last()), spec_digit_val(s.last())) {
            (Some(v), Some(d)) => Some(v * 10 + d),
            _ => None,
        }
    }
}

/// What `str::parse::<u32>` accepts: an optional leading plus sign,
/// then decimal digits whose value fits.
pub open spec fn spec_parse_u32(s: Seq<char>) -> Option<u32> {
    let body = if s.len() > 0 && s[0] == '+' {
        s.drop_first()
    } else {
        s
    };
    match spec_digits_val(body) {
        Some(v) => if v <= u32::MAX {
            Some(v as u32)
        } else {
            None
        },
        None => None,
    }
}

/// A longer digit run never has a smaller value: every non-empty prefix
/// of a valued digit run has a value, at most the whole run's.
proof fn lemma_digits_prefix(t: Seq<char>, k: int)
    requires
        1 <= k <= t.len(),
        spec_digits_val(t) is Some,
    ensures
        spec_digits_val(t.subrange(0, k)) matches Some(vk) && vk <= spec_digits_val(t)->0,
    decreases t.len() - k,
{
    if k == t.len() {
        assert(t.subrange(0, k) =~= t);
    } else {
        assert(t.len() > 1);
        assert(spec_digits_val(t.drop_last()) is Some);
        assert(t.drop_last().subrange(0, k) =~= t.subrange(0, k));
        lemma_digits_prefix(t.drop_last(), k);
    }
}

/// The numeric value of one decimal digit character.
fn digit_val(c: char) -> (r: Option<u32>)
    ensures
        match r {
            Some(d) => spec_digit_val(c) == Some(d as nat),
            None => spec_digit_val(c) is None,
        },
{
    if c == '0' {
        Some(0)
    } else if c == '1' {
        Some(1)
    } else if c == '2' {
        Some(2)
    } else if c == '3' {
        Some(3)
    } else if c == '4' {
        Some(4)
    } else if c == '5' {
        Some(5)
    } else if c == '6' {
        Some(6)
    } else if c == '7' {
        Some(7)
    } else if c == '8' {
        Some(8)
    } else if c == '9' {
        Some(9)
    } else {
        None
    }
}

/// Parses a decimal number, with an optional leading plus sign, the way
/// `str::parse::<u32>` reads it.
pub fn parse_u32(s: &str) -> (r: Option<u32>)
    ensures
        r == spec_parse_u32(s@),
{
    let n = s.unicode_len();
    let mut i: usize = 0;
    if n > 0 && s.get_char(0) == '+' {
        i = 1;
    }
    let ghost body = if s@.len() > 0 && s@[0] == '+' {
        s@.drop_first()
    } else {
        s@
    };
    proof {
        assert(body =~= s@.subrange(i as int, n as int));
    }
    if i >= n {
        return None;
    }
    let start = i;
    let mut acc: u32 = 0;
    let mut j: usize = start;
    while j < n
        invariant
            n == s@.len(),
            start <= j <= n,
            start < n,
            body == s@.subrange(start as int, n as int),
            body == (if s@.len() > 0 && s@[0] == '+' {
                s@.drop_first()
            } else {
                s@
            }),
            j > start ==> spec_digits_val(s@.subrange(start as int, j as int)) == Some(
                acc as nat,
            ),
            j == start ==> acc == 0,
        decreases n - j,
    {
        let c = s.get_char(j);
        let d = match digit_val(c) {
            Some(d) => d,
            None => {
                proof {
                    lemma_digits_bad_char(body, j - start);
                }
                return None;
            },
        };
        let next = match acc.checked_mul(10) {
            Some(m) => m.checked_add(d),
            None => None,
        };
        let acc2 = match next {
            Some(v) => v,
            None => {
                proof {
                    let pre1 = s@.subrange(start as int, j + 1);
                    assert(pre1.drop_last() =~= s@.subrange(start as int, j as int));
                    assert(pre1.last() == s@[j as int]);
                    if j == start {
                        assert(pre1.len() == 1 && pre1[0] == s@[j as int]);
                    }
                    assert(spec_digits_val(pre1) matches Some(v1) && v1 > u32::MAX);
                    if spec_digits_val(body) is Some {
                        lemma_digits_prefix(body, j + 1 - start);
                        assert(body.subrange(0, j + 1 - start) =~= pre1);
                    }
                }
                return None;
            },
        };
        proof {
            let pre1 = s@.subrange(start as int, j + 1);
            assert(pre1.drop_last() =~= s@.subrange(start as int, j as int));
            assert(pre1.last() == s@[j as int]);
            if j == start {
                assert(pre1.len() == 1 && pre1[0] == s@[j as int]);
            }
            assert(spec_digits_val(pre1) == Some(acc2 as nat));
        }
        acc = acc2;
        j = j + 1;
    }
    proof {
        assert(s@.subrange(start as int, n as int) == body);
    }
    Some(acc)
}

/// A run holding a non-digit has no value.
proof fn lemma_digits_bad_char(t: Seq<char>, k: int)
    requires
        0 <= k < t.len(),
        spec_digit_val(t[k]) is None,
    ensures
        spec_digits_val(t) is None,
    decreases t.len(),
{
    if t.len() > 1 && k < t.len() - 1 {
        assert(t.drop_last()[k] == t[k]);
        lemma_digits_bad_char(t.drop_last(), k);
    }
}

/// Character-by-character string equality.
pub fn str_eq(a: &str, b: &str) -> (r: bool)
    ensures
        r == (a@ == b@),
{
    let al = a.unicode_len();
    let bl = b.unicode_len();
    if al != bl {
        return false;
    }
    let mut i: usize = 0;
    while i < al
        invariant
            al == a@.len(),
            bl == b@.len(),
            al == bl,
            i <= al,
            forall|k: int| 0 <= k < i ==> a@[k] == b@[k],
        decreases al - i,
    {
        if a.get_char(i) != b.get_char(i) {
            return false;
        }
        i = i + 1;
    }
    proof {
        assert(a@ =~= b@);
    }
    true
}

/// `s` without its trailing `/` characters.
pub open spec fn spec_trim_end_slash(s: Seq<char>) -> Seq<char>
    decreases s.len(),
{
    if s.len() > 0 && s.last() == '/' {
        spec_trim_end_slash(s.drop_last())
    } else {
        s
    }
}

/// Removes every trailing `/` character.
pub fn trim_end_slashes(s: &str) -> (r: String)
    ensures
        r@ == spec_trim_end_slash(s@),
{
    let n = s.unicode_len();
    proof {
        assert(s@.subrange(0, n as int) =~= s@);
    }
    let mut end: usize = n;
    while end > 0
        invariant
            end <= n,
            n == s@.len(),
            spec_trim_end_slash(s@) == spec_trim_end_slash(s@.subrange(0, end as int)),
        ensures
            end <= n,
            spec_trim_end_slash(s@) == spec_trim_end_slash(s@.subrange(0, end as int)),
            end == 0 || s@[end - 1] != '/',
        decreases end,
    {
        if s.get_char(end - 1) != '/' {
            break;
        }
        proof {
            assert(s@.subrange(0, end as int).drop_last() =~= s@.subrange(0, end - 1));
            assert(s@.subrange(0, end as int).last() == s@[end - 1]);
        }
        end = end - 1;
    }
    proof {
        assert(spec_trim_end_slash(s@.subrange(0, end as int)) == s@.subrange(0, end as int));
        if end == n {
            assert(s@.subrange(0, end as int) =~= s@);
        }
    }
    s.substring_char(0, end).to_owned()
}

/// What `str::to_lowercase` returns; the result depends on the
/// characters of the input alone.
pub uninterp spec fn lower_of(s: Seq<char>) -> Seq<char>;

/// Relies on `str::to_lowercase` from std: the lowercase equivalent of
/// the input, a pure function of its characters; an empty input gives an
/// empty result.
#[verifier::external_body]
pub fn lowercase(s: &str) -> (r: String)
    ensures
        r@ == lower_of(s@),
        s@.len() == 0 ==> r@.len() == 0,
{
    s.to_lowercase()
}

} // verus!
