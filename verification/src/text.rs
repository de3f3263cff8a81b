//! Text: comparison, decimal numerals, and placeholder substitution.

use vstd::prelude::*;

verus! {

/// Whether two strings hold the same characters.
pub fn str_eq(a: &str, b: &str) -> (same: bool)
    ensures
        same == (a@ == b@),
{
    let n: usize = a.unicode_len();
    if n != b.unicode_len() {
        return false;
    }
    let mut i: usize = 0;
    while i < n
        invariant
            n == a@.len(),
            n == b@.len(),
            i <= n,
            forall|j: int| 0 <= j < i ==> a@[j] == b@[j],
        decreases n - i,
    {
        if a.get_char(i) != b.get_char(i) {
            return false;
        }
        i += 1;
    }
    assert(a@ =~= b@);
    true
}

/// The numeral for a single digit.
pub open spec fn digit_char(d: int) -> char {
    (48 + d) as char
}

/// The decimal numeral of `n`: most significant digit first, no leading zero.
pub open spec fn decimal(n: nat) -> Seq<char>
    decreases n,
{
    if n < 10 {
        seq![digit_char(n as int)]
    } else {
        decimal(n / 10).push(digit_char((n % 10) as int))
    }
}

/// The last `width` decimal digits of `n`, padded with zeros on the left.
pub open spec fn padded_decimal(n: nat, width: nat) -> Seq<char>
    decreases width,
{
    if width == 0 {
        Seq::empty()
    } else {
        padded_decimal(n / 10, (width - 1) as nat).push(digit_char((n % 10) as int))
    }
}

fn digit_str(d: u8) -> (s: &'static str)
    requires
        d < 10,
    ensures
        s@ == seq![digit_char(d as int)],
{
    proof {
        reveal_strlit("0");
        reveal_strlit("1");
        reveal_strlit("2");
        reveal_strlit("3");
        reveal_strlit("4");
        reveal_strlit("5");
        reveal_strlit("6");
        reveal_strlit("7");
        reveal_strlit("8");
        reveal_strlit("9");
    }
    let s: &'static str = match d {
        0 => "0",
        1 => "1",
        2 => "2",
        3 => "3",
        4 => "4",
        5 => "5",
        6 => "6",
        7 => "7",
        8 => "8",
        _ => "9",
    };
    assert(s@ =~= seq![digit_char(d as int)]);
    s
}

/// Append the decimal numeral of `n`.
pub fn append_decimal(out: &mut String, n: u128)
    ensures
        final(out)@ == old(out)@ + decimal(n as nat),
    decreases n,
{
    if n >= 10 {
        append_decimal(out, n / 10);
    }
    out.append(digit_str((n % 10) as u8));
    assert(out@ =~= old(out)@ + decimal(n as nat));
}

/// A signed decimal numeral.
pub open spec fn signed_decimal(n: int) -> Seq<char> {
    if n < 0 {
        "-"@ + decimal((-n) as nat)
    } else {
        decimal(n as nat)
    }
}

/// Append the decimal numeral of a signed number.
pub fn append_signed_decimal(out: &mut String, n: i32)
    ensures
        final(out)@ == old(out)@ + signed_decimal(n as int),
{
    if n < 0 {
        out.append("-");
        append_decimal(out, (-(n as i64)) as u128);
    } else {
        append_decimal(out, n as u128);
    }
    assert(out@ =~= old(out)@ + signed_decimal(n as int));
}

/// Append the last `width` decimal digits of `n`, zero padded.
pub fn append_padded_decimal(out: &mut String, n: u128, width: u8)
    ensures
        final(out)@ == old(out)@ + padded_decimal(n as nat, width as nat),
    decreases width,
{
    if width > 0 {
        append_padded_decimal(out, n / 10, width - 1);
        out.append(digit_str((n % 10) as u8));
    }
    assert(out@ =~= old(out)@ + padded_decimal(n as nat, width as nat));
}

/// Whether `pattern` occurs in `s` at position `i`.
pub open spec fn occurs_at(s: Seq<char>, pattern: Seq<char>, i: int) -> bool {
    &&& 0 <= i
    &&& i + pattern.len() <= s.len()
    &&& s.subrange(i, i + pattern.len()) == pattern
}

/// Whether `pattern` occurs anywhere in `s`.
pub open spec fn occurs(s: Seq<char>, pattern: Seq<char>) -> bool {
    exists|i: int| occurs_at(s, pattern, i)
}

/// `s` with every occurrence of a non-empty `pattern` replaced, taken from the
/// left without overlap.
pub open spec fn substituted(s: Seq<char>, pattern: Seq<char>, with: Seq<char>) -> Seq<char>
    decreases s.len(),
{
    if pattern.len() == 0 || s.len() == 0 {
        s
    } else if occurs_at(s, pattern, 0) {
        with + substituted(s.skip(pattern.len() as int), pattern, with)
    } else {
        seq![s[0]] + substituted(s.skip(1), pattern, with)
    }
}

fn matches_at(s: &str, pattern: &str, i: usize, s_len: usize, pattern_len: usize) -> (found: bool)
    requires
        s_len == s@.len(),
        pattern_len == pattern@.len(),
        i <= s_len,
    ensures
        found == occurs_at(s@, pattern@, i as int),
{
    if s_len - i < pattern_len {
        return false;
    }
    let mut k: usize = 0;
    while k < pattern_len
        invariant
            s_len == s@.len(),
            pattern_len == pattern@.len(),
            i + pattern_len <= s_len,
            k <= pattern_len,
            forall|j: int| 0 <= j < k ==> s@[i + j] == pattern@[j],
        decreases pattern_len - k,
    {
        if s.get_char(i + k) != pattern.get_char(k) {
            assert(s@.subrange(i as int, i + pattern_len)[k as int] == s@[i + k]);
            return false;
        }
        k += 1;
    }
    assert(s@.subrange(i as int, i + pattern_len) =~= pattern@);
    true
}

/// Whether `pattern` occurs in `s`.
pub fn contains_text(s: &str, pattern: &str) -> (found: bool)
    ensures
        found == occurs(s@, pattern@),
{
    let s_len: usize = s.unicode_len();
    let pattern_len: usize = pattern.unicode_len();
    let mut i: usize = 0;
    loop
        invariant
            s_len == s@.len(),
            pattern_len == pattern@.len(),
            i <= s_len,
            forall|j: int| 0 <= j < i ==> !occurs_at(s@, pattern@, j),
        decreases s_len - i,
    {
        if matches_at(s, pattern, i, s_len, pattern_len) {
            return true;
        }
        if i == s_len {
            assert forall|j: int| !occurs_at(s@, pattern@, j) by {}
            return false;
        }
        i += 1;
    }
}

/// Replace every occurrence of a non-empty `pattern` in `s`.
pub fn substitute(s: &str, pattern: &str, with: &str) -> (out: String)
    requires
        pattern@.len() > 0,
    ensures
        out@ == substituted(s@, pattern@, with@),
{
    let s_len: usize = s.unicode_len();
    let pattern_len: usize = pattern.unicode_len();
    let mut out: String = String::new();
    let mut i: usize = 0;
    assert(s@.skip(0) =~= s@);
    assert(out@ + substituted(s@, pattern@, with@) =~= substituted(s@, pattern@, with@));
    while i < s_len
        invariant
            s_len == s@.len(),
            pattern_len == pattern@.len(),
            pattern_len > 0,
            i <= s_len,
            substituted(s@, pattern@, with@) == out@ + substituted(
                s@.skip(i as int),
                pattern@,
                with@,
            ),
        decreases s_len - i,
    {
        let ghost rest = s@.skip(i as int);
        let found = matches_at(s, pattern, i, s_len, pattern_len);
        proof {
            if i + pattern_len <= s_len {
                assert(rest.subrange(0, pattern_len as int) =~= s@.subrange(
                    i as int,
                    i + pattern_len,
                ));
            }
            assert(found == occurs_at(rest, pattern@, 0));
        }
        if found {
            out.append(with);
            i += pattern_len;
            assert(rest.skip(pattern_len as int) =~= s@.skip(i as int));
        } else {
            out.append(s.substring_char(i, i + 1));
            assert(s@.subrange(i as int, i + 1) =~= seq![rest[0]]);
            i += 1;
            assert(rest.skip(1) =~= s@.skip(i as int));
        }
        assert(substituted(s@, pattern@, with@) =~= out@ + substituted(
            s@.skip(i as int),
            pattern@,
            with@,
        ));
    }
    assert(s@.skip(s_len as int) =~= Seq::<char>::empty());
    assert(out@ + Seq::<char>::empty() =~= out@);
    out
}

/// Where a placeholder occurs, substitution leaves what was put in its place.
pub proof fn law_substituted_text_occurs(s: Seq<char>, pattern: Seq<char>, with: Seq<char>)
    requires
        pattern.len() > 0,
        occurs(s, pattern),
    ensures
        occurs(substituted(s, pattern, with), with),
    decreases s.len(),
{
    let out = substituted(s, pattern, with);
    if occurs_at(s, pattern, 0) {
        assert(out.subrange(0, with.len() as int) =~= with);
        assert(occurs_at(out, with, 0));
    } else {
        let i = choose|i: int| occurs_at(s, pattern, i);
        let rest = s.skip(1);
        assert(rest.subrange(i - 1, i - 1 + pattern.len()) =~= pattern);
        assert(occurs_at(rest, pattern, i - 1));
        law_substituted_text_occurs(rest, pattern, with);
        let tail = substituted(rest, pattern, with);
        let k = choose|k: int| occurs_at(tail, with, k);
        assert(out.subrange(k + 1, k + 1 + with.len()) =~= tail.subrange(k, k + with.len()));
        assert(occurs_at(out, with, k + 1));
    }
}

/// Where a placeholder does not occur, substitution changes nothing.
pub proof fn law_text_without_placeholder_is_kept(
    s: Seq<char>,
    pattern: Seq<char>,
    with: Seq<char>,
)
    requires
        !occurs(s, pattern),
    ensures
        substituted(s, pattern, with) == s,
    decreases s.len(),
{
    if pattern.len() > 0 && s.len() > 0 {
        assert(!occurs_at(s, pattern, 0));
        let rest = s.skip(1);
        assert forall|i: int| !occurs_at(rest, pattern, i) by {
            if occurs_at(rest, pattern, i) {
                assert(s.subrange(i + 1, i + 1 + pattern.len()) =~= pattern);
                assert(occurs_at(s, pattern, i + 1));
            }
        }
        law_text_without_placeholder_is_kept(rest, pattern, with);
        assert(seq![s[0]] + rest =~= s);
    }
}

/// The number that a run of decimal digits stands for.
pub open spec fn digits_value(s: Seq<char>) -> nat
    decreases s.len(),
{
    if s.len() == 0 {
        0
    } else {
        (10 * digits_value(s.drop_last()) + (s.last() as int - '0' as int)) as nat
    }
}

/// Whether a text consists of decimal digits alone.
pub open spec fn all_digits(s: Seq<char>) -> bool {
    forall|i: int| 0 <= i < s.len() ==> '0' <= #[trigger] s[i] && s[i] <= '9'
}

/// A decimal numeral consists of digits, has at least one, starts with a zero only if
/// that is all there is, and reads back as the number it was made from.
pub proof fn law_numerals_read_back(n: nat)
    ensures
        all_digits(decimal(n)),
        decimal(n).len() > 0,
        decimal(n)[0] == '0' ==> decimal(n).len() == 1,
        digits_value(decimal(n)) == n,
    decreases n,
{
    if n < 10 {
        assert(decimal(n).drop_last() =~= Seq::<char>::empty());
        assert(digits_value(Seq::<char>::empty()) == 0);
    } else {
        law_numerals_read_back(n / 10);
        assert(decimal(n).drop_last() =~= decimal(n / 10));
        if decimal(n)[0] == '0' {
            assert(decimal(n / 10)[0] == '0');
            assert(decimal(n / 10).drop_last() =~= Seq::<char>::empty());
            assert(decimal(n / 10).last() == '0');
            assert(digits_value(Seq::<char>::empty()) == 0);
            assert(digits_value(decimal(n / 10)) == 0);
        }
    }
}

/// A padded numeral has exactly the width asked for, consists of digits, and reads
/// back as the number's last digits.
pub proof fn law_padded_numerals_read_back(n: nat, width: nat)
    ensures
        all_digits(padded_decimal(n, width)),
        padded_decimal(n, width).len() == width,
        digits_value(padded_decimal(n, width)) == n as int % vstd::arithmetic::power::pow(
            10,
            width,
        ),
    decreases width,
{
    vstd::arithmetic::power::lemma_pow0(10);
    if width > 0 {
        let rest = vstd::arithmetic::power::pow(10, (width - 1) as nat);
        law_padded_numerals_read_back(n / 10, (width - 1) as nat);
        assert(padded_decimal(n, width).drop_last() =~= padded_decimal(
            n / 10,
            (width - 1) as nat,
        ));
        vstd::arithmetic::power::lemma_pow_positive(10, (width - 1) as nat);
        vstd::arithmetic::div_mod::lemma_mod_breakdown(n as int, 10, rest);
        assert(vstd::arithmetic::power::pow(10, width) == 10 * rest) by {
            reveal(vstd::arithmetic::power::pow);
        }
    }
}

/// A signed numeral is the numeral of the absolute value, with a minus sign in front
/// of it exactly if the number is negative.
pub proof fn law_signed_numerals_read_back(n: int)
    ensures
        n >= 0 ==> all_digits(signed_decimal(n)) && digits_value(signed_decimal(n)) == n,
        n < 0 ==> signed_decimal(n)[0] == '-' && all_digits(signed_decimal(n).skip(1))
            && digits_value(signed_decimal(n).skip(1)) == -n,
{
    reveal_strlit("-");
    if n >= 0 {
        law_numerals_read_back(n as nat);
    } else {
        law_numerals_read_back((-n) as nat);
        assert(signed_decimal(n).skip(1) =~= decimal((-n) as nat));
    }
}

/// Substitution replaces the first occurrence of the placeholder, keeps what is
/// before it, and goes on behind it; so it replaces every occurrence.
pub proof fn law_occurrences_are_replaced_in_turn(
    s: Seq<char>,
    pattern: Seq<char>,
    with: Seq<char>,
    i: int,
)
    requires
        pattern.len() > 0,
        0 <= i,
        i + pattern.len() <= s.len(),
        s.subrange(i, i + pattern.len()) == pattern,
        forall|j: int|
            0 <= j < i ==> #[trigger] s.subrange(j, j + pattern.len()) != pattern,
    ensures
        substituted(s, pattern, with) == s.take(i) + with + substituted(
            s.skip(i + pattern.len()),
            pattern,
            with,
        ),
    decreases i,
{
    if i == 0 {
        assert(occurs_at(s, pattern, 0));
        assert(s.take(0) + with =~= with);
    } else {
        assert(s.subrange(0, 0int + pattern.len()) != pattern);
        let rest = s.skip(1);
        assert(rest.subrange(i - 1, i - 1 + pattern.len()) =~= pattern);
        assert forall|j: int| 0 <= j < i - 1 implies #[trigger] rest.subrange(
            j,
            j + pattern.len(),
        ) != pattern by {
            assert(rest.subrange(j, j + pattern.len()) =~= s.subrange(
                j + 1,
                j + 1 + pattern.len(),
            ));
        }
        law_occurrences_are_replaced_in_turn(rest, pattern, with, i - 1);
        assert(rest.skip(i - 1 + pattern.len()) =~= s.skip(i + pattern.len()));
        assert(seq![s[0]] + rest.take(i - 1) =~= s.take(i));
        assert(seq![s[0]] + (rest.take(i - 1) + with + substituted(
            s.skip(i + pattern.len()),
            pattern,
            with,
        )) =~= s.take(i) + with + substituted(s.skip(i + pattern.len()), pattern, with));
    }
}

} // verus!
