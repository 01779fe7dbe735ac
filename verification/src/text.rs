//! Characters and strings: the few text operations the library is built on.

use vstd::prelude::*;

verus! {

/// `String::push` appends one character to the end of the string.
pub assume_specification[ String::push ](s: &mut String, c: char)
    ensures
        final(s)@ == old(s)@.push(c),
;

/// The characters of a string, in order.
pub fn chars_of(s: &str) -> (chars: Vec<char>)
    ensures
        chars@ == s@,
{
    let mut chars: Vec<char> = Vec::new();
    for c in it: s.chars()
        invariant
            chars@ == s@.take(it.index() as int),
            it.seq() == s@,
    {
        chars.push(c);
        assert(s@.take(it.index() as int).push(c) =~= s@.take(it.index() + 1));
    }
    assert(s@.take(s@.len() as int) =~= s@);
    chars
}

/// The string made of the given characters.
pub fn string_of(chars: &[char]) -> (s: String)
    ensures
        s@ == chars@,
{
    let mut s = String::new();
    let mut i: usize = 0;
    while i < chars.len()
        invariant
            i <= chars.len(),
            s@ == chars@.take(i as int),
        decreases chars.len() - i,
    {
        s.push(chars[i]);
        i += 1;
        assert(chars@.take(i - 1).push(chars@[i - 1]) =~= chars@.take(i as int));
    }
    assert(chars@.take(chars@.len() as int) =~= chars@);
    s
}

/// Whether two strings hold the same characters.
pub fn same_text(a: &str, b: &str) -> (same: bool)
    ensures
        same == (a@ == b@),
{
    let left = chars_of(a);
    let right = chars_of(b);
    if left.len() != right.len() {
        return false;
    }
    let mut i: usize = 0;
    while i < left.len()
        invariant
            i <= left.len(),
            left.len() == right.len(),
            left@ == a@,
            right@ == b@,
            forall|k: int| 0 <= k < i ==> left@[k] == right@[k],
        decreases left.len() - i,
    {
        if left[i] != right[i] {
            assert(a@[i as int] != b@[i as int]);
            return false;
        }
        i += 1;
    }
    assert(a@ =~= b@);
    true
}

/// Whether `c` has the Unicode property `White_Space`.
pub open spec fn white_space(c: char) -> bool {
    ||| '\u{9}' <= c <= '\u{d}'
    ||| c == ' '
    ||| c == '\u{85}'
    ||| c == '\u{a0}'
    ||| c == '\u{1680}'
    ||| '\u{2000}' <= c <= '\u{200a}'
    ||| c == '\u{2028}'
    ||| c == '\u{2029}'
    ||| c == '\u{202f}'
    ||| c == '\u{205f}'
    ||| c == '\u{3000}'
}

/// Whether `c` is white space.
pub fn is_white_space(c: char) -> (yes: bool)
    ensures
        yes == white_space(c),
{
    ('\u{9}' <= c && c <= '\u{d}') || c == ' ' || c == '\u{85}' || c == '\u{a0}' || c == '\u{1680}' || (
    '\u{2000}' <= c && c <= '\u{200a}') || c == '\u{2028}' || c == '\u{2029}' || c == '\u{202f}' || c
        == '\u{205f}' || c == '\u{3000}'
}

/// `s` without the white space it begins with.
pub open spec fn trimmed_start(s: Seq<char>) -> Seq<char>
    decreases s.len(),
{
    if s.len() > 0 && white_space(s[0]) {
        trimmed_start(s.skip(1))
    } else {
        s
    }
}

/// `s` without the white space it ends with.
pub open spec fn trimmed_end(s: Seq<char>) -> Seq<char>
    decreases s.len(),
{
    if s.len() > 0 && white_space(s.last()) {
        trimmed_end(s.drop_last())
    } else {
        s
    }
}

/// `s` without the white space at both its ends.
pub open spec fn trimmed(s: Seq<char>) -> Seq<char> {
    trimmed_end(trimmed_start(s))
}

/// `s` without the white space at both its ends.
pub fn trim(s: &str) -> (result: String)
    ensures
        result@ == trimmed(s@),
{
    let chars = chars_of(s);
    let mut from: usize = 0;
    assert(chars@.skip(0) =~= s@);
    while from < chars.len() && is_white_space(chars[from])
        invariant
            from <= chars.len(),
            trimmed_start(s@) == trimmed_start(chars@.skip(from as int)),
        decreases chars.len() - from,
    {
        assert(chars@.skip(from as int).skip(1) =~= chars@.skip(from + 1));
        from += 1;
    }
    let mut to: usize = chars.len();
    assert(chars@.subrange(from as int, to as int) =~= chars@.skip(from as int));
    while to > from && is_white_space(chars[to - 1])
        invariant
            from <= to <= chars.len(),
            trimmed(s@) == trimmed_end(chars@.subrange(from as int, to as int)),
        decreases to,
    {
        assert(chars@.subrange(from as int, to as int).drop_last() =~= chars@.subrange(
            from as int,
            to - 1,
        ));
        to -= 1;
    }
    let mut result = String::new();
    let mut i: usize = from;
    while i < to
        invariant
            from <= i <= to <= chars.len(),
            result@ == chars@.subrange(from as int, i as int),
        decreases to - i,
    {
        result.push(chars[i]);
        i += 1;
        assert(chars@.subrange(from as int, i - 1).push(chars@[i - 1]) =~= chars@.subrange(
            from as int,
            i as int,
        ));
    }
    result
}

/// Whether `s` is empty or holds white space alone.
pub open spec fn blank(s: Seq<char>) -> bool {
    forall|i: int| 0 <= i < s.len() ==> white_space(#[trigger] s[i])
}

/// Exactly the blank texts trim to nothing.
pub proof fn law_blank_trims_to_nothing(s: Seq<char>)
    ensures
        trimmed(s).len() == 0 <==> blank(s),
    decreases s.len(),
{
    if s.len() > 0 && white_space(s[0]) {
        law_blank_trims_to_nothing(s.skip(1));
        assert(blank(s.skip(1)) ==> blank(s)) by {
            assert forall|i: int| blank(s.skip(1)) && 0 <= i < s.len() implies white_space(
                #[trigger] s[i],
            ) by {
                if i > 0 {
                    assert(white_space(s.skip(1)[i - 1]));
                }
            }
        }
        assert(blank(s) ==> blank(s.skip(1))) by {
            assert forall|i: int| blank(s) && 0 <= i < s.skip(1).len() implies white_space(
                #[trigger] s.skip(1)[i],
            ) by {
                assert(white_space(s[i + 1]));
            }
        }
    } else if s.len() > 0 {
        lemma_trimmed_end_keeps_start(s);
    }
}

/// Trimming the end leaves a first character that is no white space.
proof fn lemma_trimmed_end_keeps_start(s: Seq<char>)
    requires
        s.len() > 0,
        !white_space(s[0]),
    ensures
        trimmed_end(s).len() > 0,
        trimmed_end(s)[0] == s[0],
    decreases s.len(),
{
    if white_space(s.last()) {
        assert(s.drop_last()[0] == s[0]);
        lemma_trimmed_end_keeps_start(s.drop_last());
    }
}

/// A trimmed text neither begins nor ends with white space.
pub proof fn law_trimmed_ends(s: Seq<char>)
    ensures
        trimmed(s).len() > 0 ==> !white_space(trimmed(s)[0]) && !white_space(trimmed(s).last()),
        trimmed(trimmed(s)) == trimmed(s),
{
    lemma_trimmed_start_end(s);
    lemma_trimmed_end_end(trimmed_start(s));
    if trimmed_start(s).len() > 0 {
        lemma_trimmed_end_keeps_start(trimmed_start(s));
    }
}

proof fn lemma_trimmed_start_end(s: Seq<char>)
    ensures
        trimmed_start(s).len() > 0 ==> !white_space(trimmed_start(s)[0]),
    decreases s.len(),
{
    if s.len() > 0 && white_space(s[0]) {
        lemma_trimmed_start_end(s.skip(1));
    }
}

proof fn lemma_trimmed_end_end(s: Seq<char>)
    ensures
        trimmed_end(s).len() > 0 ==> !white_space(trimmed_end(s).last()),
    decreases s.len(),
{
    if s.len() > 0 && white_space(s.last()) {
        lemma_trimmed_end_end(s.drop_last());
    }
}

/// The digit of value `d`: `0` to `9`, then `a` to `f`.
pub open spec fn digit(d: int) -> char {
    if d < 10 {
        ('0' as int + d) as char
    } else {
        ('a' as int + (d - 10)) as char
    }
}

/// `n` written in the given base, without leading zeros.
pub open spec fn number(n: nat, base: nat) -> Seq<char>
    decreases n,
{
    if base < 2 || n < base {
        seq![digit(n as int)]
    } else {
        proof {
            assert(n / base < n) by (nonlinear_arith)
                requires
                    n >= base,
                    base >= 2,
            ;
        }
        number(n / base, base).push(digit((n % base) as int))
    }
}

/// `n` written in decimal.
pub open spec fn decimal(n: nat) -> Seq<char> {
    number(n, 10)
}

/// `n` written in the given base.
pub fn number_text(n: u64, base: u64) -> (text: String)
    requires
        2 <= base <= 16,
    ensures
        text@ == number(n as nat, base as nat),
    decreases n,
{
    let low: u64 = n % base;
    let c: char = if low < 10 {
        (48u8 + low as u8) as char
    } else {
        (97u8 + (low - 10) as u8) as char
    };
    assert(c == digit(low as int));
    if n < base {
        let mut text = String::new();
        text.push(c);
        assert(low == n) by {
            vstd::arithmetic::div_mod::lemma_small_mod(n as nat, base as nat);
        }
        assert(text@ =~= seq![digit(n as int)]);
        text
    } else {
        assert(n / base < n) by (nonlinear_arith)
            requires
                n >= base,
                base >= 2,
        ;
        let mut text = number_text(n / base, base);
        text.push(c);
        text
    }
}

/// The parts in order, with `separator` between each two.
pub open spec fn joined(parts: Seq<Seq<char>>, separator: Seq<char>) -> Seq<char>
    decreases parts.len(),
{
    if parts.len() == 0 {
        Seq::empty()
    } else if parts.len() == 1 {
        parts[0]
    } else {
        joined(parts.drop_last(), separator) + separator + parts.last()
    }
}

/// The parts in order, with `separator` between each two.
pub fn join(parts: &Vec<String>, separator: &str) -> (text: String)
    ensures
        text@ == joined(parts.deep_view(), separator@),
{
    let mut text = String::new();
    let mut i: usize = 0;
    let ghost views = parts.deep_view();
    assert(views.take(0) =~= Seq::empty());
    while i < parts.len()
        invariant
            i <= parts.len(),
            views == parts.deep_view(),
            text@ == joined(views.take(i as int), separator@),
        decreases parts.len() - i,
    {
        assert(views.take(i + 1).drop_last() =~= views.take(i as int));
        assert(views.take(i + 1).last() == parts@[i as int]@);
        if i > 0 {
            text.append(separator);
        }
        text.append(parts[i].as_str());
        i += 1;
        if i == 1 {
            assert(text@ =~= views.take(1)[0]);
        }
    }
    assert(views.take(views.len() as int) =~= views);
    text
}

/// A number has at least one digit, and all its characters are among `0` to `9` and `a` to `f`.
pub proof fn law_number_digits(n: nat, base: nat)
    requires
        2 <= base <= 16,
    ensures
        number(n, base).len() > 0,
        forall|i: int|
            0 <= i < number(n, base).len() ==> ('0' <= #[trigger] number(n, base)[i] <= '9' || 'a'
                <= number(n, base)[i] <= 'f'),
    decreases n,
{
    if n >= base {
        assert(n / base < n) by (nonlinear_arith)
            requires
                n >= base,
                base >= 2,
        ;
        law_number_digits(n / base, base);
        vstd::arithmetic::div_mod::lemma_mod_bound(n as int, base as int);
    }
}

/// Two numbers are written alike only if they are equal.
pub proof fn law_number_is_injective(m: nat, n: nat, base: nat)
    requires
        2 <= base <= 16,
        number(m, base) == number(n, base),
    ensures
        m == n,
    decreases m,
{
    let s = number(m, base);
    if m >= base {
        assert(m / base < m) by (nonlinear_arith)
            requires
                m >= base,
                base >= 2,
        ;
    }
    law_number_digits(m / base, base);
    law_number_digits(n / base, base);
    vstd::arithmetic::div_mod::lemma_mod_bound(m as int, base as int);
    vstd::arithmetic::div_mod::lemma_mod_bound(n as int, base as int);
    vstd::arithmetic::div_mod::lemma_fundamental_div_mod(m as int, base as int);
    vstd::arithmetic::div_mod::lemma_fundamental_div_mod(n as int, base as int);
    if m < base && n < base {
        assert(s[0] == digit(m as int));
        assert(s[0] == digit(n as int));
        assert(m == n);
    } else if m >= base && n >= base {
        assert(s.drop_last() =~= number(m / base, base));
        assert(s.drop_last() =~= number(n / base, base));
        assert(s.last() == digit((m % base) as int));
        assert(s.last() == digit((n % base) as int));
        law_number_is_injective(m / base, n / base, base);
        assert(m % base == n % base);
    } else if m >= base {
        assert(s.len() == number(m / base, base).len() + 1);
    } else {
        assert(s.len() == number(n / base, base).len() + 1);
    }
}

/// Trimming takes away exactly the white space around the core of a text: what begins and ends
/// with other characters, or is empty, is left whole, whatever white space stands around it.
pub proof fn law_trimmed_is_the_core(before: Seq<char>, core: Seq<char>, after: Seq<char>)
    requires
        forall|i: int| 0 <= i < before.len() ==> white_space(#[trigger] before[i]),
        forall|i: int| 0 <= i < after.len() ==> white_space(#[trigger] after[i]),
        core.len() > 0 ==> !white_space(core[0]) && !white_space(core.last()),
    ensures
        trimmed(before + core + after) == core,
{
    assert(before + core + after =~= before + (core + after));
    lemma_trimmed_start_skips(before, core + after);
    if core.len() == 0 {
        assert(core + after =~= after + Seq::empty());
        lemma_trimmed_start_skips(after, Seq::empty());
        assert(core =~= Seq::empty());
    } else {
        assert((core + after)[0] == core[0]);
        lemma_trimmed_end_skips(core, after);
    }
}

proof fn lemma_trimmed_start_skips(before: Seq<char>, rest: Seq<char>)
    requires
        forall|i: int| 0 <= i < before.len() ==> white_space(#[trigger] before[i]),
    ensures
        trimmed_start(before + rest) == trimmed_start(rest),
    decreases before.len(),
{
    if before.len() == 0 {
        assert(before + rest =~= rest);
    } else {
        assert((before + rest)[0] == before[0]);
        assert((before + rest).skip(1) =~= before.skip(1) + rest);
        assert forall|i: int| 0 <= i < before.skip(1).len() implies white_space(
            #[trigger] before.skip(1)[i],
        ) by {
            assert(white_space(before[i + 1]));
        }
        lemma_trimmed_start_skips(before.skip(1), rest);
    }
}

proof fn lemma_trimmed_end_skips(rest: Seq<char>, after: Seq<char>)
    requires
        forall|i: int| 0 <= i < after.len() ==> white_space(#[trigger] after[i]),
    ensures
        trimmed_end(rest + after) == trimmed_end(rest),
    decreases after.len(),
{
    if after.len() == 0 {
        assert(rest + after =~= rest);
    } else {
        assert((rest + after).last() == after[after.len() - 1]);
        assert((rest + after).drop_last() =~= rest + after.drop_last());
        assert forall|i: int| 0 <= i < after.drop_last().len() implies white_space(
            #[trigger] after.drop_last()[i],
        ) by {
            assert(white_space(after[i]));
        }
        lemma_trimmed_end_skips(rest, after.drop_last());
    }
}

/// What a digit stands for.
pub open spec fn digit_value(c: char) -> int {
    if '0' <= c <= '9' {
        c as int - '0' as int
    } else {
        c as int - 'a' as int + 10
    }
}

/// The number that digits stand for, read from left to right.
pub open spec fn reading(digits: Seq<char>, base: int) -> int
    decreases digits.len(),
{
    if digits.len() == 0 {
        0
    } else {
        reading(digits.drop_last(), base) * base + digit_value(digits.last())
    }
}

/// A number reads back as itself, and is written in digits of its base without leading zeros.
pub proof fn law_number_reads_back(n: nat, base: nat)
    requires
        2 <= base <= 16,
    ensures
        reading(number(n, base), base as int) == n,
        n == 0 ==> number(n, base) == seq!['0'],
        n > 0 ==> number(n, base).len() > 0 && number(n, base)[0] != '0',
        forall|i: int|
            0 <= i < number(n, base).len() ==> 0 <= #[trigger] digit_value(number(n, base)[i])
                < base,
    decreases n,
{
    reveal_with_fuel(reading, 2);
    let s = number(n, base);
    if n < base {
        assert(s.drop_last() =~= Seq::empty());
        assert(s =~= seq![digit(n as int)]);
    } else {
        assert(0 < n / base < n) by (nonlinear_arith)
            requires
                n >= base,
                base >= 2,
        ;
        law_number_reads_back(n / base, base);
        vstd::arithmetic::div_mod::lemma_mod_bound(n as int, base as int);
        vstd::arithmetic::div_mod::lemma_fundamental_div_mod(n as int, base as int);
        assert(s.drop_last() =~= number(n / base, base));
        assert((n / base) * base == base * (n / base)) by (nonlinear_arith);
        assert(s[0] == number(n / base, base)[0]);
    }
}

/// Joining nothing gives nothing, joining one part gives that part, and joining two lists after
/// one another is joining each, with the separator once between them.
pub proof fn law_joined_in_two(a: Seq<Seq<char>>, b: Seq<Seq<char>>, separator: Seq<char>)
    ensures
        joined(Seq::empty(), separator) == Seq::<char>::empty(),
        forall|part: Seq<char>| joined(seq![part], separator) == part,
        a.len() > 0 && b.len() > 0 ==> #[trigger] joined(a + b, separator) == joined(a, separator)
            + separator + joined(b, separator),
    decreases b.len(),
{
    if a.len() > 0 && b.len() > 0 {
        assert((a + b).drop_last() =~= a + b.drop_last());
        assert((a + b).last() == b.last());
        if b.len() == 1 {
            assert(a + b.drop_last() =~= a);
            assert(joined(b, separator) == b[0]);
        } else {
            law_joined_in_two(a, b.drop_last(), separator);
            assert(joined(a + b, separator) =~= joined(a, separator) + separator + joined(
                b,
                separator,
            ));
        }
    }
}

/// A text is blank exactly when it is empty or made of white space alone.
pub proof fn law_blank_is_white_space_alone(text: Seq<char>)
    ensures
        blank(text) <==> forall|i: int| 0 <= i < text.len() ==> white_space(#[trigger] text[i]),
{
}

} // verus!
