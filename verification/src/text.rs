//! Strings seen as sequences of characters: equality, the lexicographic
//! order, and fixed-width decimal rendering.

use vstd::prelude::*;

verus! {

/// `a` comes strictly before `b` in the lexicographic order by code point.
/// A proper prefix comes before every extension of it.
pub open spec fn lex_less(a: Seq<char>, b: Seq<char>) -> bool
    decreases a.len(),
{
    if b.len() == 0 {
        false
    } else if a.len() == 0 {
        true
    } else if a[0] == b[0] {
        lex_less(a.drop_first(), b.drop_first())
    } else {
        (a[0] as int) < (b[0] as int)
    }
}

/// No sequence comes before itself.
pub proof fn lemma_lex_irreflexive(a: Seq<char>)
    ensures
        !lex_less(a, a),
    decreases a.len(),
{
    if a.len() > 0 {
        lemma_lex_irreflexive(a.drop_first());
    }
}

/// Of two sequences at most one comes before the other.
pub proof fn lemma_lex_asymmetric(a: Seq<char>, b: Seq<char>)
    requires
        lex_less(a, b),
    ensures
        !lex_less(b, a),
    decreases a.len(),
{
    if a.len() > 0 && b.len() > 0 && a[0] == b[0] {
        lemma_lex_asymmetric(a.drop_first(), b.drop_first());
    }
}

/// Two different sequences are always ordered one way or the other.
pub proof fn lemma_lex_total(a: Seq<char>, b: Seq<char>)
    ensures
        lex_less(a, b) || a == b || lex_less(b, a),
    decreases a.len(),
{
    if a.len() == 0 || b.len() == 0 {
        if a.len() == 0 && b.len() == 0 {
            assert(a =~= b);
        }
    } else if a[0] == b[0] {
        lemma_lex_total(a.drop_first(), b.drop_first());
        if a.drop_first() == b.drop_first() {
            assert(a =~= seq![a[0]] + a.drop_first());
            assert(b =~= seq![b[0]] + b.drop_first());
        }
    }
}

/// The order is transitive.
pub proof fn lemma_lex_transitive(a: Seq<char>, b: Seq<char>, c: Seq<char>)
    requires
        lex_less(a, b),
        lex_less(b, c),
    ensures
        lex_less(a, c),
    decreases a.len(),
{
    if a.len() > 0 && a[0] == b[0] && b[0] == c[0] {
        lemma_lex_transitive(a.drop_first(), b.drop_first(), c.drop_first());
    }
}

/// Sequences that agree on their first `i` characters compare as their
/// remainders do.
pub proof fn lemma_lex_skip_common_prefix(a: Seq<char>, b: Seq<char>, i: int)
    requires
        0 <= i <= a.len(),
        i <= b.len(),
        a.take(i) == b.take(i),
    ensures
        lex_less(a, b) == lex_less(a.skip(i), b.skip(i)),
    decreases i,
{
    if i == 0 {
        assert(a.skip(0) =~= a);
        assert(b.skip(0) =~= b);
    } else {
        assert(b[0] == b.take(i)[0]);
        assert(a.drop_first().take(i - 1) =~= a.take(i).drop_first());
        assert(b.drop_first().take(i - 1) =~= b.take(i).drop_first());
        lemma_lex_skip_common_prefix(a.drop_first(), b.drop_first(), i - 1);
        assert(a.drop_first().skip(i - 1) =~= a.skip(i));
        assert(b.drop_first().skip(i - 1) =~= b.skip(i));
    }
}

/// Whether two strings hold the same characters.
pub fn str_equal(a: &str, b: &str) -> (r: bool)
    ensures
        r == (a@ == b@),
{
    let n = a.unicode_len();
    if n != b.unicode_len() {
        return false;
    }
    let mut i: usize = 0;
    while i < n
        invariant
            i <= n,
            n == a@.len(),
            n == b@.len(),
            a@.take(i as int) == b@.take(i as int),
        decreases n - i,
    {
        let x = a.get_char(i);
        let y = b.get_char(i);
        if x != y {
            return false;
        }
        i = i + 1;
    }
    assert(a@ =~= a@.take(n as int));
    assert(b@ =~= b@.take(n as int));
    true
}

/// Whether `a` comes strictly before `b` in the lexicographic order.
pub fn str_less(a: &str, b: &str) -> (r: bool)
    ensures
        r == lex_less(a@, b@),
{
    let n = a.unicode_len();
    let m = b.unicode_len();
    let mut i: usize = 0;
    while i < n && i < m
        invariant
            i <= n,
            i <= m,
            n == a@.len(),
            m == b@.len(),
            a@.take(i as int) == b@.take(i as int),
        decreases n - i,
    {
        let x = a.get_char(i);
        let y = b.get_char(i);
        if x != y {
            proof {
                lemma_lex_skip_common_prefix(a@, b@, i as int);
            }
            return x < y;
        }
        i = i + 1;
    }
    proof {
        lemma_lex_skip_common_prefix(a@, b@, i as int);
    }
    i < m
}

/// The character that writes the digit `d`.
pub open spec fn digit_char(d: nat) -> char
    recommends
        d < 10,
{
    if d == 0 {
        '0'
    } else if d == 1 {
        '1'
    } else if d == 2 {
        '2'
    } else if d == 3 {
        '3'
    } else if d == 4 {
        '4'
    } else if d == 5 {
        '5'
    } else if d == 6 {
        '6'
    } else if d == 7 {
        '7'
    } else if d == 8 {
        '8'
    } else {
        '9'
    }
}

/// The decimal numeral of `v`, without leading zeros.
pub open spec fn decimal(v: nat) -> Seq<char>
    decreases v,
{
    if v < 10 {
        seq![digit_char(v)]
    } else {
        decimal(v / 10).push(digit_char(v % 10))
    }
}

/// The last `width` digits of the decimal numeral of `v`, with zeros in
/// front where the numeral is shorter.
pub open spec fn padded(v: nat, width: nat) -> Seq<char>
    decreases width,
{
    if width == 0 {
        Seq::empty()
    } else {
        padded(v / 10, (width - 1) as nat).push(digit_char(v % 10))
    }
}

/// The text of one digit.
pub fn digit_text(d: u8) -> (s: &'static str)
    requires
        d < 10,
    ensures
        s@ == seq![digit_char(d as nat)],
{
    proof {
        reveal_strlit("0");
        reveal_strlit("1");
        reveal_strlit("2");
        reveal_strlit("3");
        reveal_strlit("4");
        reveal_strlit("5");
        reveal_strlit("6");
        reveal_strlit("7");
        reveal_strlit("8");
        reveal_strlit("9");
    }
    if d == 0 {
        "0"
    } else if d == 1 {
        "1"
    } else if d == 2 {
        "2"
    } else if d == 3 {
        "3"
    } else if d == 4 {
        "4"
    } else if d == 5 {
        "5"
    } else if d == 6 {
        "6"
    } else if d == 7 {
        "7"
    } else if d == 8 {
        "8"
    } else {
        "9"
    }
}

/// Appends the decimal numeral of `v` to `out`.
pub fn push_decimal(out: &mut String, v: u128)
    ensures
        final(out)@ == old(out)@ + decimal(v as nat),
    decreases v,
{
    if v >= 10 {
        push_decimal(out, v / 10);
    }
    out.append(digit_text((v % 10) as u8));
}

/// The decimal numeral of `v`.
pub fn decimal_text(v: u128) -> (s: String)
    ensures
        s@ == decimal(v as nat),
{
    let mut s = String::new();
    push_decimal(&mut s, v);
    s
}

/// Appends the last `width` digits of `v` to `out`, with zeros in front.
pub fn push_padded(out: &mut String, v: u64, width: usize)
    ensures
        final(out)@ == old(out)@ + padded(v as nat, width as nat),
    decreases width,
{
    if width > 0 {
        push_padded(out, v / 10, width - 1);
        out.append(digit_text((v % 10) as u8));
    }
}

/// The characters of `s`, one by one.
pub fn chars_of(s: &str) -> (chars: Vec<char>)
    ensures
        chars@ == s@,
{
    let mut chars: Vec<char> = Vec::new();
    for c in it: s.chars()
        invariant
            chars@ == it.seq().take(it.index() as int),
            it.seq() == s@,
    {
        chars.push(c);
    }
    chars
}

/// Ten to the power of `n`.
pub open spec fn pow10(n: nat) -> nat
    decreases n,
{
    if n == 0 {
        1
    } else {
        10 * pow10((n - 1) as nat)
    }
}

/// A padded numeral is as long as its width.
pub proof fn lemma_padded_len(v: nat, width: nat)
    ensures
        padded(v, width).len() == width,
    decreases width,
{
    if width > 0 {
        lemma_padded_len(v / 10, (width - 1) as nat);
    }
}

/// Sequences that begin alike compare as what follows the common
/// beginning.
pub proof fn lemma_lex_prefix(prefix: Seq<char>, a: Seq<char>, b: Seq<char>)
    ensures
        lex_less(prefix + a, prefix + b) == lex_less(a, b),
{
    let n = prefix.len() as int;
    assert((prefix + a).take(n) =~= prefix);
    assert((prefix + b).take(n) =~= prefix);
    lemma_lex_skip_common_prefix(prefix + a, prefix + b, n);
    assert((prefix + a).skip(n) =~= a);
    assert((prefix + b).skip(n) =~= b);
}

/// Of two sequences of one length that are ordered, each with one more
/// character is ordered the same way.
proof fn lemma_lex_push(a: Seq<char>, b: Seq<char>, c: char, d: char)
    requires
        a.len() == b.len(),
        lex_less(a, b),
    ensures
        lex_less(a.push(c), b.push(d)),
    decreases a.len(),
{
    if a[0] == b[0] {
        lemma_lex_push(a.drop_first(), b.drop_first(), c, d);
        assert(a.push(c).drop_first() =~= a.drop_first().push(c));
        assert(b.push(d).drop_first() =~= b.drop_first().push(d));
    }
}

/// A sequence with a smaller last character comes first.
proof fn lemma_lex_last(a: Seq<char>, c: char, d: char)
    requires
        (c as int) < (d as int),
    ensures
        lex_less(a.push(c), a.push(d)),
    decreases a.len(),
{
    if a.len() > 0 {
        lemma_lex_last(a.drop_first(), c, d);
        assert(a.push(c).drop_first() =~= a.drop_first().push(c));
        assert(a.push(d).drop_first() =~= a.drop_first().push(d));
    }
}

/// Numerals of one width are ordered as the numbers they write.
pub proof fn lemma_padded_order(a: nat, b: nat, width: nat)
    requires
        a < b < pow10(width),
    ensures
        lex_less(padded(a, width), padded(b, width)),
    decreases width,
{
    if width > 0 {
        let shorter = (width - 1) as nat;
        if a / 10 < b / 10 {
            lemma_padded_order(a / 10, b / 10, shorter);
            lemma_padded_len(a / 10, shorter);
            lemma_padded_len(b / 10, shorter);
            lemma_lex_push(
                padded(a / 10, shorter),
                padded(b / 10, shorter),
                digit_char(a % 10),
                digit_char(b % 10),
            );
        } else {
            lemma_lex_last(padded(a / 10, shorter), digit_char(a % 10), digit_char(b % 10));
        }
    }
}

} // verus!
