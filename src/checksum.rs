//! The country-independent MOD 97-10 check of an IBAN.
use vstd::prelude::*;
use vstd::arithmetic::div_mod::{lemma_fundamental_div_mod, lemma_mod_multiples_vanish};

verus! {

pub open spec fn is_digit(c: char) -> bool {
    '0' <= c <= '9'
}

pub open spec fn is_upper(c: char) -> bool {
    'A' <= c <= 'Z'
}

pub open spec fn is_lower(c: char) -> bool {
    'a' <= c <= 'z'
}

pub open spec fn is_letter(c: char) -> bool {
    is_upper(c) || is_lower(c)
}

pub open spec fn is_alnum(c: char) -> bool {
    is_digit(c) || is_letter(c)
}

pub open spec fn all_alnum(s: Seq<char>) -> bool {
    forall|i: int| 0 <= i < s.len() ==> is_alnum(#[trigger] s[i])
}

/// The numeric value of a letter: A (or a) is 10, ..., Z (or z) is 35.
pub open spec fn letter_value(c: char) -> int {
    if is_lower(c) {
        c as int - 'a' as int + 10
    } else {
        c as int - 'A' as int + 10
    }
}

pub open spec fn digit_char(d: int) -> char {
    (d + '0' as int) as char
}

/// What one character contributes to the numeric string: a letter becomes
/// its two-digit value, any other character stays as it is.
pub open spec fn char_expansion(c: char) -> Seq<char> {
    if is_letter(c) {
        seq![digit_char(letter_value(c) / 10), digit_char(letter_value(c) % 10)]
    } else {
        seq![c]
    }
}

pub open spec fn expansion(s: Seq<char>) -> Seq<char>
    decreases s.len(),
{
    if s.len() == 0 {
        Seq::empty()
    } else {
        expansion(s.drop_last()) + char_expansion(s.last())
    }
}

/// The first four characters moved to the end.
pub open spec fn rotate(s: Seq<char>) -> Seq<char> {
    if s.len() < 4 {
        s
    } else {
        s.subrange(4, s.len() as int) + s.subrange(0, 4)
    }
}

/// The value of a string of decimal digits, read as one (unbounded) integer.
pub open spec fn digits_value(d: Seq<char>) -> int
    decreases d.len(),
{
    if d.len() == 0 {
        0
    } else {
        digits_value(d.drop_last()) * 10 + (d.last() as int - '0' as int)
    }
}

pub open spec fn pow10(n: nat) -> int
    decreases n,
{
    if n == 0 {
        1
    } else {
        10 * pow10((n - 1) as nat)
    }
}

/// An IBAN passes the check when it is a non-empty string of letters and
/// digits whose rotated expansion, read as an integer, leaves 1 modulo 97.
pub open spec fn checksum_valid(s: Seq<char>) -> bool {
    &&& s.len() > 0
    &&& all_alnum(s)
    &&& digits_value(expansion(rotate(s))) % 97 == 1
}

proof fn lemma_mod_step(a: int, mul: int, add: int)
    ensures
        (a * mul + add) % 97 == ((a % 97) * mul + add) % 97,
{
    lemma_fundamental_div_mod(a, 97);
    let q = a / 97;
    let r = a % 97;
    assert(a * mul + add == 97 * (q * mul) + (r * mul + add)) by (nonlinear_arith)
        requires
            a == 97 * q + r,
    ;
    lemma_mod_multiples_vanish(q * mul, r * mul + add, 97);
}

proof fn lemma_expansion_push(s: Seq<char>, c: char)
    ensures
        expansion(s.push(c)) == expansion(s) + char_expansion(c),
{
    assert(s.push(c).drop_last() =~= s);
}

pub(crate) proof fn lemma_digits_value_push(d: Seq<char>, c: char)
    ensures
        digits_value(d.push(c)) == digits_value(d) * 10 + (c as int - '0' as int),
{
    assert(d.push(c).drop_last() =~= d);
}

/// Two-digit expansion of a letter.
proof fn lemma_letter_expansion(c: char)
    requires
        is_letter(c),
    ensures
        10 <= letter_value(c) <= 35,
        forall|d: Seq<char>|
            #![trigger digits_value(d + char_expansion(c))]
            digits_value(d + char_expansion(c)) == digits_value(d) * 100 + letter_value(c),
{
    let v = letter_value(c);
    assert forall|d: Seq<char>| #![trigger digits_value(d + char_expansion(c))]
        digits_value(d + char_expansion(c)) == digits_value(d) * 100 + v by {
        let e = char_expansion(c);
        assert(d + e =~= d.push(e[0]).push(e[1]));
        lemma_digits_value_push(d, e[0]);
        lemma_digits_value_push(d.push(e[0]), e[1]);
    }
}

/// Maps a character to the digits it stands for in the numeric form of an
/// IBAN: letters to their two-digit value, everything else unchanged.
pub fn char_to_num(c: char) -> (r: String)
    ensures
        r@ == char_expansion(c),
{
    let mut r = String::new();
    if ('A' <= c && c <= 'Z') || ('a' <= c && c <= 'z') {
        let v: u32 = if 'a' <= c && c <= 'z' {
            (c as u32) - ('a' as u32) + 10
        } else {
            (c as u32) - ('A' as u32) + 10
        };
        proof {
            assert(v as int == letter_value(c));
        }
        crate::text::push_char(&mut r, digit_of(v / 10));
        crate::text::push_char(&mut r, digit_of(v % 10));
        proof {
            assert(r@ =~= char_expansion(c));
        }
    } else {
        crate::text::push_char(&mut r, c);
        proof {
            assert(r@ =~= char_expansion(c));
        }
    }
    r
}

fn digit_of(d: u32) -> (c: char)
    requires
        d < 10,
    ensures
        c == digit_char(d as int),
{
    let c = ((d + 48) as u8) as char;
    c
}

/// Where the k-th character of the rotated string comes from.
proof fn lemma_rotate_index(s: Seq<char>)
    ensures
        rotate(s).len() == s.len(),
        forall|k: int|
            0 <= k < s.len() ==> #[trigger] rotate(s)[k] == s[rotated_source(s.len() as int, k)],
        forall|k: int| 0 <= k < s.len() ==> 0 <= #[trigger] rotated_source(s.len() as int, k) < s.len(),
        forall|j: int|
            0 <= j < s.len() ==> #[trigger] s[j] == rotate(s)[rotated_target(s.len() as int, j)]
                && 0 <= rotated_target(s.len() as int, j) < s.len(),
{
}

pub open spec fn rotated_source(n: int, k: int) -> int {
    if n < 4 {
        k
    } else if k < n - 4 {
        k + 4
    } else {
        k + 4 - n
    }
}

pub open spec fn rotated_target(n: int, j: int) -> int {
    if n < 4 {
        j
    } else if j >= 4 {
        j - 4
    } else {
        j + n - 4
    }
}

/// The MOD 97-10 check: moves the first four characters to the end, reads
/// the result as one integer with each letter standing for its two-digit
/// value, and accepts when that integer leaves 1 modulo 97. Any character
/// other than a letter or a digit fails the check.
pub fn verify_mod(iban: &str) -> (r: bool)
    ensures
        r == checksum_valid(iban@),
{
    let n = iban.unicode_len();
    if n == 0 {
        return false;
    }
    let ghost s = iban@;
    let ghost rot = rotate(s);
    proof {
        lemma_rotate_index(s);
    }
    let start: usize = if n < 4 {
        0
    } else {
        4
    };
    let mut m: u32 = 0;
    let mut k: usize = 0;
    while k < n
        invariant
            n == s.len(),
            s == iban@,
            rot == rotate(s),
            rot.len() == n,
            start == (if n < 4 { 0usize } else { 4usize }),
            0 <= k <= n,
            m < 97,
            forall|i: int| 0 <= i < k ==> is_alnum(#[trigger] rot[i]),
            m as int == digits_value(expansion(rot.take(k as int))) % 97,
        decreases n - k,
    {
        let idx = if k < n - start {
            k + start
        } else {
            k - (n - start)
        };
        let c = iban.get_char(idx);
        proof {
            assert(idx as int == rotated_source(n as int, k as int));
            assert(c == rot[k as int]);
            assert(rot.take(k as int + 1) =~= rot.take(k as int).push(c));
            lemma_expansion_push(rot.take(k as int), c);
        }
        let ghost prev = digits_value(expansion(rot.take(k as int)));
        if '0' <= c && c <= '9' {
            let d = (c as u32) - ('0' as u32);
            proof {
                assert(char_expansion(c) == seq![c]);
                assert(expansion(rot.take(k as int)) + seq![c] =~= expansion(
                    rot.take(k as int),
                ).push(c));
                lemma_digits_value_push(expansion(rot.take(k as int)), c);
                lemma_mod_step(prev, 10, d as int);
            }
            m = (m * 10 + d) % 97;
        } else if ('A' <= c && c <= 'Z') || ('a' <= c && c <= 'z') {
            let v: u32 = if 'a' <= c && c <= 'z' {
                (c as u32) - ('a' as u32) + 10
            } else {
                (c as u32) - ('A' as u32) + 10
            };
            proof {
                lemma_letter_expansion(c);
                assert(digits_value(expansion(rot.take(k as int)) + char_expansion(c))
                    == prev * 100 + letter_value(c));
                lemma_mod_step(prev, 100, v as int);
            }
            m = (m * 100 + v) % 97;
        } else {
            proof {
                let j = rotated_source(n as int, k as int);
                assert(s[j] == c);
                assert(!is_alnum(s[j]));
            }
            return false;
        }
        k += 1;
    }
    proof {
        assert(rot.take(n as int) =~= rot);
        assert forall|j: int| 0 <= j < s.len() implies is_alnum(#[trigger] s[j]) by {
            assert(s[j] == rot[rotated_target(n as int, j)]);
        }
    }
    m == 1
}

proof fn lemma_digits_value_concat(a: Seq<char>, b: Seq<char>)
    ensures
        digits_value(a + b) == digits_value(a) * pow10(b.len()) + digits_value(b),
    decreases b.len(),
{
    if b.len() == 0 {
        assert(a + b =~= a);
    } else {
        let b0 = b.drop_last();
        lemma_digits_value_concat(a, b0);
        assert((a + b).drop_last() =~= a + b0);
        assert((a + b).last() == b.last());
        let va = digits_value(a);
        let vb0 = digits_value(b0);
        let p0 = pow10(b0.len());
        let l = b.last() as int - '0' as int;
        assert((va * p0 + vb0) * 10 + l == va * (10 * p0) + (vb0 * 10 + l)) by (nonlinear_arith);
    }
}

proof fn lemma_expansion_concat(a: Seq<char>, b: Seq<char>)
    ensures
        expansion(a + b) == expansion(a) + expansion(b),
    decreases b.len(),
{
    if b.len() == 0 {
        assert(a + b =~= a);
        assert(expansion(a) + expansion(b) =~= expansion(a));
    } else {
        let b0 = b.drop_last();
        lemma_expansion_concat(a, b0);
        assert((a + b).drop_last() =~= a + b0);
        assert((a + b).last() == b.last());
        assert(expansion(a) + expansion(b0) + char_expansion(b.last()) =~= expansion(a) + (
        expansion(b0) + char_expansion(b.last())));
    }
}

/// A non-zero single-digit difference, shifted by any number of decimal
/// places, is never a multiple of 97.
proof fn lemma_shifted_digit_difference(delta: int, k: nat)
    requires
        -9 <= delta <= 9,
        delta != 0,
    ensures
        (delta * pow10(k)) % 97 != 0,
    decreases k,
{
    if k > 0 {
        let k0 = (k - 1) as nat;
        lemma_shifted_digit_difference(delta, k0);
        let x = delta * pow10(k0);
        assert(delta * pow10(k) == x * 10) by (nonlinear_arith)
            requires
                pow10(k) == 10 * pow10(k0),
                x == delta * pow10(k0),
        ;
        lemma_mod_step(x, 10, 0);
        let r = x % 97;
        assert(0 < r < 97);
        assert((r * 10) % 97 != 0);
    }
}

proof fn lemma_same_residue_difference(x: int, y: int)
    requires
        x % 97 == y % 97,
    ensures
        (x - y) % 97 == 0,
{
    lemma_fundamental_div_mod(x, 97);
    lemma_fundamental_div_mod(y, 97);
    assert(x - y == 97 * (x / 97 - y / 97));
    lemma_mod_multiples_vanish(x / 97 - y / 97, 0, 97);
}

/// Changing one digit in the account-number part of a German IBAN that
/// passes the check (any position after the bank code, to a different
/// digit) yields a string that fails it.
pub proof fn lemma_single_digit_change_detected(s: Seq<char>, i: int, c: char)
    requires
        s.len() == 22,
        s[0] == 'D',
        s[1] == 'E',
        checksum_valid(s),
        12 <= i < 22,
        is_digit(s[i]),
        is_digit(c),
        c != s[i],
    ensures
        !checksum_valid(s.update(i, c)),
{
    let t = s.update(i, c);
    let r = rotate(s);
    let j = i - 4;
    let d = s[i];
    assert(rotate(t) =~= r.update(j, c));
    let a = r.take(j);
    let b = r.skip(j + 1);
    assert(r =~= a + seq![d] + b);
    assert(r.update(j, c) =~= a + seq![c] + b);
    lemma_expansion_concat(a + seq![d], b);
    lemma_expansion_concat(a, seq![d]);
    lemma_expansion_concat(a + seq![c], b);
    lemma_expansion_concat(a, seq![c]);
    assert(seq![d].drop_last() =~= Seq::<char>::empty());
    assert(seq![c].drop_last() =~= Seq::<char>::empty());
    assert(expansion(Seq::<char>::empty()) =~= Seq::<char>::empty());
    assert(!is_letter(d) && !is_letter(c));
    assert(expansion(seq![d]) == expansion(Seq::<char>::empty()) + char_expansion(d));
    assert(expansion(seq![c]) == expansion(Seq::<char>::empty()) + char_expansion(c));
    assert(expansion(seq![d]) =~= seq![d]);
    assert(expansion(seq![c]) =~= seq![c]);
    let ea = expansion(a);
    let eb = expansion(b);
    lemma_digits_value_concat(ea.push(d), eb);
    lemma_digits_value_concat(ea.push(c), eb);
    lemma_digits_value_push(ea, d);
    lemma_digits_value_push(ea, c);
    assert(ea + seq![d] =~= ea.push(d));
    assert(ea + seq![c] =~= ea.push(c));
    let p = pow10(eb.len());
    let vs = digits_value(expansion(r));
    let vt = digits_value(expansion(rotate(t)));
    let delta = c as int - d as int;
    assert(vt - vs == delta * p) by (nonlinear_arith)
        requires
            vs == (digits_value(ea) * 10 + (d as int - '0' as int)) * p + digits_value(eb),
            vt == (digits_value(ea) * 10 + (c as int - '0' as int)) * p + digits_value(eb),
            delta == c as int - d as int,
    ;
    lemma_shifted_digit_difference(delta, eb.len());
    if checksum_valid(t) {
        lemma_same_residue_difference(vt, vs);
    }
}

} // verus!
