//! Numbers written in decimal digits, however long.

use crate::text::{chars_of, decimal_of, decimal_value, digit, is_digit, slice, text};
use vstd::prelude::*;
use vstd::string::StrSliceExecFns;
use vstd::string::StringExecFns;

verus! {

/// Whether `s` holds nothing but decimal digits.
pub open spec fn all_digits(s: Seq<char>) -> bool {
    forall|i: int| 0 <= i < s.len() ==> is_digit(#[trigger] s[i])
}

/// Ten to the power `n`.
pub open spec fn pow10(n: nat) -> nat
    decreases n,
{
    if n == 0 {
        1
    } else {
        10 * pow10((n - 1) as nat)
    }
}

/// A row of `n` zeros.
pub open spec fn zeros(n: nat) -> Seq<char> {
    Seq::new(n, |i: int| '0')
}

/// A greater power of ten is no smaller.
pub proof fn lemma_pow10_grows(a: nat, b: nat)
    requires
        a <= b,
    ensures
        1 <= pow10(a) <= pow10(b),
    decreases b,
{
    if a < b {
        lemma_pow10_grows(a, (b - 1) as nat);
    } else if a > 0 {
        lemma_pow10_grows((a - 1) as nat, (a - 1) as nat);
    }
}

/// A character is told by its number: it is `0` or `9` exactly where its
/// number is that of `0` or `9`, and a digit is the character that stands
/// for its value.
pub proof fn lemma_digit_chars(c: char)
    ensures
        (c == '0') == (c as u32 == 48),
        (c == '9') == (c as u32 == 57),
        is_digit(c) ==> digit((c as u32 - 48) as nat) == c,
{
    vstd::utf8::char_u32_cast(c, c as u32);
    vstd::utf8::char_u32_cast('0', '0' as u32);
    vstd::utf8::char_u32_cast('9', '9' as u32);
}

/// Two characters with the same number are the same.
pub proof fn lemma_same_char(c: char, d: char)
    requires
        c as u32 == d as u32,
    ensures
        c == d,
{
    vstd::utf8::char_u32_cast(c, c as u32);
    vstd::utf8::char_u32_cast(d, d as u32);
}

proof fn lemma_front_digits(s: Seq<char>)
    requires
        all_digits(s),
        s.len() > 0,
    ensures
        all_digits(s.drop_last()),
        is_digit(s.last()),
{
    assert forall|i: int| 0 <= i < s.drop_last().len() implies is_digit(
        #[trigger] s.drop_last()[i],
    ) by {
        assert(s.drop_last()[i] == s[i]);
    }
}

/// A number of so many digits is below the power of ten with that exponent.
pub proof fn lemma_value_below(s: Seq<char>)
    requires
        all_digits(s),
    ensures
        decimal_value(s) < pow10(s.len()),
    decreases s.len(),
{
    if s.len() > 0 {
        lemma_front_digits(s);
        lemma_value_below(s.drop_last());
    }
}

/// A number that begins with a digit other than zero is no smaller than the
/// power of ten with one less than the number of its digits.
pub proof fn lemma_value_from(s: Seq<char>)
    requires
        all_digits(s),
        s.len() > 0,
        s[0] != '0',
    ensures
        decimal_value(s) >= pow10((s.len() - 1) as nat),
    decreases s.len(),
{
    lemma_front_digits(s);
    if s.len() == 1 {
        assert(s.drop_last().len() == 0);
        assert(s.last() == s[0]);
        lemma_digit_chars(s[0]);
    } else {
        assert(s.drop_last()[0] == s[0]);
        lemma_value_from(s.drop_last());
    }
}

/// Zeros in front change no number.
pub proof fn lemma_zeros_lead(s: Seq<char>, z: int)
    requires
        all_digits(s),
        0 <= z <= s.len(),
        forall|j: int| 0 <= j < z ==> s[j] == '0',
    ensures
        decimal_value(s) == decimal_value(s.skip(z)),
        all_digits(s.skip(z)),
    decreases s.len(),
{
    assert forall|i: int| 0 <= i < s.skip(z).len() implies is_digit(#[trigger] s.skip(z)[i]) by {
        assert(s.skip(z)[i] == s[i + z]);
    }
    if s.len() == 0 {
        assert(s.skip(z) =~= s);
    } else {
        lemma_front_digits(s);
        let front = s.drop_last();
        if z == s.len() {
            assert forall|j: int| 0 <= j < z - 1 implies front[j] == '0' by {
                assert(front[j] == s[j]);
            }
            lemma_zeros_lead(front, z - 1);
            assert(front.skip(z - 1).len() == 0);
            assert(s.last() == s[z - 1]);
            lemma_digit_chars(s.last());
            assert(s.skip(z).len() == 0);
        } else {
            assert forall|j: int| 0 <= j < z implies front[j] == '0' by {
                assert(front[j] == s[j]);
            }
            lemma_zeros_lead(front, z);
            assert(s.skip(z).drop_last() =~= front.skip(z));
            assert(s.skip(z).last() == s.last());
        }
    }
}

/// Of two numbers with as many digits, the one with the smaller digit where
/// they first differ is the smaller.
pub proof fn lemma_first_difference(a: Seq<char>, b: Seq<char>, i: int)
    requires
        a.len() == b.len(),
        all_digits(a),
        all_digits(b),
        0 <= i < a.len(),
        forall|j: int| 0 <= j < i ==> a[j] == b[j],
        (a[i] as u32) < (b[i] as u32),
    ensures
        decimal_value(a) < decimal_value(b),
    decreases a.len(),
{
    lemma_front_digits(a);
    lemma_front_digits(b);
    if i == a.len() - 1 {
        assert(a.drop_last() =~= b.drop_last());
        assert(a.last() == a[i]);
        assert(b.last() == b[i]);
    } else {
        assert forall|j: int| 0 <= j < i implies a.drop_last()[j] == b.drop_last()[j] by {
            assert(a.drop_last()[j] == a[j]);
            assert(b.drop_last()[j] == b[j]);
        }
        assert(a.drop_last()[i] == a[i]);
        assert(b.drop_last()[i] == b[i]);
        lemma_first_difference(a.drop_last(), b.drop_last(), i);
    }
}

/// Counting on by one: the last digit that is no nine goes up, and the nines
/// behind it become zeros.
pub proof fn lemma_count_on(a: Seq<char>, b: Seq<char>, k: int)
    requires
        a.len() == b.len(),
        all_digits(a),
        0 <= k < a.len(),
        forall|j: int| 0 <= j < k ==> a[j] == b[j],
        a[k] != '9',
        b[k] as u32 == a[k] as u32 + 1,
        forall|j: int| k < j < a.len() ==> a[j] == '9' && b[j] == '0',
    ensures
        decimal_value(b) == decimal_value(a) + 1,
        all_digits(b),
    decreases a.len(),
{
    assert(is_digit(a[k]));
    lemma_digit_chars(a[k]);
    assert forall|j: int| 0 <= j < b.len() implies is_digit(#[trigger] b[j]) by {
        if j < k {
            assert(is_digit(a[j]));
        } else if j > k {
            lemma_digit_chars(b[j]);
        }
    }
    lemma_front_digits(a);
    if k == a.len() - 1 {
        assert(a.drop_last() =~= b.drop_last());
        assert(a.last() == a[k]);
        assert(b.last() == b[k]);
    } else {
        let x = a.drop_last();
        let y = b.drop_last();
        assert forall|j: int| 0 <= j < k implies x[j] == y[j] by {
            assert(x[j] == a[j]);
            assert(y[j] == b[j]);
        }
        assert(x[k] == a[k] && y[k] == b[k]);
        assert forall|j: int| k < j < x.len() implies x[j] == '9' && y[j] == '0' by {
            assert(x[j] == a[j]);
            assert(y[j] == b[j]);
        }
        lemma_count_on(x, y, k);
        assert(a.last() == a[a.len() - 1] && b.last() == b[b.len() - 1]);
        lemma_digit_chars(a.last());
        lemma_digit_chars(b.last());
    }
}

/// A number written out is a row of digits, at least one, and reads as that
/// number.
pub proof fn lemma_decimal_round_trip(n: nat)
    ensures
        all_digits(decimal_of(n)),
        decimal_of(n).len() > 0,
        decimal_value(decimal_of(n)) == n,
    decreases n,
{
    let s = decimal_of(n);
    if n < 10 {
        assert(s =~= seq![digit(n)]);
        assert(s.drop_last().len() == 0);
        assert(decimal_value(s.drop_last()) == 0);
        assert(s.last() == digit(n));
        assert(digit(n) as u32 == 48 + n);
        assert(decimal_value(s) == n);
    } else {
        lemma_decimal_round_trip(n / 10);
        let front = decimal_of(n / 10);
        assert(s =~= front.push(digit(n % 10)));
        assert(s.drop_last() =~= front);
        assert(s.last() == digit(n % 10));
        assert(digit(n % 10) as u32 == 48 + n % 10);
        assert(decimal_value(s) == decimal_value(front) * 10 + n % 10);
        assert((n / 10) * 10 + n % 10 == n);
        assert forall|i: int| 0 <= i < s.len() implies is_digit(#[trigger] s[i]) by {
            if i < front.len() {
                assert(s[i] == front[i]);
            }
        }
    }
}

/// A row of digits that does not begin with a zero is the number it reads
/// as, written out.
pub proof fn lemma_digits_are_decimal(s: Seq<char>)
    requires
        all_digits(s),
        s.len() > 0,
        s[0] != '0',
    ensures
        decimal_of(decimal_value(s)) == s,
    decreases s.len(),
{
    lemma_front_digits(s);
    let d = (s.last() as u32 - 48) as nat;
    lemma_digit_chars(s.last());
    if s.len() == 1 {
        assert(s.drop_last().len() == 0);
        assert(decimal_value(s.drop_last()) == 0);
        assert(decimal_value(s) == d);
        assert(d < 10);
        assert(decimal_of(d) =~= seq![digit(d)]);
        assert(seq![digit(d)] =~= s);
    } else {
        let front = s.drop_last();
        assert(front[0] == s[0]);
        lemma_value_from(front);
        lemma_pow10_grows(0, (front.len() - 1) as nat);
        lemma_digits_are_decimal(front);
        let v = decimal_value(front);
        assert(v >= 1);
        assert(d < 10);
        assert(decimal_value(s) == v * 10 + d);
        assert((v * 10 + d) / 10 == v);
        assert((v * 10 + d) % 10 == d);
        assert(v * 10 + d >= 10);
        assert(decimal_of(v * 10 + d) == decimal_of(v).push(digit(d)));
        assert(front.push(s.last()) =~= s);
    }
}

/// How many zeros `v` begins with.
fn leading_zeros(v: &Vec<char>) -> (z: usize)
    ensures
        z <= v@.len(),
        forall|j: int| 0 <= j < z ==> v@[j] == '0',
        z < v@.len() ==> v@[z as int] != '0',
{
    let mut z: usize = 0;
    while z < v.len() && v[z] == '0'
        invariant
            z <= v@.len(),
            forall|j: int| 0 <= j < z ==> v@[j] == '0',
        decreases v@.len() - z,
    {
        z = z + 1;
    }
    z
}

/// Whether `s` holds nothing but decimal digits.
pub(crate) fn digits_only(s: &str) -> (r: bool)
    ensures
        r == all_digits(s@),
{
    let v = chars_of(s);
    let mut i: usize = 0;
    while i < v.len()
        invariant
            i <= v@.len(),
            v@ == s@,
            forall|j: int| 0 <= j < i ==> is_digit(#[trigger] v@[j]),
        decreases v@.len() - i,
    {
        let u: u32 = v[i] as u32;
        if u < 48 || u > 57 {
            assert(!is_digit(s@[i as int]));
            return false;
        }
        i = i + 1;
    }
    true
}

/// Whether the number that `a` reads as is greater than the one that `b`
/// reads as.
pub(crate) fn greater_number(a: &str, b: &str) -> (r: bool)
    requires
        all_digits(a@),
        all_digits(b@),
    ensures
        r == (decimal_value(a@) > decimal_value(b@)),
{
    let x = chars_of(a);
    let y = chars_of(b);
    let zx = leading_zeros(&x);
    let zy = leading_zeros(&y);
    let lx = x.len() - zx;
    let ly = y.len() - zy;
    assert(x@.len() <= usize::MAX && y@.len() <= usize::MAX);
    let ghost x1 = x@.skip(zx as int);
    let ghost y1 = y@.skip(zy as int);
    proof {
        lemma_zeros_lead(x@, zx as int);
        lemma_zeros_lead(y@, zy as int);
        lemma_value_below(x1);
        lemma_value_below(y1);
        if lx > 0 {
            assert(x1[0] == x@[zx as int]);
            lemma_value_from(x1);
        }
        if ly > 0 {
            assert(y1[0] == y@[zy as int]);
            lemma_value_from(y1);
        }
        if lx < ly {
            lemma_pow10_grows(lx as nat, (ly - 1) as nat);
        }
        if ly < lx {
            lemma_pow10_grows(ly as nat, (lx - 1) as nat);
        }
    }
    if lx != ly {
        return lx > ly;
    }
    let mut i: usize = 0;
    while i < lx && x[zx + i] == y[zy + i]
        invariant
            i <= lx,
            lx == ly,
            lx == x@.len() - zx,
            ly == y@.len() - zy,
            x1 == x@.skip(zx as int),
            y1 == y@.skip(zy as int),
            x@.len() <= usize::MAX,
            y@.len() <= usize::MAX,
            forall|j: int| 0 <= j < i ==> x1[j] == y1[j],
        decreases lx - i,
    {
        assert(x1[i as int] == x@[zx + i]);
        assert(y1[i as int] == y@[zy + i]);
        i = i + 1;
    }
    if i == lx {
        assert(x1 =~= y1);
        return false;
    }
    let p: u32 = x[zx + i] as u32;
    let q: u32 = y[zy + i] as u32;
    proof {
        assert(x1[i as int] == x@[zx + i]);
        assert(y1[i as int] == y@[zy + i]);
        assert forall|j: int| 0 <= j < i implies y1[j] == x1[j] by {}
        if p == q {
            lemma_same_char(x1[i as int], y1[i as int]);
        }
        if p < q {
            lemma_first_difference(x1, y1, i as int);
        } else {
            lemma_first_difference(y1, x1, i as int);
        }
    }
    p > q
}

/// What counting on by one comes to, digit by digit: the digits `v` up to
/// the last that is no nine, without zeros in front, that digit raised by one
/// as `up`, and a zero for each nine behind it; or a one and zeros where
/// `v` holds nothing but nines.
proof fn lemma_counted_on(v: Seq<char>, k: int, start: int, up: char, r: Seq<char>)
    requires
        all_digits(v),
        0 <= k <= v.len(),
        forall|j: int| k <= j < v.len() ==> v[j] == '9',
        k == 0 ==> up == '1',
        k > 0 ==> v[k - 1] != '9' && up as u32 == v[k - 1] as u32 + 1,
        k > 0 ==> 0 <= start <= k - 1,
        k > 0 ==> forall|j: int| 0 <= j < start ==> v[j] == '0',
        k > 0 && start < k - 1 ==> v[start] != '0',
        r == (if k == 0 {
            seq![up]
        } else {
            v.subrange(start, k - 1).push(up)
        }) + zeros((v.len() - k) as nat),
    ensures
        r == decimal_of(decimal_value(v) + 1),
{
    let n = v.len();
    let w = seq!['0'] + v;
    let from = if k == 0 {
        0
    } else {
        1 + start
    };
    let t = w.take(k).push(up) + zeros((n - k) as nat);
    lemma_digit_chars('0');
    lemma_digit_chars('1');
    lemma_digit_chars(up);
    assert forall|i: int| 0 <= i < w.len() implies is_digit(#[trigger] w[i]) by {
        if i > 0 {
            assert(w[i] == v[i - 1]);
        }
    }
    assert(w.skip(1) =~= v);
    lemma_zeros_lead(w, 1);
    if k > 0 {
        assert(w[k] == v[k - 1]);
    }
    assert forall|i: int| k < i < w.len() implies w[i] == '9' && t[i] == '0' by {
        assert(w[i] == v[i - 1]);
    }
    lemma_count_on(w, t, k);
    assert(r =~= t.skip(from));
    assert forall|i: int| 0 <= i < from implies t[i] == '0' by {
        if i > 0 {
            assert(t[i] == w[i]);
            assert(w[i] == v[i - 1]);
        }
    }
    lemma_zeros_lead(t, from);
    assert(r[0] == t[from]);
    if k > 0 && from < k {
        assert(t[from] == w[from]);
        assert(w[from] == v[from - 1]);
    }
    lemma_digit_chars(r[0]);
    lemma_digits_are_decimal(r);
}

/// The digit after the digit `c`, for a digit other than nine.
fn digit_after(c: char) -> (r: String)
    requires
        is_digit(c),
        c != '9',
    ensures
        r@.len() == 1,
        r@[0] as u32 == c as u32 + 1,
{
    proof {
        reveal_strlit("0123456789");
        lemma_digit_chars(c);
    }
    let d: usize = (c as u32 - 48) as usize;
    text("0123456789".substring_char(d + 1, d + 2))
}

/// The number after the one that `s` reads as, written out.
pub(crate) fn next_number(s: &str) -> (r: String)
    requires
        all_digits(s@),
    ensures
        r@ == decimal_of(decimal_value(s@) + 1),
{
    let v = chars_of(s);
    let n = v.len();
    let mut k: usize = n;
    while k > 0 && v[k - 1] == '9'
        invariant
            k <= n,
            n == v@.len(),
            forall|j: int| k <= j < n ==> v@[j] == '9',
        decreases k,
    {
        k = k - 1;
    }
    let z = leading_zeros(&v);
    let ghost start: int = 0;
    let ghost up: char = '1';
    let mut r: String;
    if k == 0 {
        r = text("1");
        proof {
            reveal_strlit("1");
            assert(r@ =~= seq![up]);
        }
    } else {
        let from: usize = if z < k - 1 {
            z
        } else {
            k - 1
        };
        r = slice(s, from, k - 1);
        let next = digit_after(v[k - 1]);
        r.append(next.as_str());
        proof {
            start = from as int;
            up = next@[0];
            assert(next@ =~= seq![up]);
            assert(r@ =~= v@.subrange(start, k - 1).push(up));
        }
    }
    let ghost head = r@;
    let mut j: usize = k;
    while j < n
        invariant
            k <= j <= n,
            r@ == head + zeros((j - k) as nat),
        decreases n - j,
    {
        r.append("0");
        proof {
            reveal_strlit("0");
            assert(r@ =~= head + zeros((j + 1 - k) as nat));
        }
        j = j + 1;
    }
    proof {
        lemma_counted_on(v@, k as int, start, up, r@);
    }
    r
}

} // verus!
