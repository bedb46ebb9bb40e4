//! Short identifiers in increasing order.

use vstd::prelude::*;
use vstd::string::StrSliceExecFns;
use vstd::string::StringExecFns;

verus! {

/// How many names there are before the counter is used up: 36 to the power 8.
pub const LIMIT: u64 = 2_821_109_907_456;

/// The bytes `0-9` and `a-z`.
pub open spec fn is_symbol(b: u8) -> bool {
    (48 <= b <= 57) || (97 <= b <= 122)
}

/// The value of a symbol as a digit of base 36.
pub open spec fn symbol_value(b: u8) -> nat {
    if b <= 57 {
        (b - 48) as nat
    } else {
        (b - 87) as nat
    }
}

/// The symbol that stands for the digit `d`.
pub open spec fn symbol(d: nat) -> char {
    if d < 10 {
        ((48 + d) as u8) as char
    } else {
        ((87 + d) as u8) as char
    }
}

/// The number that a row of symbols denotes, most significant first.
pub open spec fn number(digits: Seq<u8>) -> nat
    decreases digits.len(),
{
    if digits.len() == 0 {
        0
    } else {
        number(digits.drop_last()) * 36 + symbol_value(digits.last())
    }
}

/// The name of `n`: its digits in base 36 without leading zeros, so that the
/// name of zero is empty.
pub open spec fn name_of(n: nat) -> Seq<char>
    decreases n,
{
    if n == 0 {
        Seq::empty()
    } else {
        name_of(n / 36).push(symbol(n % 36))
    }
}

/// The digit that a character of a name stands for.
pub open spec fn char_value(c: char) -> nat {
    if 48 <= c as u32 <= 57 {
        (c as u32 - 48) as nat
    } else {
        (c as u32 - 87) as nat
    }
}

/// A name read back as a number of base 36.
pub open spec fn base36(name: Seq<char>) -> nat
    decreases name.len(),
{
    if name.len() == 0 {
        0
    } else {
        base36(name.drop_last()) * 36 + char_value(name.last())
    }
}

pub open spec fn pow36(e: nat) -> nat
    decreases e,
{
    if e == 0 {
        1
    } else {
        36 * pow36((e - 1) as nat)
    }
}

proof fn lemma_limit()
    ensures
        pow36(8) == LIMIT,
{
    reveal_with_fuel(pow36, 9);
}

proof fn lemma_number_bound(digits: Seq<u8>)
    requires
        forall|i: int| 0 <= i < digits.len() ==> is_symbol(#[trigger] digits[i]),
    ensures
        number(digits) < pow36(digits.len()),
        (forall|i: int| 0 <= i < digits.len() ==> #[trigger] digits[i] == 122) ==> number(digits) + 1
            == pow36(digits.len()),
    decreases digits.len(),
{
    if digits.len() > 0 {
        lemma_number_bound(digits.drop_last());
        assert(is_symbol(digits.last()));
        if forall|i: int| 0 <= i < digits.len() ==> #[trigger] digits[i] == 122 {
            assert forall|i: int| 0 <= i < digits.drop_last().len() implies #[trigger] digits.drop_last()[i]
                == 122 by {
                assert(digits.drop_last()[i] == digits[i]);
            }
            assert(digits.last() == digits[digits.len() - 1]);
        }
    }
}

/// The symbol after `b`, for a symbol other than `z`.
pub open spec fn successor(b: u8) -> u8 {
    if b == 57 {
        97
    } else {
        (b + 1) as u8
    }
}

proof fn lemma_carry(a: Seq<u8>, b: Seq<u8>, k: int)
    requires
        a.len() == b.len(),
        0 <= k < a.len(),
        forall|i: int| 0 <= i < k ==> a[i] == b[i],
        is_symbol(a[k]),
        a[k] != 122,
        b[k] == successor(a[k]),
        forall|i: int| k < i < a.len() ==> a[i] == 122 && b[i] == 48,
    ensures
        number(b) == number(a) + 1,
    decreases a.len(),
{
    if k == a.len() - 1 {
        assert(a.drop_last() =~= b.drop_last());
    } else {
        lemma_carry(a.drop_last(), b.drop_last(), k);
    }
}

proof fn lemma_take_step(digits: Seq<u8>, i: int)
    requires
        0 <= i < digits.len(),
        is_symbol(digits[i]),
    ensures
        number(digits.take(i + 1)) == number(digits.take(i)) * 36 + symbol_value(digits[i]),
        number(digits.take(i + 1)) > 0 ==> name_of(number(digits.take(i + 1))) == name_of(
            number(digits.take(i)),
        ).push(symbol(symbol_value(digits[i]))),
{
    assert(digits.take(i + 1).drop_last() =~= digits.take(i));
    let v = number(digits.take(i));
    let d = symbol_value(digits[i]);
    assert((v * 36 + d) / 36 == v);
    assert((v * 36 + d) % 36 == d);
}

/// A counter of eight symbols that hands out the names of 1, 2, 3 and so on.
pub struct NameCounter {
    count: [u8; 8],
}

impl NameCounter {
    #[verifier::type_invariant]
    spec fn symbols_only(self) -> bool {
        forall|i: int| 0 <= i < 8 ==> is_symbol(#[trigger] self.count@[i])
    }

    /// The number of the name handed out last, zero before the first.
    pub closed spec fn value(self) -> nat {
        number(self.count@)
    }

    /// A counter that has handed out nothing yet.
    pub fn new() -> (c: Self)
        ensures
            c.value() == 0,
    {
        let c = NameCounter { count: [48u8;8] };
        proof {
            reveal_with_fuel(number, 9);
        }
        c
    }

    /// The next name, or `None` once all names below [`LIMIT`] are used up;
    /// from then on the counter stays as it is.
    pub fn next(&mut self) -> (r: Option<String>)
        ensures
            old(self).value() + 1 < LIMIT ==> final(self).value() == old(self).value() + 1 && r is Some
                && r->0@ == name_of(final(self).value()),
            old(self).value() + 1 >= LIMIT ==> r is None && final(self).value() == old(self).value(),
    {
        proof {
            use_type_invariant(&*self);
            lemma_limit();
            lemma_number_bound(self.count@);
        }
        let mut i: usize = 8;
        while i > 0 && self.count[i - 1] == 122
            invariant
                i <= 8,
                forall|j: int| i <= j < 8 ==> self.count@[j] == 122,
            decreases i,
        {
            i = i - 1;
        }
        if i == 0 {
            return None;
        }
        let ghost before = self.count@;
        let k: usize = i - 1;
        let d: u8 = self.count[k];
        assert(is_symbol(before[k as int]));
        if d == 57 {
            self.count[k] = 97;
        } else {
            self.count[k] = d + 1;
        }
        let mut j: usize = i;
        while j < 8
            invariant
                i <= j <= 8,
                k == i - 1,
                before.len() == 8,
                forall|m: int| 0 <= m < 8 ==> is_symbol(#[trigger] self.count@[m]),
                forall|m: int| 0 <= m < k ==> self.count@[m] == before[m],
                self.count@[k as int] == successor(before[k as int]),
                forall|m: int| i <= m < j ==> self.count@[m] == 48,
                forall|m: int| j <= m < 8 ==> self.count@[m] == before[m],
            decreases 8 - j,
        {
            self.count[j] = 48;
            j = j + 1;
        }
        proof {
            lemma_carry(before, self.count@, k as int);
            lemma_number_bound(self.count@);
        }
        let alphabet = "0123456789abcdefghijklmnopqrstuvwxyz";
        proof {
            reveal_strlit("0123456789abcdefghijklmnopqrstuvwxyz");
        }
        let mut name = String::new();
        let mut p: usize = 0;
        let mut started = false;
        assert(self.count@.take(0) =~= Seq::<u8>::empty());
        while p < 8
            invariant
                p <= 8,
                forall|m: int| 0 <= m < 8 ==> is_symbol(#[trigger] self.count@[m]),
                started == (number(self.count@.take(p as int)) > 0),
                name@ == name_of(number(self.count@.take(p as int))),
                alphabet@.len() == 36,
                forall|x: int| 0 <= x < 36 ==> alphabet@[x] == symbol(x as nat),
            decreases 8 - p,
        {
            let b: u8 = self.count[p];
            proof {
                lemma_take_step(self.count@, p as int);
            }
            if started || b != 48 {
                let x: usize = if b <= 57 {
                    (b - 48) as usize
                } else {
                    (b - 87) as usize
                };
                let piece = alphabet.substring_char(x, x + 1);
                assert(piece@ =~= seq![symbol(x as nat)]);
                name.append(piece);
                assert(name@ =~= name_of(number(self.count@.take(p as int))).push(symbol(x as nat)));
                started = true;
            }
            p = p + 1;
        }
        assert(self.count@.take(8) =~= self.count@);
        Some(name)
    }
}

/// Reading a name back gives the number it was made from.
pub proof fn lemma_name_round_trip(n: nat)
    ensures
        base36(name_of(n)) == n,
    decreases n,
{
    if n > 0 {
        lemma_name_round_trip(n / 36);
        let rest = name_of(n / 36);
        assert(name_of(n).drop_last() =~= rest);
        assert(name_of(n).last() == symbol(n % 36));
        assert(char_value(symbol(n % 36)) == n % 36);
    }
}

/// Names come out in strictly increasing order when read as numbers of base
/// 36: a later name denotes a larger number than every earlier one.
pub proof fn lemma_names_increase(earlier: nat, later: nat)
    requires
        earlier < later,
    ensures
        base36(name_of(earlier)) < base36(name_of(later)),
{
    lemma_name_round_trip(earlier);
    lemma_name_round_trip(later);
}

} // verus!
