//! Character-level helpers: splitting on a separator, the prefix before a
//! space, and decimal rendering of integers.

use vstd::prelude::*;

verus! {

/// The characters of `s` before the first `c` (all of `s` when there is none).
pub open spec fn take_until(s: Seq<char>, c: char) -> Seq<char>
    decreases s.len(),
{
    if s.len() == 0 {
        s
    } else if s[0] == c {
        Seq::empty()
    } else {
        seq![s[0]] + take_until(s.drop_first(), c)
    }
}

/// The characters of `s` after its first `c`, or `None` when `c` does not occur.
pub open spec fn after_first(s: Seq<char>, c: char) -> Option<Seq<char>>
    decreases s.len(),
{
    if s.len() == 0 {
        None
    } else if s[0] == c {
        Some(s.drop_first())
    } else {
        after_first(s.drop_first(), c)
    }
}

/// The `k`-th piece (counting from 0) of `s` split at every `c`, as
/// `str::split(c).nth(k)` yields it.
pub open spec fn nth_piece(s: Seq<char>, c: char, k: nat) -> Option<Seq<char>>
    decreases k,
{
    if k == 0 {
        Some(take_until(s, c))
    } else {
        match after_first(s, c) {
            Some(rest) => nth_piece(rest, c, (k - 1) as nat),
            None => None,
        }
    }
}

proof fn lemma_first_occurrence(s: Seq<char>, c: char, i: int)
    requires
        0 <= i < s.len(),
        s[i] == c,
        forall|j: int| 0 <= j < i ==> s[j] != c,
    ensures
        take_until(s, c) == s.take(i),
        after_first(s, c) == Some(s.skip(i + 1)),
    decreases i,
{
    if i > 0 {
        let t = s.drop_first();
        assert forall|j: int| 0 <= j < i - 1 implies t[j] != c by {
            assert(t[j] == s[j + 1]);
        }
        lemma_first_occurrence(t, c, i - 1);
        assert(s.take(i) =~= seq![s[0]] + t.take(i - 1));
        assert(s.skip(i + 1) =~= t.skip(i));
    } else {
        assert(s.take(0) =~= Seq::<char>::empty());
        assert(s.skip(1) =~= s.drop_first());
    }
}

proof fn lemma_no_occurrence(s: Seq<char>, c: char)
    requires
        forall|j: int| 0 <= j < s.len() ==> s[j] != c,
    ensures
        take_until(s, c) == s,
        after_first(s, c) is None,
    decreases s.len(),
{
    if s.len() > 0 {
        let t = s.drop_first();
        assert forall|j: int| 0 <= j < t.len() implies t[j] != c by {
            assert(t[j] == s[j + 1]);
        }
        lemma_no_occurrence(t, c);
        assert(s =~= seq![s[0]] + t);
    }
}

/// Index (in characters) of the first `c` in `s`.
fn first_index_of(s: &str, c: char) -> (r: Option<usize>)
    ensures
        match r {
            Some(i) => {
                &&& i < s@.len()
                &&& s@[i as int] == c
                &&& forall|j: int| 0 <= j < i ==> s@[j] != c
            },
            None => forall|j: int| 0 <= j < s@.len() ==> s@[j] != c,
        },
{
    let n = s.unicode_len();
    let mut i: usize = 0;
    while i < n
        invariant
            n == s@.len(),
            i <= n,
            forall|j: int| 0 <= j < i ==> s@[j] != c,
        decreases n - i,
    {
        if s.get_char(i) == c {
            return Some(i);
        }
        i = i + 1;
    }
    None
}

/// The `k`-th piece of `s` split at `sep`, exactly as `s.split(sep).nth(k)`.
pub fn split_piece(s: &str, sep: char, k: usize) -> (r: Option<String>)
    ensures
        r.deep_view() == nth_piece(s@, sep, k as nat),
{
    let mut rest: &str = s;
    let mut left: usize = k;
    while left > 0
        invariant
            nth_piece(rest@, sep, left as nat) == nth_piece(s@, sep, k as nat),
        decreases left,
    {
        match first_index_of(rest, sep) {
            Some(i) => {
                proof {
                    lemma_first_occurrence(rest@, sep, i as int);
                }
                let n = rest.unicode_len();
                let next = rest.substring_char(i + 1, n);
                assert(next@ =~= rest@.skip(i + 1));
                rest = next;
                left = left - 1;
            },
            None => {
                proof {
                    lemma_no_occurrence(rest@, sep);
                }
                return None;
            },
        }
    }
    match first_index_of(rest, sep) {
        Some(i) => {
            proof {
                lemma_first_occurrence(rest@, sep, i as int);
            }
            let head = rest.substring_char(0, i);
            assert(head@ =~= rest@.take(i as int));
            Some(String::from_str(head))
        },
        None => {
            proof {
                lemma_no_occurrence(rest@, sep);
            }
            Some(String::from_str(rest))
        },
    }
}

/// The characters before the first `c`, when `c` occurs in `s`.
pub open spec fn text_before(s: Seq<char>, c: char) -> Option<Seq<char>> {
    if after_first(s, c) is Some {
        Some(take_until(s, c))
    } else {
        None
    }
}

/// The number part of a PROTON amount such as `"12.5000 FREEOS"`: the text
/// before the first space, or `None` when the amount holds no space.
pub fn amount_text(amount: &str) -> (r: Option<String>)
    ensures
        r.deep_view() == text_before(amount@, ' '),
{
    match first_index_of(amount, ' ') {
        Some(i) => {
            proof {
                lemma_first_occurrence(amount@, ' ', i as int);
            }
            let head = amount.substring_char(0, i);
            assert(head@ =~= amount@.take(i as int));
            Some(String::from_str(head))
        },
        None => {
            proof {
                lemma_no_occurrence(amount@, ' ');
            }
            None
        },
    }
}

/// The decimal digit for `d`, which is below ten.
pub open spec fn digit_char(d: nat) -> char {
    if d == 0 {
        '0'
    } else if d == 1 {
        '1'
    } else if d == 2 {
        '2'
    } else if d == 3 {
        '3'
    } else if d == 4 {
        '4'
    } else if d == 5 {
        '5'
    } else if d == 6 {
        '6'
    } else if d == 7 {
        '7'
    } else if d == 8 {
        '8'
    } else {
        '9'
    }
}

/// The decimal rendering of `n`, without sign or leading zeros, as `{}` prints it.
pub open spec fn decimal(n: nat) -> Seq<char>
    decreases n,
{
    if n < 10 {
        seq![digit_char(n)]
    } else {
        decimal(n / 10) + seq![digit_char(n % 10)]
    }
}

fn digit_str(d: u64) -> (r: &'static str)
    requires
        d < 10,
    ensures
        r@ == seq![digit_char(d as nat)],
{
    if d == 0 {
        proof {
            reveal_strlit("0");
        }
        "0"
    } else if d == 1 {
        proof {
            reveal_strlit("1");
        }
        "1"
    } else if d == 2 {
        proof {
            reveal_strlit("2");
        }
        "2"
    } else if d == 3 {
        proof {
            reveal_strlit("3");
        }
        "3"
    } else if d == 4 {
        proof {
            reveal_strlit("4");
        }
        "4"
    } else if d == 5 {
        proof {
            reveal_strlit("5");
        }
        "5"
    } else if d == 6 {
        proof {
            reveal_strlit("6");
        }
        "6"
    } else if d == 7 {
        proof {
            reveal_strlit("7");
        }
        "7"
    } else if d == 8 {
        proof {
            reveal_strlit("8");
        }
        "8"
    } else {
        proof {
            reveal_strlit("9");
        }
        "9"
    }
}

/// `n` written in decimal, as `format!("{}", n)` writes it.
pub fn decimal_text(n: u64) -> (r: String)
    ensures
        r@ == decimal(n as nat),
    decreases n,
{
    if n < 10 {
        String::from_str(digit_str(n))
    } else {
        let mut s = decimal_text(n / 10);
        s.append(digit_str(n % 10));
        s
    }
}

/// Is `ch` one of the ten decimal digits?
pub open spec fn is_digit(ch: char) -> bool {
    '0' <= ch <= '9'
}

/// A decimal rendering is never empty, holds digits only, and starts with
/// `0` only when it is the rendering of zero.
pub proof fn law_decimal_is_canonical(n: nat)
    ensures
        decimal(n).len() >= 1,
        forall|i: int| 0 <= i < decimal(n).len() ==> is_digit(#[trigger] decimal(n)[i]),
        decimal(n)[0] == '0' <==> n == 0,
    decreases n,
{
    if n >= 10 {
        law_decimal_is_canonical(n / 10);
        let d = decimal(n / 10);
        assert forall|i: int| 0 <= i < decimal(n).len() implies is_digit(#[trigger] decimal(n)[i]) by {
            if i < d.len() {
                assert(decimal(n)[i] == d[i]);
            }
        }
        assert(decimal(n)[0] == d[0]);
    }
}

/// A piece of a text split at `c` never contains `c`.
pub proof fn law_piece_has_no_separator(s: Seq<char>, c: char, k: nat)
    ensures
        nth_piece(s, c, k) matches Some(p) ==> !p.contains(c),
    decreases k,
{
    if k == 0 {
        lemma_take_until_has_no_separator(s, c);
    } else if let Some(rest) = after_first(s, c) {
        law_piece_has_no_separator(rest, c, (k - 1) as nat);
    }
}

proof fn lemma_take_until_has_no_separator(s: Seq<char>, c: char)
    ensures
        !take_until(s, c).contains(c),
    decreases s.len(),
{
    if s.len() > 0 && s[0] != c {
        lemma_take_until_has_no_separator(s.drop_first(), c);
        let t = take_until(s.drop_first(), c);
        assert forall|i: int| 0 <= i < take_until(s, c).len() implies take_until(s, c)[i] != c by {
            if i > 0 {
                assert(take_until(s, c)[i] == t[i - 1]);
            }
        }
    } else if s.len() > 0 {
        assert(take_until(s, c) =~= Seq::<char>::empty());
    }
}

proof fn lemma_before_then_separator(s: Seq<char>, c: char)
    ensures
        after_first(s, c) matches Some(rest) ==> s == take_until(s, c) + seq![c] + rest,
    decreases s.len(),
{
    if s.len() > 0 {
        if s[0] == c {
            assert(s =~= Seq::<char>::empty() + seq![c] + s.drop_first());
        } else {
            lemma_before_then_separator(s.drop_first(), c);
            if let Some(rest) = after_first(s, c) {
                assert(s =~= seq![s[0]] + (take_until(s.drop_first(), c) + seq![c] + rest));
            }
        }
    }
}

/// The number part of an amount holds no space, and the amount starts with it
/// followed by a space.
pub proof fn law_amount_text_is_prefix(amount: Seq<char>)
    ensures
        text_before(amount, ' ') matches Some(head) ==> {
            &&& !head.contains(' ')
            &&& amount.take(head.len() as int + 1) == head.push(' ')
        },
{
    lemma_take_until_has_no_separator(amount, ' ');
    lemma_before_then_separator(amount, ' ');
    if let Some(rest) = after_first(amount, ' ') {
        let head = take_until(amount, ' ');
        assert(amount.take(head.len() as int + 1) =~= head.push(' '));
    }
}

/// Whether two texts hold the same characters.
pub fn text_equals(a: &str, b: &str) -> (r: bool)
    ensures
        r == (a@ == b@),
{
    let n = a.unicode_len();
    if n != b.unicode_len() {
        return false;
    }
    let mut i: usize = 0;
    while i < n
        invariant
            n == a@.len(),
            n == b@.len(),
            i <= n,
            forall|j: int| 0 <= j < i ==> a@[j] == b@[j],
        decreases n - i,
    {
        if a.get_char(i) != b.get_char(i) {
            return false;
        }
        i = i + 1;
    }
    assert(a@ =~= b@);
    true
}

/// The number a string of decimal digits stands for, most significant first.
pub open spec fn digits_value(s: Seq<char>) -> int
    decreases s.len(),
{
    if s.len() == 0 {
        0
    } else {
        digits_value(s.drop_last()) * 10 + ((s.last() as int) - ('0' as int))
    }
}

/// A decimal rendering reads back as the number it renders, and has no more
/// digits than needed: every rendering of a number at least ten is the
/// rendering of its tenth followed by its last digit.
pub proof fn law_decimal_reads_back(n: nat)
    ensures
        digits_value(decimal(n)) == n,
        n >= 10 ==> decimal(n).len() == decimal(n / 10).len() + 1,
        n < 10 ==> decimal(n).len() == 1,
    decreases n,
{
    if n < 10 {
        assert(decimal(n).drop_last() =~= Seq::<char>::empty());
        assert((digit_char(n) as int) - ('0' as int) == n);
        assert(digits_value(Seq::<char>::empty()) == 0);
        assert(digits_value(decimal(n)) == digits_value(decimal(n).drop_last()) * 10 + ((decimal(
            n,
        ).last() as int) - ('0' as int)));
    } else {
        law_decimal_reads_back(n / 10);
        let d = n % 10;
        assert(decimal(n).drop_last() =~= decimal(n / 10));
        assert((digit_char(d) as int) - ('0' as int) == d);
        assert(decimal(n).last() == digit_char(d));
        assert((n / 10) * 10 + d == n);
        assert(digits_value(decimal(n)) == digits_value(decimal(n).drop_last()) * 10 + ((decimal(
            n,
        ).last() as int) - ('0' as int)));
    }
}

/// The number part of an amount is there exactly when the amount holds a
/// space, and then it is the text before the first space.
pub proof fn law_text_before_first(s: Seq<char>, c: char)
    ensures
        text_before(s, c) is Some <==> s.contains(c),
        forall|i: int|
            0 <= i < s.len() && s[i] == c && (forall|j: int| 0 <= j < i ==> s[j] != c)
                ==> text_before(s, c) == Some(s.take(i)),
{
    if s.contains(c) {
        let k = choose|k: int| 0 <= k < s.len() && s[k] == c;
        let i = first_index(s, c, k);
        lemma_first_occurrence(s, c, i);
        assert forall|i2: int|
            0 <= i2 < s.len() && s[i2] == c && (forall|j: int| 0 <= j < i2 ==> s[j] != c)
                implies text_before(s, c) == Some(s.take(i2)) by {
            if i2 < i {
                assert(s[i2] != c);
            } else if i2 > i {
                assert(s[i] != c);
            }
        }
    } else {
        assert forall|j: int| 0 <= j < s.len() implies s[j] != c by {
            if s[j] == c {
                assert(s.contains(c));
            }
        }
        lemma_no_occurrence(s, c);
    }
}

/// The first position of `c` at or before `k`, where `s[k] == c`.
proof fn first_index(s: Seq<char>, c: char, k: int) -> (i: int)
    requires
        0 <= k < s.len(),
        s[k] == c,
    ensures
        0 <= i <= k,
        s[i] == c,
        forall|j: int| 0 <= j < i ==> s[j] != c,
    decreases k,
{
    if exists|j: int| 0 <= j < k && s[j] == c {
        let j = choose|j: int| 0 <= j < k && s[j] == c;
        first_index(s, c, j)
    } else {
        k
    }
}

/// The pieces of a text split at `c`: the first piece is the text before the
/// first `c` (all of it when there is none); each later piece is a piece of
/// the text after the first `c`; there is no later piece without a `c`.
pub proof fn law_pieces_of_split(s: Seq<char>, c: char, k: nat)
    ensures
        forall|i: int|
            0 <= i < s.len() && s[i] == c && (forall|j: int| 0 <= j < i ==> s[j] != c) ==> {
                &&& nth_piece(s, c, 0) == Some(s.take(i))
                &&& nth_piece(s, c, k + 1) == nth_piece(s.skip(i + 1), c, k)
            },
        !s.contains(c) ==> nth_piece(s, c, 0) == Some(s) && nth_piece(s, c, k + 1) is None,
{
    assert forall|i: int|
        0 <= i < s.len() && s[i] == c && (forall|j: int| 0 <= j < i ==> s[j] != c) implies {
        &&& nth_piece(s, c, 0) == Some(s.take(i))
        &&& nth_piece(s, c, k + 1) == nth_piece(s.skip(i + 1), c, k)
    } by {
        lemma_first_occurrence(s, c, i);
    }
    if !s.contains(c) {
        assert forall|j: int| 0 <= j < s.len() implies s[j] != c by {
            if s[j] == c {
                assert(s.contains(c));
            }
        }
        lemma_no_occurrence(s, c);
    }
}

} // verus!
