//! Decimal numbers and character search over text.
use vstd::prelude::*;

verus! {

/// Relies on String::push: the character is appended.
#[verifier::external_body]
pub(crate) fn push_char(s: &mut String, c: char)
    ensures
        final(s)@ == old(s)@.push(c),
{
    s.push(c)
}

/// The characters of a string, one by one.
pub fn chars_of(s: &str) -> (r: Vec<char>)
    ensures
        r@ == s@,
{
    let n = s.unicode_len();
    let mut r: Vec<char> = Vec::new();
    let mut i: usize = 0;
    while i < n
        invariant
            n == s@.len(),
            i <= n,
            r@ == s@.subrange(0, i as int),
        decreases n - i,
    {
        r.push(s.get_char(i));
        i = i + 1;
    }
    assert(r@ =~= s@);
    r
}

pub open spec fn is_digit_char(c: char) -> bool {
    '0' as u32 <= c as u32 <= '9' as u32
}

pub open spec fn digit_value(c: char) -> int {
    c as u32 - '0' as u32
}

/// The decimal digit for a value below ten.
pub open spec fn digit_char(n: int) -> char {
    seq!['0', '1', '2', '3', '4', '5', '6', '7', '8', '9'][n]
}

/// The number that a run of decimal digits stands for.
pub open spec fn decimal_value(t: Seq<char>) -> nat
    decreases t.len(),
{
    if t.len() == 0 {
        0
    } else {
        (decimal_value(t.drop_last()) * 10 + digit_value(t.last())) as nat
    }
}

/// At least one digit, nothing else, and a value that fits in 64 bits.
pub open spec fn is_u64_text(t: Seq<char>) -> bool {
    &&& t.len() > 0
    &&& forall|i: int| 0 <= i < t.len() ==> is_digit_char(#[trigger] t[i])
    &&& decimal_value(t) <= u64::MAX
}

/// The shortest decimal text of a number.
pub open spec fn decimal_text(n: nat) -> Seq<char>
    decreases n,
{
    if n < 10 {
        seq![digit_char(n as int)]
    } else {
        decimal_text(n / 10).push(digit_char((n % 10) as int))
    }
}

/// `k` is the first place where `c` stands in `s`.
pub open spec fn is_first_index(s: Seq<char>, c: char, k: int) -> bool {
    &&& 0 <= k < s.len()
    &&& s[k] == c
    &&& forall|j: int| 0 <= j < k ==> s[j] != c
}

/// The first place where `c` stands in `s`, or -1.
pub open spec fn first_index(s: Seq<char>, c: char) -> int {
    if exists|k: int| is_first_index(s, c, k) {
        choose|k: int| is_first_index(s, c, k)
    } else {
        -1
    }
}

pub proof fn lemma_first_index_unique(s: Seq<char>, c: char, k: int)
    requires
        is_first_index(s, c, k),
    ensures
        first_index(s, c) == k,
{
    let j = first_index(s, c);
    assert(is_first_index(s, c, j));
    if j < k {
        assert(s[j] != c);
    } else if k < j {
        assert(s[k] != c);
    }
}

pub proof fn lemma_first_index_absent(s: Seq<char>, c: char)
    requires
        forall|j: int| 0 <= j < s.len() ==> s[j] != c,
    ensures
        first_index(s, c) == -1,
{
    if exists|k: int| is_first_index(s, c, k) {
        let k = choose|k: int| is_first_index(s, c, k);
        assert(s[k] == c);
    }
}

/// Where `c` first stands in `s[from..]`, as an index of `s`.
pub fn find_char(s: &Vec<char>, from: usize, c: char) -> (r: Option<usize>)
    requires
        from <= s@.len(),
    ensures
        r matches Some(k) ==> from <= k && first_index(s@.subrange(from as int, s@.len() as int), c)
            == k - from,
        r is None ==> first_index(s@.subrange(from as int, s@.len() as int), c) == -1,
{
    let ghost t = s@.subrange(from as int, s@.len() as int);
    let mut i: usize = from;
    while i < s.len()
        invariant
            from <= i <= s@.len(),
            t == s@.subrange(from as int, s@.len() as int),
            forall|j: int| 0 <= j < i - from ==> t[j] != c,
        decreases s@.len() - i,
    {
        if s[i] == c {
            proof {
                lemma_first_index_unique(t, c, i - from);
            }
            return Some(i);
        }
        i = i + 1;
    }
    proof {
        lemma_first_index_absent(t, c);
    }
    None
}

/// A longer run of digits is worth at least as much as its start.
proof fn lemma_decimal_prefix_grows(t: Seq<char>, m: int)
    requires
        0 <= m <= t.len(),
        forall|i: int| 0 <= i < t.len() ==> is_digit_char(#[trigger] t[i]),
    ensures
        decimal_value(t.subrange(0, m)) <= decimal_value(t),
    decreases t.len(),
{
    if m < t.len() {
        let q = t.drop_last();
        assert(q.subrange(0, m) =~= t.subrange(0, m));
        assert(forall|i: int| 0 <= i < q.len() ==> q[i] == t[i]);
        lemma_decimal_prefix_grows(q, m);
        assert(is_digit_char(t[t.len() - 1]));
    } else {
        assert(t.subrange(0, m) =~= t);
    }
}

/// The value of the digits in `s[from..to]`, or `None` when they are not a 64-bit number.
pub fn parse_u64(s: &Vec<char>, from: usize, to: usize) -> (r: Option<u64>)
    requires
        from <= to <= s@.len(),
    ensures
        r is Some <==> is_u64_text(s@.subrange(from as int, to as int)),
        r matches Some(v) ==> v == decimal_value(s@.subrange(from as int, to as int)),
{
    let ghost t = s@.subrange(from as int, to as int);
    if from == to {
        return None;
    }
    let mut v: u64 = 0;
    let mut i: usize = from;
    while i < to
        invariant
            from <= i <= to <= s@.len(),
            t == s@.subrange(from as int, to as int),
            forall|j: int| 0 <= j < i - from ==> is_digit_char(#[trigger] t[j]),
            v == decimal_value(t.subrange(0, i - from)),
        decreases to - i,
    {
        let c = s[i];
        if (c as u32) < ('0' as u32) || (c as u32) > ('9' as u32) {
            assert(!is_digit_char(t[i - from]));
            return None;
        }
        let d = (c as u32 - '0' as u32) as u64;
        let ghost p = t.subrange(0, i - from + 1);
        assert(p.drop_last() =~= t.subrange(0, i - from));
        assert(p.last() == c);
        if v > (u64::MAX - d) / 10 {
            proof {
                assert(decimal_value(p) == v * 10 + d);
                assert(v * 10 + d > u64::MAX) by (nonlinear_arith)
                    requires
                        v > (u64::MAX - d) / 10,
                        d <= 9,
                ;
                if forall|j: int| 0 <= j < t.len() ==> is_digit_char(#[trigger] t[j]) {
                    lemma_decimal_prefix_grows(t, i - from + 1);
                }
            }
            return None;
        }
        v = v * 10 + d;
        i = i + 1;
    }
    assert(t.subrange(0, t.len() as int) =~= t);
    Some(v)
}

/// Appends the decimal digits of `n`.
pub fn push_decimal(s: &mut String, n: u64)
    ensures
        final(s)@ == old(s)@ + decimal_text(n as nat),
    decreases n,
{
    if n >= 10 {
        push_decimal(s, n / 10);
    }
    let d = n % 10;
    let c = if d == 0 { '0' } else if d == 1 { '1' } else if d == 2 { '2' } else if d == 3 {
        '3'
    } else if d == 4 { '4' } else if d == 5 { '5' } else if d == 6 { '6' } else if d == 7 {
        '7'
    } else if d == 8 { '8' } else { '9' };
    push_char(s, c);
    assert(final(s)@ =~= old(s)@ + decimal_text(n as nat));
}

proof fn lemma_digit_char(n: int)
    requires
        0 <= n < 10,
    ensures
        is_digit_char(digit_char(n)),
        digit_value(digit_char(n)) == n,
{
    let ds = seq!['0', '1', '2', '3', '4', '5', '6', '7', '8', '9'];
    assert(digit_char(n) == ds[n]);
    if n == 0 {
        assert(ds[0] == '0');
    } else if n == 1 {
        assert(ds[1] == '1');
    } else if n == 2 {
        assert(ds[2] == '2');
    } else if n == 3 {
        assert(ds[3] == '3');
    } else if n == 4 {
        assert(ds[4] == '4');
    } else if n == 5 {
        assert(ds[5] == '5');
    } else if n == 6 {
        assert(ds[6] == '6');
    } else if n == 7 {
        assert(ds[7] == '7');
    } else if n == 8 {
        assert(ds[8] == '8');
    } else {
        assert(ds[9] == '9');
    }
}

/// Decimal text reads back as the number it was made from.
pub proof fn lemma_decimal_round_trip(n: nat)
    requires
        n <= u64::MAX,
    ensures
        is_u64_text(decimal_text(n)),
        decimal_value(decimal_text(n)) == n,
        decimal_text(n).len() > 0,
    decreases n,
{
    let t = decimal_text(n);
    if n < 10 {
        lemma_digit_char(n as int);
        assert(t == seq![digit_char(n as int)]);
        assert(t.drop_last() =~= Seq::<char>::empty());
        assert(decimal_value(t.drop_last()) == 0);
        assert(t.last() == digit_char(n as int));
    } else {
        lemma_digit_char((n % 10) as int);
        lemma_decimal_round_trip(n / 10);
        let h = decimal_text(n / 10);
        assert(t == h.push(digit_char((n % 10) as int)));
        assert(t.drop_last() =~= h);
        assert(t.last() == digit_char((n % 10) as int));
        assert forall|i: int| 0 <= i < t.len() implies is_digit_char(#[trigger] t[i]) by {
            if i < h.len() {
                assert(t[i] == h[i]);
            }
        }
    }
}

/// Whether two byte strings are equal.
pub fn bytes_equal(a: &Vec<u8>, b: &Vec<u8>) -> (r: bool)
    ensures
        r == (a@ == b@),
{
    if a.len() != b.len() {
        return false;
    }
    let mut i: usize = 0;
    while i < a.len()
        invariant
            a@.len() == b@.len(),
            i <= a@.len(),
            forall|j: int| 0 <= j < i ==> a@[j] == b@[j],
        decreases a@.len() - i,
    {
        if a[i] != b[i] {
            return false;
        }
        i = i + 1;
    }
    assert(a@ =~= b@);
    true
}

/// The low `k` decimal digits of a number, most significant first, zeros kept.
pub open spec fn fixed_digits(n: nat, k: nat) -> Seq<char>
    decreases k,
{
    if k == 0 {
        Seq::empty()
    } else {
        fixed_digits(n / 10, (k - 1) as nat).push(digit_char((n % 10) as int))
    }
}

/// Appends the low `k` decimal digits of `n`, zeros kept.
pub fn push_fixed_digits(s: &mut String, n: u64, k: usize)
    ensures
        final(s)@ == old(s)@ + fixed_digits(n as nat, k as nat),
    decreases k,
{
    if k > 0 {
        push_fixed_digits(s, n / 10, k - 1);
        let d = n % 10;
        let c = if d == 0 { '0' } else if d == 1 { '1' } else if d == 2 { '2' } else if d == 3 {
            '3'
        } else if d == 4 { '4' } else if d == 5 { '5' } else if d == 6 { '6' } else if d == 7 {
            '7'
        } else if d == 8 { '8' } else { '9' };
        push_char(s, c);
    }
    assert(final(s)@ =~= old(s)@ + fixed_digits(n as nat, k as nat));
}

/// 10 to the `k`.
pub open spec fn pow10(k: nat) -> nat
    decreases k,
{
    if k == 0 {
        1
    } else {
        10 * pow10((k - 1) as nat)
    }
}

/// `k` fixed digits read back as the number modulo 10 to the `k`.
pub proof fn lemma_fixed_digits(n: nat, k: nat)
    ensures
        fixed_digits(n, k).len() == k,
        forall|i: int| 0 <= i < k ==> is_digit_char(#[trigger] fixed_digits(n, k)[i]),
        decimal_value(fixed_digits(n, k)) == n % pow10(k),
    decreases k,
{
    let t = fixed_digits(n, k);
    if k == 0 {
        assert(n % 1 == 0);
    } else {
        lemma_fixed_digits(n / 10, (k - 1) as nat);
        lemma_digit_char((n % 10) as int);
        let h = fixed_digits(n / 10, (k - 1) as nat);
        assert(t == h.push(digit_char((n % 10) as int)));
        assert(t.drop_last() =~= h);
        assert forall|i: int| 0 <= i < k implies is_digit_char(#[trigger] t[i]) by {
            if i < k - 1 {
                assert(t[i] == h[i]);
            }
        }
        let p = pow10((k - 1) as nat);
        assert(p > 0) by {
            lemma_pow10_positive((k - 1) as nat);
        }
        vstd::arithmetic::div_mod::lemma_breakdown(n as int, 10, p as int);
        assert(decimal_value(t) == (n / 10) % p * 10 + n % 10);
        assert(10 * ((n as int / 10) % (p as int)) == (n / 10) % p * 10);
    }
}

proof fn lemma_pow10_positive(k: nat)
    ensures
        pow10(k) > 0,
    decreases k,
{
    if k > 0 {
        lemma_pow10_positive((k - 1) as nat);
    }
}

} // verus!
