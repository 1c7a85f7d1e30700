//! Decimal and hexadecimal text for integers, as `format!` and `str::parse` write and read it.

use vstd::prelude::*;

verus! {

/// The ASCII digit for `d` (`0 <= d < 10`).
pub open spec fn digit_char(d: nat) -> char {
    seq!['0', '1', '2', '3', '4', '5', '6', '7', '8', '9'][d as int]
}

/// The value of an ASCII digit.
pub open spec fn digit_value(c: char) -> int {
    (c as u32) - 48
}

pub proof fn lemma_digit_roundtrip(d: nat)
    requires
        d < 10,
    ensures
        digit_value(digit_char(d)) == d,
        '0' <= digit_char(d) <= '9',
{
    let ghost t = seq!['0', '1', '2', '3', '4', '5', '6', '7', '8', '9'];
    assert(t[0] == '0' && t[1] == '1' && t[2] == '2' && t[3] == '3' && t[4] == '4');
    assert(t[5] == '5' && t[6] == '6' && t[7] == '7' && t[8] == '8' && t[9] == '9');
}

/// The ASCII digit for `d`.
fn digit_to_char(d: u64) -> (c: char)
    requires
        d < 10,
    ensures
        c == digit_char(d as nat),
{
    let ghost t = seq!['0', '1', '2', '3', '4', '5', '6', '7', '8', '9'];
    assert(t[0] == '0' && t[1] == '1' && t[2] == '2' && t[3] == '3' && t[4] == '4');
    assert(t[5] == '5' && t[6] == '6' && t[7] == '7' && t[8] == '8' && t[9] == '9');
    match d {
        0 => '0',
        1 => '1',
        2 => '2',
        3 => '3',
        4 => '4',
        5 => '5',
        6 => '6',
        7 => '7',
        8 => '8',
        _ => '9',
    }
}

/// Decimal digits of `n`, most significant first, without leading zeros.
pub open spec fn dec_digits(n: nat) -> Seq<char>
    decreases n,
{
    if n < 10 {
        seq![digit_char(n)]
    } else {
        dec_digits(n / 10).push(digit_char(n % 10))
    }
}

/// `format!("{}", x)` for a signed integer.
pub open spec fn dec_int(x: int) -> Seq<char> {
    if x < 0 {
        seq!['-'] + dec_digits((-x) as nat)
    } else {
        dec_digits(x as nat)
    }
}

/// `k` copies of `'0'`.
pub open spec fn zeros(k: nat) -> Seq<char> {
    Seq::new(k, |i: int| '0')
}

/// `format!("{:0w$}", x)`: zero padding after the sign up to total width `w`.
pub open spec fn dec_int_padded(x: int, w: nat) -> Seq<char> {
    let digits = if x < 0 {
        dec_digits((-x) as nat)
    } else {
        dec_digits(x as nat)
    };
    let sign: Seq<char> = if x < 0 {
        seq!['-']
    } else {
        Seq::empty()
    };
    let fill: int = w - sign.len() - digits.len();
    if fill > 0 {
        sign + zeros(fill as nat) + digits
    } else {
        sign + digits
    }
}

/// The value of a sequence of decimal digits.
pub open spec fn digits_value(s: Seq<char>) -> int
    decreases s.len(),
{
    if s.len() == 0 {
        0
    } else {
        digits_value(s.drop_last()) * 10 + digit_value(s.last())
    }
}

/// Every character is an ASCII digit.
pub open spec fn all_digits(s: Seq<char>) -> bool {
    forall|i: int| 0 <= i < s.len() ==> '0' <= #[trigger] s[i] <= '9'
}

/// `str::parse::<i64>`: an optional `+` or `-`, then one or more ASCII digits, in range.
pub open spec fn parse_i64_spec(s: Seq<char>) -> Option<i64> {
    let neg = s.len() > 0 && s[0] == '-';
    let signed = s.len() > 0 && (s[0] == '-' || s[0] == '+');
    let digits = if signed {
        s.drop_first()
    } else {
        s
    };
    if digits.len() == 0 || !all_digits(digits) {
        None
    } else {
        let v = if neg {
            -digits_value(digits)
        } else {
            digits_value(digits)
        };
        if i64::MIN <= v <= i64::MAX {
            Some(v as i64)
        } else {
            None
        }
    }
}

pub proof fn lemma_dec_digits_all_digits(n: nat)
    ensures
        all_digits(dec_digits(n)),
        dec_digits(n).len() >= 1,
        digits_value(dec_digits(n)) == n,
    decreases n,
{
    lemma_digit_roundtrip(n % 10);
    if n >= 10 {
        lemma_dec_digits_all_digits(n / 10);
        let d = dec_digits(n);
        assert(d.drop_last() =~= dec_digits(n / 10));
        assert(d.last() == digit_char(n % 10));
        assert(digits_value(d) == digits_value(dec_digits(n / 10)) * 10 + digit_value(digit_char(n % 10)));
        assert((n / 10) * 10 + n % 10 == n);
        assert forall|i: int| 0 <= i < d.len() implies '0' <= #[trigger] d[i] <= '9' by {
            if i < d.len() - 1 {
                assert(d[i] == dec_digits(n / 10)[i]);
            }
        }
    } else {
        lemma_digit_roundtrip(n);
        assert(dec_digits(n).drop_last() =~= Seq::<char>::empty());
        assert(digits_value(Seq::<char>::empty()) == 0);
    }
}

pub proof fn lemma_digits_value_zeros_prefix(k: nat, s: Seq<char>)
    ensures
        digits_value(zeros(k) + s) == digits_value(s),
        all_digits(s) ==> all_digits(zeros(k) + s),
    decreases s.len(), k,
{
    if s.len() == 0 {
        assert(zeros(k) + s =~= zeros(k));
        if k > 0 {
            assert(zeros(k).drop_last() =~= zeros((k - 1) as nat));
            lemma_digits_value_zeros_prefix((k - 1) as nat, s);
            assert(zeros((k - 1) as nat) + s =~= zeros((k - 1) as nat));
        }
    } else {
        assert((zeros(k) + s).drop_last() =~= zeros(k) + s.drop_last());
        lemma_digits_value_zeros_prefix(k, s.drop_last());
    }
    if all_digits(s) {
        assert forall|i: int| 0 <= i < (zeros(k) + s).len() implies '0' <= #[trigger] (zeros(k)
            + s)[i] <= '9' by {
            if i >= k {
                assert((zeros(k) + s)[i] == s[i - k]);
            }
        }
    }
}

/// Decimal digits of `n`.
pub fn u64_digits(n: u64) -> (r: Vec<char>)
    ensures
        r@ == dec_digits(n as nat),
{
    let mut q: u64 = n / 10;
    let mut acc: Vec<char> = Vec::new();
    acc.push(digit_to_char(n % 10));
    assert(acc@ =~= seq![digit_char((n % 10) as nat)]);
    while q > 0
        invariant
            dec_digits(n as nat) == (if q == 0 {
                Seq::<char>::empty()
            } else {
                dec_digits(q as nat)
            }) + acc@,
        decreases q,
    {
        let d = digit_to_char(q % 10);
        let ghost old_acc = acc@;
        acc.insert(0, d);
        assert(acc@ =~= seq![d] + old_acc);
        let ghost qq = q as nat;
        if q >= 10 {
            assert(dec_digits(qq) == dec_digits(qq / 10).push(d));
            assert(dec_digits(qq / 10).push(d) + old_acc =~= dec_digits(qq / 10) + acc@);
        } else {
            assert(dec_digits(qq) + old_acc =~= acc@);
        }
        q = q / 10;
    }
    assert(Seq::<char>::empty() + acc@ =~= acc@);
    acc
}

/// The magnitude of `x` as an unsigned integer.
fn magnitude(x: i64) -> (m: u64)
    ensures
        m as int == if x < 0 {
            -(x as int)
        } else {
            x as int
        },
{
    if x >= 0 {
        x as u64
    } else {
        ((-(x + 1)) as u64) + 1
    }
}

/// `format!("{}", x)`.
pub fn i64_to_dec(x: i64) -> (r: Vec<char>)
    ensures
        r@ == dec_int(x as int),
{
    let m = magnitude(x);
    let d = u64_digits(m);
    if x < 0 {
        let mut r: Vec<char> = Vec::new();
        r.push('-');
        crate::text::append_chars(&mut r, d.as_slice());
        r
    } else {
        d
    }
}

/// `format!("{:0w$}", x)`.
pub fn i64_to_dec_padded(x: i64, w: usize) -> (r: Vec<char>)
    ensures
        r@ == dec_int_padded(x as int, w as nat),
{
    let m = magnitude(x);
    let d = u64_digits(m);
    let mut r: Vec<char> = Vec::new();
    if x < 0 {
        r.push('-');
    }
    if w > r.len() && w - r.len() > d.len() {
        let fill = w - r.len() - d.len();
        let mut i: usize = 0;
        let ghost start = r@;
        while i < fill
            invariant
                i <= fill,
                r@ == start + zeros(i as nat),
            decreases fill - i,
        {
            r.push('0');
            i = i + 1;
            assert(r@ =~= start + zeros(i as nat));
        }
    }
    crate::text::append_chars(&mut r, d.as_slice());
    proof {
        let sign: Seq<char> = if x < 0 {
            seq!['-']
        } else {
            Seq::empty()
        };
        if !(x < 0) {
            assert(r@ =~= dec_int_padded(x as int, w as nat));
        } else {
            assert(r@ =~= dec_int_padded(x as int, w as nat));
        }
    }
    r
}

/// `str::parse::<i64>`.
pub fn parse_i64(v: &[char]) -> (r: Option<i64>)
    ensures
        r == parse_i64_spec(v@),
{
    if v.len() == 0 {
        return None;
    }
    let neg = v[0] == '-';
    let signed = v[0] == '-' || v[0] == '+';
    let start: usize = if signed {
        1
    } else {
        0
    };
    let ghost digits = if signed {
        v@.drop_first()
    } else {
        v@
    };
    assert(digits =~= v@.subrange(start as int, v@.len() as int));
    if start == v.len() {
        return None;
    }
    // Values above 2^63 cannot fit either sign, so the running value is capped there.
    let limit: u128 = 9223372036854775808u128;
    let mut acc: u128 = 0;
    let mut over = false;
    let mut i: usize = start;
    while i < v.len()
        invariant
            start <= i <= v@.len(),
            digits == v@.subrange(start as int, v@.len() as int),
            all_digits(v@.subrange(start as int, i as int)),
            !over ==> acc == digits_value(v@.subrange(start as int, i as int)),
            limit == 9223372036854775808u128,
            acc <= limit,
            v@.len() > 0,
            signed == (v@[0] == '-' || v@[0] == '+'),
            neg == (v@[0] == '-'),
            digits == (if signed {
                v@.drop_first()
            } else {
                v@
            }),
            over ==> digits_value(v@.subrange(start as int, i as int)) > limit,
        decreases v@.len() - i,
    {
        let c = v[i];
        if !('0' <= c && c <= '9') {
            assert(digits[i - start] == c);
            assert(!all_digits(digits));
            return None;
        }
        let ghost pre = v@.subrange(start as int, i as int);
        let ghost nxt = v@.subrange(start as int, i + 1);
        assert(nxt.drop_last() =~= pre);
        assert(nxt.last() == c);
        assert(all_digits(nxt)) by {
            assert forall|k: int| 0 <= k < nxt.len() implies '0' <= #[trigger] nxt[k] <= '9' by {
                if k < nxt.len() - 1 {
                    assert(nxt[k] == pre[k]);
                }
            }
        }
        proof {
            lemma_digits_value_nonneg(pre);
        }
        if !over {
            let dv = (c as u32 - 48) as u128;
            let next = acc * 10 + dv;
            if next > limit {
                over = true;
            } else {
                acc = next;
            }
        }
        i = i + 1;
    }
    assert(v@.subrange(start as int, v@.len() as int) == digits);
    assert(i == v@.len());
    if over {
        assert(digits_value(digits) > 9223372036854775808);
        assert(all_digits(digits));
        return None;
    }
    if neg {
        if acc == limit {
            Some(-9223372036854775807i64 - 1)
        } else {
            Some(-(acc as i64))
        }
    } else {
        if acc == limit {
            None
        } else {
            Some(acc as i64)
        }
    }
}

pub proof fn lemma_digits_value_nonneg(s: Seq<char>)
    requires
        all_digits(s),
    ensures
        digits_value(s) >= 0,
    decreases s.len(),
{
    if s.len() > 0 {
        assert(all_digits(s.drop_last())) by {
            assert forall|k: int| 0 <= k < s.drop_last().len() implies '0'
                <= #[trigger] s.drop_last()[k] <= '9' by {
                assert(s.drop_last()[k] == s[k]);
            }
        }
        lemma_digits_value_nonneg(s.drop_last());
        assert('0' <= s[s.len() - 1] <= '9');
    }
}

/// The lowercase hexadecimal digit for `d` (`0 <= d < 16`).
pub open spec fn hex_char(d: nat) -> char {
    seq!['0', '1', '2', '3', '4', '5', '6', '7', '8', '9', 'a', 'b', 'c', 'd', 'e', 'f'][d as int]
}

/// The lowercase hexadecimal digit for `d`.
fn hex_digit_to_char(d: u64) -> (c: char)
    requires
        d < 16,
    ensures
        c == hex_char(d as nat),
{
    let ghost t = seq!['0', '1', '2', '3', '4', '5', '6', '7', '8', '9', 'a', 'b', 'c', 'd', 'e', 'f'];
    assert(t[0] == '0' && t[1] == '1' && t[2] == '2' && t[3] == '3' && t[4] == '4');
    assert(t[5] == '5' && t[6] == '6' && t[7] == '7' && t[8] == '8' && t[9] == '9');
    assert(t[10] == 'a' && t[11] == 'b' && t[12] == 'c' && t[13] == 'd' && t[14] == 'e');
    assert(t[15] == 'f');
    match d {
        0 => '0',
        1 => '1',
        2 => '2',
        3 => '3',
        4 => '4',
        5 => '5',
        6 => '6',
        7 => '7',
        8 => '8',
        9 => '9',
        10 => 'a',
        11 => 'b',
        12 => 'c',
        13 => 'd',
        14 => 'e',
        _ => 'f',
    }
}

/// The last `n` hexadecimal digits of `h`, most significant first (`format!("{:0nx}")`).
pub open spec fn hex_digits(h: nat, n: nat) -> Seq<char>
    decreases n,
{
    if n == 0 {
        Seq::empty()
    } else {
        hex_digits(h / 16, (n - 1) as nat).push(hex_char(h % 16))
    }
}

/// `format!("{:016x}", h)`.
pub fn u64_hex16(h: u64) -> (r: Vec<char>)
    ensures
        r@ == hex_digits(h as nat, 16),
{
    let mut r: Vec<char> = Vec::new();
    let mut q: u64 = h;
    let mut k: usize = 0;
    while k < 16
        invariant
            k <= 16,
            hex_digits(h as nat, 16) == hex_digits(q as nat, (16 - k) as nat) + r@,
        decreases 16 - k,
    {
        let c = hex_digit_to_char(q % 16);
        let ghost old_r = r@;
        r.insert(0, c);
        assert(hex_digits(q as nat, (16 - k) as nat) == hex_digits((q / 16) as nat, (16 - k - 1) as nat).push(c));
        assert(hex_digits((q / 16) as nat, (16 - k - 1) as nat).push(c) + old_r =~= hex_digits((q / 16) as nat, (16 - k - 1) as nat) + r@);
        q = q / 16;
        k = k + 1;
    }
    assert(Seq::<char>::empty() + r@ =~= r@);
    r
}

} // verus!
