//! Verified text utilities: decimal rendering of replica indices, parsing a
//! decimal index back out of a pod name, and small string helpers shared by
//! the other modules.

use vstd::prelude::*;

verus! {

/// The canonical decimal digit for a value below ten.
pub open spec fn digit_char(d: nat) -> char {
    if d == 0 {
        '0'
    } else if d == 1 {
        '1'
    } else if d == 2 {
        '2'
    } else if d == 3 {
        '3'
    } else if d == 4 {
        '4'
    } else if d == 5 {
        '5'
    } else if d == 6 {
        '6'
    } else if d == 7 {
        '7'
    } else if d == 8 {
        '8'
    } else {
        '9'
    }
}

pub open spec fn is_digit(c: char) -> bool {
    c == '0' || c == '1' || c == '2' || c == '3' || c == '4' || c == '5' || c == '6' || c == '7'
        || c == '8' || c == '9'
}

/// The numeric value of a decimal digit; ten for any other character.
pub open spec fn digit_val(c: char) -> nat {
    if c == '0' {
        0
    } else if c == '1' {
        1
    } else if c == '2' {
        2
    } else if c == '3' {
        3
    } else if c == '4' {
        4
    } else if c == '5' {
        5
    } else if c == '6' {
        6
    } else if c == '7' {
        7
    } else if c == '8' {
        8
    } else if c == '9' {
        9
    } else {
        10
    }
}

/// The decimal rendering of a natural number, most significant digit first.
pub open spec fn dec_rep(n: nat) -> Seq<char>
    decreases n,
{
    if n < 10 {
        seq![digit_char(n)]
    } else {
        dec_rep(n / 10).push(digit_char(n % 10))
    }
}

/// The value of a digit string read as a decimal number (empty reads as zero).
pub open spec fn dec_val(s: Seq<char>) -> nat
    decreases s.len(),
{
    if s.len() == 0 {
        0
    } else {
        dec_val(s.drop_last()) * 10 + digit_val(s.last())
    }
}

pub open spec fn all_digits(s: Seq<char>) -> bool {
    forall|i: int| 0 <= i < s.len() ==> is_digit(#[trigger] s[i])
}

/// What `str::parse::<u32>` accepts: an optional leading `+`, then one or
/// more decimal digits, denoting a value that fits in 32 bits.
pub open spec fn parse_u32_spec(s: Seq<char>) -> Option<u32> {
    let t = if s.len() > 0 && s[0] == '+' {
        s.skip(1)
    } else {
        s
    };
    if t.len() > 0 && all_digits(t) && dec_val(t) <= u32::MAX {
        Some(dec_val(t) as u32)
    } else {
        None
    }
}

/// The suffix of `s` after its last `-`; all of `s` when it has none.
pub open spec fn trailing_segment_spec(s: Seq<char>) -> Seq<char>
    decreases s.len(),
{
    if s.len() == 0 {
        Seq::empty()
    } else if s.last() == '-' {
        Seq::empty()
    } else {
        trailing_segment_spec(s.drop_last()).push(s.last())
    }
}

proof fn lemma_digit_roundtrip(d: nat)
    requires
        d < 10,
    ensures
        digit_val(digit_char(d)) == d,
{
}

pub proof fn lemma_dec_rep_digits(n: nat)
    ensures
        dec_rep(n).len() >= 1,
        all_digits(dec_rep(n)),
    decreases n,
{
    if n >= 10 {
        lemma_dec_rep_digits(n / 10);
    }
}

pub proof fn lemma_dec_val_of_rep(n: nat)
    ensures
        dec_val(dec_rep(n)) == n,
    decreases n,
{
    assert(dec_val(Seq::<char>::empty()) == 0);
    if n < 10 {
        lemma_digit_roundtrip(n);
        assert(dec_rep(n).drop_last() =~= Seq::<char>::empty());
        assert(dec_rep(n).last() == digit_char(n));
    } else {
        lemma_dec_val_of_rep(n / 10);
        lemma_digit_roundtrip(n % 10);
        assert(dec_rep(n).drop_last() =~= dec_rep(n / 10));
        assert(dec_rep(n).last() == digit_char(n % 10));
        assert(n / 10 * 10 + n % 10 == n) by {
            vstd::arithmetic::div_mod::lemma_fundamental_div_mod(n as int, 10);
        }
    }
}

/// Reading a longer prefix of a digit string never yields a smaller value.
proof fn lemma_dec_val_take_monotonic(s: Seq<char>, i: int, j: int)
    requires
        0 <= i <= j <= s.len(),
    ensures
        dec_val(s.take(i)) <= dec_val(s.take(j)),
    decreases j - i,
{
    if i < j {
        lemma_dec_val_take_monotonic(s, i, j - 1);
        assert(s.take(j).drop_last() =~= s.take(j - 1));
        assert(dec_val(s.take(j - 1)) * 10 >= dec_val(s.take(j - 1)) * 1);
    }
}

/// The suffix after the last `-` of `s + "-" + t` is exactly `t`,
/// as long as `t` itself has no `-`.
pub proof fn lemma_trailing_of_dashed(s: Seq<char>, t: Seq<char>)
    requires
        forall|i: int| 0 <= i < t.len() ==> t[i] != '-',
    ensures
        trailing_segment_spec(s + seq!['-'] + t) == t,
    decreases t.len(),
{
    if t.len() == 0 {
        assert((s + seq!['-'] + t).last() == '-');
        assert(trailing_segment_spec(s + seq!['-'] + t) =~= t);
    } else {
        lemma_trailing_of_dashed(s, t.drop_last());
        assert((s + seq!['-'] + t).drop_last() =~= s + seq!['-'] + t.drop_last());
        assert((s + seq!['-'] + t).last() == t.last());
        assert(trailing_segment_spec(s + seq!['-'] + t) =~= t);
    }
}

/// Whether two string slices hold the same characters.
pub fn str_eq(a: &str, b: &str) -> (r: bool)
    ensures
        r == (a@ == b@),
{
    let x = a.to_owned();
    let y = b.to_owned();
    x == y
}

fn digit_str(d: u64) -> (r: &'static str)
    requires
        d < 10,
    ensures
        r@ =~= seq![digit_char(d as nat)],
{
    proof {
        reveal_strlit("0");
        reveal_strlit("1");
        reveal_strlit("2");
        reveal_strlit("3");
        reveal_strlit("4");
        reveal_strlit("5");
        reveal_strlit("6");
        reveal_strlit("7");
        reveal_strlit("8");
        reveal_strlit("9");
    }
    match d {
        0 => "0",
        1 => "1",
        2 => "2",
        3 => "3",
        4 => "4",
        5 => "5",
        6 => "6",
        7 => "7",
        8 => "8",
        _ => "9",
    }
}

/// Renders `n` in decimal, as `format!("{}", n)` would.
pub fn u64_dec(n: u64) -> (r: String)
    ensures
        r@ == dec_rep(n as nat),
    decreases n,
{
    if n < 10 {
        digit_str(n).to_owned()
    } else {
        let mut s = u64_dec(n / 10);
        s.append(digit_str(n % 10));
        proof {
            assert(dec_rep((n / 10) as nat) + seq![digit_char((n % 10) as nat)] =~= dec_rep(
                (n / 10) as nat,
            ).push(digit_char((n % 10) as nat)));
        }
        s
    }
}

fn char_digit_val(c: char) -> (r: u32)
    ensures
        is_digit(c) ==> r == digit_val(c),
        !is_digit(c) ==> r == 10,
{
    match c {
        '0' => 0,
        '1' => 1,
        '2' => 2,
        '3' => 3,
        '4' => 4,
        '5' => 5,
        '6' => 6,
        '7' => 7,
        '8' => 8,
        '9' => 9,
        _ => 10,
    }
}

/// Parses a 32-bit unsigned decimal, accepting exactly what
/// `str::parse::<u32>` accepts.
pub fn parse_u32(s: &str) -> (r: Option<u32>)
    ensures
        r == parse_u32_spec(s@),
{
    let len = s.unicode_len();
    let mut i: usize = 0;
    if len > 0 && s.get_char(0) == '+' {
        i = 1;
    }
    let start: usize = i;
    let ghost t = if s@.len() > 0 && s@[0] == '+' {
        s@.skip(1)
    } else {
        s@
    };
    assert(t =~= s@.subrange(start as int, s@.len() as int));
    if i == len {
        assert(t.len() == 0);
        return None;
    }
    let mut acc: u64 = 0;
    proof {
        assert(t.take(0) =~= Seq::<char>::empty());
        assert(dec_val(Seq::<char>::empty()) == 0);
    }
    while i < len
        invariant
            start <= i <= len,
            len == s@.len(),
            t == s@.subrange(start as int, s@.len() as int),
            t == (if s@.len() > 0 && s@[0] == '+' {
                s@.skip(1)
            } else {
                s@
            }),
            acc == dec_val(t.take(i - start)),
            acc <= u32::MAX,
            all_digits(t.take(i - start)),
        decreases len - i,
    {
        let c = s.get_char(i);
        proof {
            assert(t[i - start] == s@[i as int]);
        }
        let d = char_digit_val(c);
        if d >= 10 {
            assert(!is_digit(t[i - start]));
            assert(!all_digits(t));
            assert(parse_u32_spec(s@) is None);
            return None;
        }
        proof {
            assert(t.take(i + 1 - start).drop_last() =~= t.take(i - start));
            assert(t.take(i + 1 - start).last() == t[i - start]);
            assert(digit_val(t[i - start]) == d);
        }
        acc = acc * 10 + d as u64;
        if acc > u32::MAX as u64 {
            proof {
                assert(acc == dec_val(t.take(i + 1 - start)));
                lemma_dec_val_take_monotonic(t, i + 1 - start, t.len() as int);
                assert(t.take(t.len() as int) =~= t);
                assert(dec_val(t) > u32::MAX);
            }
            return None;
        }
        proof {
            assert(all_digits(t.take(i + 1 - start)));
        }
        i = i + 1;
    }
    proof {
        assert(t.take(len - start) =~= t);
    }
    Some(acc as u32)
}

/// The suffix of `s` after its last `-`, as `s.split('-').last()` yields it.
pub fn trailing_segment(s: &str) -> (r: String)
    ensures
        r@ == trailing_segment_spec(s@),
{
    let len = s.unicode_len();
    let mut k: usize = len;
    while k > 0
        invariant
            0 <= k <= len,
            len == s@.len(),
            forall|j: int| k <= j < len ==> s@[j] != '-',
        ensures
            0 <= k <= len,
            forall|j: int| k <= j < len ==> s@[j] != '-',
            k == 0 || s@[k - 1] == '-',
        decreases k,
    {
        if s.get_char(k - 1) == '-' {
            break;
        }
        k = k - 1;
    }
    proof {
        lemma_trailing_of_suffix(s@, k as int);
    }
    let seg = s.substring_char(k, len);
    assert(seg@ =~= s@.skip(k as int));
    seg.to_owned()
}

/// When everything after position `k` is free of `-`, and either `k` is the
/// start or a `-` stands just before it, the trailing segment is the suffix
/// from `k`.
proof fn lemma_trailing_of_suffix(s: Seq<char>, k: int)
    requires
        0 <= k <= s.len(),
        k == 0 || s[k - 1] == '-',
        forall|j: int| k <= j < s.len() ==> s[j] != '-',
    ensures
        trailing_segment_spec(s) == s.skip(k),
    decreases s.len() - k,
{
    if k == s.len() {
        if k == 0 {
            assert(trailing_segment_spec(s) =~= s.skip(k));
        } else {
            assert(s.last() == '-');
            assert(trailing_segment_spec(s) =~= s.skip(k));
        }
    } else {
        lemma_trailing_of_suffix(s.drop_last(), k);
        assert(s.last() != '-');
        assert(s.drop_last().skip(k) =~= s.skip(k).drop_last());
        assert(trailing_segment_spec(s) =~= s.skip(k));
    }
}

} // verus!
