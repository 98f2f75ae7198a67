//! Text as sequences of characters: decimal numbers, zero padding and the
//! last component of a path, each with the sequence it stands for.

use vstd::prelude::*;

verus! {

/// Relies on `str::chars`: the characters of `s`, in order.
#[verifier::external_body]
pub(crate) fn chars_of(s: &str) -> (r: Vec<char>)
    ensures
        r@ == s@,
{
    s.chars().collect()
}

/// Relies on `String`'s `FromIterator<&char>`: a string of exactly the
/// characters of `v`.
#[verifier::external_body]
pub(crate) fn string_of(v: &Vec<char>) -> (r: String)
    ensures
        r@ == v@,
{
    v.iter().collect()
}

/// Appends the characters of `s`.
pub fn push_str(out: &mut Vec<char>, s: &str)
    ensures
        final(out)@ == old(out)@ + s@,
{
    let mut cs = chars_of(s);
    out.append(&mut cs);
}

/// The decimal digit for `d`.
pub open spec fn digit(d: nat) -> char {
    if d == 0 {
        '0'
    } else if d == 1 {
        '1'
    } else if d == 2 {
        '2'
    } else if d == 3 {
        '3'
    } else if d == 4 {
        '4'
    } else if d == 5 {
        '5'
    } else if d == 6 {
        '6'
    } else if d == 7 {
        '7'
    } else if d == 8 {
        '8'
    } else {
        '9'
    }
}

/// `v` written in decimal, without leading zeros.
pub open spec fn decimal(v: nat) -> Seq<char>
    decreases v,
{
    if v < 10 {
        seq![digit(v)]
    } else {
        decimal(v / 10).push(digit(v % 10))
    }
}

/// `v` in decimal, with zeros in front up to `width` characters.
pub open spec fn zero_padded(v: nat, width: nat) -> Seq<char> {
    let d = decimal(v);
    if d.len() >= width {
        d
    } else {
        Seq::new((width - d.len()) as nat, |_i: int| '0') + d
    }
}

/// `v` in decimal, with a minus sign when it is negative.
pub open spec fn signed_decimal(v: int) -> Seq<char> {
    if v < 0 {
        seq!['-'] + decimal((-v) as nat)
    } else {
        decimal(v as nat)
    }
}

/// What follows the last `/` of a path; the whole path when it has none.
pub open spec fn basename(path: Seq<char>) -> Seq<char>
    decreases path.len(),
{
    if path.len() == 0 {
        path
    } else if path.last() == '/' {
        Seq::empty()
    } else {
        basename(path.drop_last()).push(path.last())
    }
}

fn digit_char(d: u64) -> (c: char)
    requires
        d < 10,
    ensures
        c == digit(d as nat),
{
    if d == 0 {
        '0'
    } else if d == 1 {
        '1'
    } else if d == 2 {
        '2'
    } else if d == 3 {
        '3'
    } else if d == 4 {
        '4'
    } else if d == 5 {
        '5'
    } else if d == 6 {
        '6'
    } else if d == 7 {
        '7'
    } else if d == 8 {
        '8'
    } else {
        '9'
    }
}

/// Appends `v` in decimal.
pub fn push_decimal(out: &mut Vec<char>, v: u64)
    ensures
        final(out)@ == old(out)@ + decimal(v as nat),
    decreases v,
{
    if v < 10 {
        out.push(digit_char(v));
        assert(final(out)@ =~= old(out)@ + decimal(v as nat));
    } else {
        push_decimal(out, v / 10);
        out.push(digit_char(v % 10));
        assert(final(out)@ =~= old(out)@ + decimal(v as nat));
    }
}

/// The number of decimal digits of `v`.
fn decimal_len(v: u64) -> (r: usize)
    ensures
        r == decimal(v as nat).len(),
        r <= 20,
    decreases v,
{
    if v < 10 {
        1
    } else {
        proof {
            lemma_decimal_len_bound(v as nat);
        }
        decimal_len(v / 10) + 1
    }
}

proof fn lemma_decimal_len_bound(v: nat)
    requires
        v <= u64::MAX,
    ensures
        decimal(v).len() <= 20,
{
    reveal_with_fuel(pow10, 21);
    lemma_decimal_len_below(v, 20);
}

/// A number below `10^k` has at most `k` digits.
proof fn lemma_decimal_len_below(v: nat, k: nat)
    requires
        v < pow10(k),
        k >= 1,
    ensures
        decimal(v).len() <= k,
    decreases v,
{
    if v >= 10 {
        assert(pow10(k) == 10 * pow10((k - 1) as nat));
        if k == 1 {
            assert(false);
        } else {
            lemma_decimal_len_below(v / 10, (k - 1) as nat);
        }
    }
}

/// Ten to the power `k`.
pub open spec fn pow10(k: nat) -> nat
    decreases k,
{
    if k == 0 {
        1
    } else {
        10 * pow10((k - 1) as nat)
    }
}

/// Appends `v` in decimal, with zeros in front up to `width` characters.
pub fn push_zero_padded(out: &mut Vec<char>, v: u64, width: usize)
    ensures
        final(out)@ == old(out)@ + zero_padded(v as nat, width as nat),
{
    let len = decimal_len(v);
    if len < width {
        let mut i: usize = 0;
        while i < width - len
            invariant
                i <= width - len,
                out@ == old(out)@ + Seq::new(i as nat, |_i: int| '0'),
            decreases width - len - i,
        {
            out.push('0');
            i = i + 1;
            assert(out@ =~= old(out)@ + Seq::new(i as nat, |_i: int| '0'));
        }
    }
    push_decimal(out, v);
    assert(out@ =~= old(out)@ + zero_padded(v as nat, width as nat));
}

/// Appends `v` in decimal, with a minus sign when it is negative.
pub fn push_signed_decimal(out: &mut Vec<char>, v: i32)
    ensures
        final(out)@ == old(out)@ + signed_decimal(v as int),
{
    if v < 0 {
        out.push('-');
        let m: u64 = (0i64 - v as i64) as u64;
        push_decimal(out, m);
        assert(out@ =~= old(out)@ + signed_decimal(v as int));
    } else {
        push_decimal(out, v as u64);
    }
}

/// When no `/` stands at or after `j`, and `j` is the start or follows a
/// `/`, the last component starts at `j`.
proof fn lemma_basename_from(path: Seq<char>, j: int)
    requires
        0 <= j <= path.len(),
        j == 0 || path[j - 1] == '/',
        forall|k: int| j <= k < path.len() ==> path[k] != '/',
    ensures
        basename(path) == path.subrange(j, path.len() as int),
    decreases path.len(),
{
    if path.len() == j {
        if path.len() > 0 {
            assert(path.last() == '/');
        }
        assert(path.subrange(j, path.len() as int) =~= Seq::<char>::empty());
    } else {
        let d = path.drop_last();
        lemma_basename_from(d, j);
        assert(path.subrange(j, path.len() as int) =~= d.subrange(j, d.len() as int).push(
            path.last(),
        ));
    }
}

/// Appends what follows the last `/` of `path`.
pub fn push_basename(out: &mut Vec<char>, path: &Vec<char>)
    ensures
        final(out)@ == old(out)@ + basename(path@),
{
    let len = path.len();
    let mut j: usize = len;
    while j > 0 && path[j - 1] != '/'
        invariant
            j <= len,
            len == path@.len(),
            forall|k: int| j <= k < len ==> path@[k] != '/',
        decreases j,
    {
        j = j - 1;
    }
    proof {
        lemma_basename_from(path@, j as int);
    }
    let mut k: usize = j;
    while k < len
        invariant
            j <= k <= len,
            len == path@.len(),
            out@ == old(out)@ + path@.subrange(j as int, k as int),
        decreases len - k,
    {
        out.push(path[k]);
        k = k + 1;
        assert(out@ =~= old(out)@ + path@.subrange(j as int, k as int));
    }
}

} // verus!
