use vstd::prelude::*;
use vstd::string::StringExecFns;
use vstd::std_specs::iter::IteratorSpec;

verus! {

pub open spec fn is_digit(c: char) -> bool {
    '0' <= c && c <= '9'
}

pub open spec fn digit_value(c: char) -> nat {
    (c as int - '0' as int) as nat
}

pub open spec fn digit_char(d: nat) -> char {
    if d == 0 { '0' } else if d == 1 { '1' } else if d == 2 { '2' } else if d == 3 { '3' }
    else if d == 4 { '4' } else if d == 5 { '5' } else if d == 6 { '6' } else if d == 7 { '7' }
    else if d == 8 { '8' } else { '9' }
}

/// Shortest decimal spelling of `n`.
pub open spec fn decimal(n: nat) -> Seq<char>
    decreases n,
{
    if n < 10 {
        seq![digit_char(n)]
    } else {
        decimal(n / 10).push(digit_char(n % 10))
    }
}

/// The number that a string of decimal digits spells.
pub open spec fn value_of(s: Seq<char>) -> nat
    decreases s.len(),
{
    if s.len() == 0 {
        0
    } else {
        value_of(s.drop_last()) * 10 + digit_value(s.last())
    }
}

/// `t` stands in `s` from index `pos` on.
pub open spec fn text_at(s: Seq<char>, pos: int, t: Seq<char>) -> bool {
    0 <= pos && pos + t.len() <= s.len() && s.subrange(pos, pos + t.len()) == t
}

/// The decimal spelling of `n` stands in `s` from `pos` on, and no digit follows it.
pub open spec fn number_at(s: Seq<char>, pos: int, n: nat) -> bool {
    let end = pos + decimal(n).len();
    text_at(s, pos, decimal(n)) && (end == s.len() || !is_digit(s[end]))
}

pub proof fn lemma_decimal(n: nat)
    ensures
        decimal(n).len() >= 1,
        is_digit(decimal(n)[0]),
        forall|i: int| 0 <= i < decimal(n).len() ==> is_digit(#[trigger] decimal(n)[i]),
        value_of(decimal(n)) == n,
    decreases n,
{
    if n < 10 {
        assert(seq![digit_char(n)].drop_last() =~= Seq::<char>::empty());
        assert(value_of(Seq::<char>::empty()) == 0);
        assert(digit_value(digit_char(n)) == n);
    } else {
        assert(digit_value(digit_char(n % 10)) == n % 10);
        lemma_decimal(n / 10);
        assert(decimal(n).drop_last() =~= decimal(n / 10));
        assert(n == (n / 10) * 10 + n % 10);
    }
}

pub proof fn lemma_value_prefix(s: Seq<char>, k: int)
    requires
        0 <= k <= s.len(),
    ensures
        value_of(s.subrange(0, k)) <= value_of(s),
    decreases s.len(),
{
    if k == s.len() {
        assert(s.subrange(0, k) =~= s);
    } else {
        lemma_value_prefix(s.drop_last(), k);
        assert(s.drop_last().subrange(0, k) =~= s.subrange(0, k));
    }
}

/// No two numbers are spelled at the same place of a text.
pub proof fn lemma_number_unique(s: Seq<char>, pos: int, a: nat, b: nat)
    requires
        number_at(s, pos, a),
        number_at(s, pos, b),
    ensures
        a == b,
{
    lemma_decimal(a);
    lemma_decimal(b);
    let la = decimal(a).len() as int;
    let lb = decimal(b).len() as int;
    if la < lb {
        assert(s[pos + la] == s.subrange(pos, pos + lb)[la]);
        assert(is_digit(decimal(b)[la]));
    } else if lb < la {
        assert(s[pos + lb] == s.subrange(pos, pos + la)[lb]);
        assert(is_digit(decimal(a)[lb]));
    }
    assert(decimal(a) == decimal(b));
}

pub proof fn lemma_text_at_concat(s: Seq<char>, pre: Seq<char>, t: Seq<char>, post: Seq<char>)
    requires
        s == pre + t + post,
    ensures
        text_at(s, pre.len() as int, t),
{
    assert(s.subrange(pre.len() as int, (pre.len() + t.len()) as int) =~= t);
}

/// The characters of `s`, one by one.
pub fn chars_of(s: &str) -> (r: Vec<char>)
    ensures
        r@ == s@,
{
    let mut it = s.chars();
    let mut out: Vec<char> = Vec::new();
    loop
        invariant
            out@ + it.remaining() == s@,
            it.decrease() is Some,
        decreases it.decrease()->0,
    {
        match it.next() {
            Some(c) => {
                proof {
                    assert(out@.push(c) + it.remaining() =~= s@);
                }
                out.push(c);
            },
            None => {
                assert(out@ =~= s@);
                return out;
            },
        }
    }
}

fn digit_str(d: u32) -> (r: &'static str)
    requires
        d < 10,
    ensures
        r@ == seq![digit_char(d as nat)],
{
    proof {
        reveal_strlit("0"); reveal_strlit("1"); reveal_strlit("2"); reveal_strlit("3");
        reveal_strlit("4"); reveal_strlit("5"); reveal_strlit("6"); reveal_strlit("7");
        reveal_strlit("8"); reveal_strlit("9");
    }
    if d == 0 { "0" } else if d == 1 { "1" } else if d == 2 { "2" } else if d == 3 { "3" }
    else if d == 4 { "4" } else if d == 5 { "5" } else if d == 6 { "6" } else if d == 7 { "7" }
    else if d == 8 { "8" } else { "9" }
}

/// Appends the decimal spelling of `n`.
pub fn push_decimal(out: &mut String, n: u32)
    ensures
        final(out)@ == old(out)@ + decimal(n as nat),
    decreases n,
{
    if n >= 10 {
        push_decimal(out, n / 10);
    }
    out.append(digit_str(n % 10));
    assert(out@ =~= old(out)@ + decimal(n as nat));
}

/// Reads the digits of `s` from `pos` on as a number no larger than `limit`.
/// Fails where no digit stands at `pos` or the number exceeds `limit`.
pub fn parse_number(s: &Vec<char>, pos: usize, limit: u32, Ghost(n): Ghost<nat>) -> (r: Option<(u32, usize)>)
    ensures
        r matches Some((v, e)) ==> pos < e <= s.len() && v <= limit,
        number_at(s@, pos as int, n) && n <= limit ==> r == Some(
            (n as u32, (pos + decimal(n).len()) as usize),
        ),
{
    let ghost d = decimal(n);
    let ghost hyp = number_at(s@, pos as int, n) && n <= limit;
    proof {
        lemma_decimal(n);
        if hyp {
            lemma_value_prefix(d, 0);
        }
    }
    if pos >= s.len() {
        return None;
    }
    let mut j: usize = pos;
    let mut acc: u64 = 0;
    while j < s.len() && '0' <= s[j] && s[j] <= '9'
        invariant
            pos <= j <= s.len(),
            acc <= limit,
            hyp ==> j - pos <= d.len() && s@.subrange(pos as int, j as int) == d.subrange(0, j - pos)
                && acc == value_of(d.subrange(0, j - pos)),
            hyp == (number_at(s@, pos as int, n) && n <= limit),
            d == decimal(n),
            value_of(d) == n,
        decreases s.len() - j,
    {
        let c = s[j];
        let next: u64 = acc * 10 + (c as u64 - '0' as u64);
        proof {
            if hyp {
                if j - pos == d.len() {
                    assert(s@.subrange(pos as int, pos + d.len()) == d);
                    assert(false);
                }
                let k = j - pos;
                assert(s@[j as int] == s@.subrange(pos as int, pos + d.len())[k]);
                assert(s@[j as int] == d[k]);
                assert(d.subrange(0, k + 1).drop_last() =~= d.subrange(0, k));
                assert(s@.subrange(pos as int, j + 1) =~= d.subrange(0, k + 1));
                lemma_value_prefix(d, k + 1);
                assert(d.subrange(0, k + 1).last() == c);
                assert(value_of(d.subrange(0, k + 1)) == acc * 10 + digit_value(c));
                assert(next == value_of(d.subrange(0, k + 1)));
            }
        }
        if next > limit as u64 {
            return None;
        }
        acc = next;
        j = j + 1;
    }
    if j == pos {
        proof {
            if hyp {
                assert(text_at(s@, pos as int, d));
                assert(s@[pos as int] == s@.subrange(pos as int, pos + d.len())[0]);
                assert(is_digit(d[0]));
                assert(is_digit(s@[j as int]));
                assert(false);
            }
        }
        return None;
    }
    proof {
        if hyp {
            if j - pos < d.len() {
                assert(s@[j as int] == s@.subrange(pos as int, pos + d.len())[j - pos]);
            }
            assert(d.subrange(0, d.len() as int) =~= d);
        }
    }
    Some((acc as u32, j))
}

/// Whether `lit` stands in `s` from `pos` on; the index after it if so.
pub fn match_literal(s: &Vec<char>, pos: usize, lit: &Vec<char>) -> (r: Option<usize>)
    ensures
        r matches Some(e) ==> e == pos + lit.len() && text_at(s@, pos as int, lit@),
        r is None ==> !text_at(s@, pos as int, lit@),
{
    if pos > s.len() || lit.len() > s.len() - pos {
        return None;
    }
    let mut i: usize = 0;
    while i < lit.len()
        invariant
            pos + lit.len() <= s.len(),
            i <= lit.len(),
            forall|t: int| 0 <= t < i ==> s@[pos + t] == lit@[t],
        decreases lit.len() - i,
    {
        if s[pos + i] != lit[i] {
            proof {
                let ii = i as int;
                if text_at(s@, pos as int, lit@) {
                    assert(s@.subrange(pos as int, pos + lit.len())[ii] == s@[pos + ii]);
                }
            }
            return None;
        }
        i = i + 1;
    }
    assert(s@.subrange(pos as int, pos + lit.len()) =~= lit@);
    Some(pos + lit.len())
}

} // verus!
