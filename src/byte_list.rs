use vstd::prelude::*;
use vstd::string::StringExecFns;

use crate::text::{
    decimal, lemma_decimal, lemma_number_unique, number_at, parse_number, push_decimal, text_at,
};

verus! {

pub open spec fn separator(i: int) -> Seq<char> {
    if i == 0 {
        Seq::empty()
    } else {
        seq![',']
    }
}

/// The elements of `bs` in decimal, separated by commas.
pub open spec fn items_text(bs: Seq<u8>) -> Seq<char>
    decreases bs.len(),
{
    if bs.len() == 0 {
        Seq::empty()
    } else {
        items_text(bs.drop_last()) + separator(bs.len() - 1) + decimal(bs.last() as nat)
    }
}

/// A byte sequence written as a bracketed list of decimal numbers: `[1,22,255]`.
pub open spec fn list_text(bs: Seq<u8>) -> Seq<char> {
    seq!['['] + items_text(bs) + seq![']']
}

pub proof fn lemma_items_step(bs: Seq<u8>, i: int)
    requires
        0 <= i < bs.len(),
    ensures
        items_text(bs.subrange(0, i + 1)) == items_text(bs.subrange(0, i)) + separator(i)
            + decimal(bs[i] as nat),
{
    assert(bs.subrange(0, i + 1).drop_last() =~= bs.subrange(0, i));
}

/// The text of a prefix of `bs` is a prefix of the text of `bs`.
pub proof fn lemma_items_prefix(bs: Seq<u8>, j: int)
    requires
        0 <= j <= bs.len(),
    ensures
        items_text(bs.subrange(0, j)).len() <= items_text(bs).len(),
        items_text(bs).subrange(0, items_text(bs.subrange(0, j)).len() as int) == items_text(
            bs.subrange(0, j),
        ),
    decreases bs.len(),
{
    if j == bs.len() {
        assert(bs.subrange(0, j) =~= bs);
        assert(items_text(bs).subrange(0, items_text(bs).len() as int) =~= items_text(bs));
    } else {
        lemma_items_prefix(bs.drop_last(), j);
        assert(bs.drop_last().subrange(0, j) =~= bs.subrange(0, j));
        let pre = items_text(bs.subrange(0, j));
        let mid = items_text(bs.drop_last());
        assert(items_text(bs).subrange(0, pre.len() as int) =~= mid.subrange(0, pre.len() as int));
    }
}

/// Position, inside a list text at `pos`, where the item with index `i` begins.
pub open spec fn item_start(pos: int, bs: Seq<u8>, i: int) -> int {
    pos + 1 + items_text(bs.subrange(0, i)).len() + separator(i).len()
}

/// What a list text at `pos` shows about its item with index `i` and the character after it.
pub proof fn lemma_list_step(s: Seq<char>, pos: int, bs: Seq<u8>, i: int)
    requires
        text_at(s, pos, list_text(bs)),
        0 <= i < bs.len(),
    ensures
        number_at(s, item_start(pos, bs, i), bs[i] as nat),
        ({
            let end = item_start(pos, bs, i) + decimal(bs[i] as nat).len();
            &&& end < s.len()
            &&& i + 1 < bs.len() ==> s[end] == ',' && end + 1 == item_start(pos, bs, i + 1)
            &&& i + 1 == bs.len() ==> s[end] == ']' && end + 1 == pos + list_text(bs).len()
        }),
{
    let items = items_text(bs);
    let lt = list_text(bs);
    let sub = s.subrange(pos, pos + lt.len());
    assert(sub == lt);
    lemma_items_step(bs, i);
    lemma_items_prefix(bs, i + 1);
    let pre = items_text(bs.subrange(0, i + 1));
    let d = decimal(bs[i] as nat);
    let p = item_start(pos, bs, i);
    let off = p - pos - 1;
    assert forall|t: int| 0 <= t < d.len() implies s[p + t] == d[t] by {
        assert(s[p + t] == sub[1 + off + t]);
        assert(sub[1 + off + t] == items[off + t]);
        assert(items[off + t] == items.subrange(0, pre.len() as int)[off + t]);
        assert(pre[off + t] == d[t]);
    }
    assert(s.subrange(p, p + d.len()) =~= d);
    let end = p + d.len();
    assert(end == pos + 1 + pre.len());
    if i + 1 < bs.len() {
        lemma_items_step(bs, i + 1);
        lemma_items_prefix(bs, i + 2);
        let pre2 = items_text(bs.subrange(0, i + 2));
        assert(pre2[pre.len() as int] == ',');
        assert(s[end] == sub[1 + pre.len() as int]);
        assert(items[pre.len() as int] == items.subrange(0, pre2.len() as int)[pre.len() as int]);
    } else {
        assert(bs.subrange(0, i + 1) =~= bs);
        assert(s[end] == sub[1 + items.len() as int]);
    }
}

/// No two byte sequences have their list text at the same place of a text.
pub proof fn lemma_list_unique(s: Seq<char>, pos: int, a: Seq<u8>, b: Seq<u8>)
    requires
        text_at(s, pos, list_text(a)),
        text_at(s, pos, list_text(b)),
    ensures
        a == b,
{
    let n: int = if a.len() < b.len() { a.len() as int } else { b.len() as int };
    lemma_list_common_prefix(s, pos, a, b, n);
    if a.len() != b.len() {
        if n == 0 {
            let c = if a.len() == 0 { b } else { a };
            let e = if a.len() == 0 { a } else { b };
            lemma_list_step(s, pos, c, 0);
            lemma_decimal(c[0] as nat);
            assert(s[pos + 1] == s.subrange(pos, pos + list_text(e).len())[1]);
            assert(items_text(c.subrange(0, 0)) =~= Seq::<char>::empty());
        } else {
            let i = n - 1;
            assert(a.subrange(0, i) =~= a.subrange(0, n).subrange(0, i));
            assert(b.subrange(0, i) =~= b.subrange(0, n).subrange(0, i));
            assert(a[i] == a.subrange(0, n)[i]);
            assert(b[i] == b.subrange(0, n)[i]);
            lemma_list_step(s, pos, a, i);
            lemma_list_step(s, pos, b, i);
        }
    } else {
        assert(a =~= a.subrange(0, n));
        assert(b =~= b.subrange(0, n));
    }
}

proof fn lemma_list_common_prefix(s: Seq<char>, pos: int, a: Seq<u8>, b: Seq<u8>, k: int)
    requires
        text_at(s, pos, list_text(a)),
        text_at(s, pos, list_text(b)),
        0 <= k <= a.len(),
        k <= b.len(),
    ensures
        a.subrange(0, k) == b.subrange(0, k),
    decreases k,
{
    if k > 0 {
        let i = k - 1;
        lemma_list_common_prefix(s, pos, a, b, i);
        lemma_list_step(s, pos, a, i);
        lemma_list_step(s, pos, b, i);
        lemma_number_unique(s, item_start(pos, a, i), a[i] as nat, b[i] as nat);
        assert(a.subrange(0, k) =~= a.subrange(0, i).push(a[i]));
        assert(b.subrange(0, k) =~= b.subrange(0, i).push(b[i]));
    } else {
        assert(a.subrange(0, 0) =~= b.subrange(0, 0));
    }
}

/// Appends the list text of `bs`.
pub fn push_list(out: &mut String, bs: &Vec<u8>)
    ensures
        final(out)@ == old(out)@ + list_text(bs@),
{
    proof {
        reveal_strlit("[");
        reveal_strlit(",");
        reveal_strlit("]");
    }
    out.append("[");
    let mut i: usize = 0;
    while i < bs.len()
        invariant
            i <= bs.len(),
            out@ == old(out)@ + seq!['['] + items_text(bs@.subrange(0, i as int)),
        decreases bs.len() - i,
    {
        proof {
            lemma_items_step(bs@, i as int);
        }
        let ghost before = out@;
        proof {
            reveal_strlit(",");
        }
        if i > 0 {
            out.append(",");
        }
        assert(out@ =~= before + separator(i as int));
        push_decimal(out, bs[i] as u32);
        i = i + 1;
    }
    assert(bs@.subrange(0, bs.len() as int) =~= bs@);
    out.append("]");
}

/// Reads a list text of bytes at `pos`; the bytes and the index after the list if so.
pub fn parse_list(s: &Vec<char>, pos: usize, Ghost(bs): Ghost<Seq<u8>>) -> (r: Option<(Vec<u8>, usize)>)
    ensures
        r matches Some((v, e)) ==> pos < e <= s.len(),
        text_at(s@, pos as int, list_text(bs)) ==> (r matches Some((v, e)) && v@ == bs && e == pos
            + list_text(bs).len()),
{
    let ghost hyp = text_at(s@, pos as int, list_text(bs));
    if pos >= s.len() || s[pos] != '[' {
        proof {
            if hyp {
                assert(s@[pos as int] == s@.subrange(pos as int, pos + list_text(bs).len())[0]);
            }
        }
        return None;
    }
    let mut out: Vec<u8> = Vec::new();
    let mut p: usize = pos + 1;
    if p < s.len() && s[p] == ']' {
        proof {
            if hyp && bs.len() > 0 {
                lemma_list_step(s@, pos as int, bs, 0);
                lemma_decimal(bs[0] as nat);
                let d = decimal(bs[0] as nat);
                assert(items_text(bs.subrange(0, 0)) =~= Seq::<char>::empty());
                assert(s@[p as int] == s@.subrange(p as int, p + d.len())[0]);
            }
            if hyp && bs.len() == 0 {
                assert(out@ =~= bs);
            }
        }
        return Some((out, p + 1));
    }
    proof {
        if hyp {
            if bs.len() == 0 {
                assert(s@[pos + 1] == s@.subrange(pos as int, pos + list_text(bs).len())[1]);
                assert(false);
            }
            assert(items_text(bs.subrange(0, 0)) =~= Seq::<char>::empty());
            assert(out@ =~= bs.subrange(0, 0));
        }
    }
    loop
        invariant
            pos < p <= s.len(),
            hyp == text_at(s@, pos as int, list_text(bs)),
            hyp ==> bs.len() > 0 && out.len() < bs.len() && out@ == bs.subrange(0, out.len() as int)
                && p == item_start(pos as int, bs, out.len() as int),
        decreases s.len() - p,
    {
        let ghost i = out.len() as int;
        proof {
            if hyp {
                lemma_list_step(s@, pos as int, bs, i);
            }
        }
        let parsed = parse_number(s, p, 255, Ghost(if hyp { bs[i] as nat } else { 0 }));
        match parsed {
            None => {
                return None;
            },
            Some((v, e)) => {
                out.push(v as u8);
                p = e;
                proof {
                    if hyp {
                        assert(out@ =~= bs.subrange(0, i + 1));
                    }
                }
                if p < s.len() && s[p] == ',' {
                    p = p + 1;
                } else if p < s.len() && s[p] == ']' {
                    proof {
                        if hyp {
                            assert(out@ =~= bs);
                        }
                    }
                    return Some((out, p + 1));
                } else {
                    return None;
                }
            },
        }
    }
}

} // verus!
