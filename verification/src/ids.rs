//! Identifiers of the form `prefix-<millisecond>` and, when that is taken,
//! `prefix-<millisecond>-<n>` with the smallest free `n`.

use crate::text::{
    chars_of, decimal, digit_value, int_text, is_canonical_numeral, is_digit, lemma_canonical_is_decimal,
    lemma_decimal_canonical, lemma_decimal_injective, numeral_value, signed_decimal,
};
use vstd::prelude::*;

verus! {

/// The views of a list of strings.
pub open spec fn texts(ids: Seq<String>) -> Seq<Seq<char>> {
    ids.map_values(|s: String| s@)
}

/// No text occurs twice in `names`.
pub open spec fn all_different(names: Seq<Seq<char>>) -> bool {
    forall|i: int, j: int| 0 <= i < j < names.len() ==> names[i] != names[j]
}

/// `base` followed by a hyphen and the numeral of `k`.
pub open spec fn numbered(base: Seq<char>, k: nat) -> Seq<char> {
    base + seq!['-'] + decimal(k)
}

/// The `k`-th name tried for `base`: the bare base first when `bare_first`,
/// then the numbered ones.
pub open spec fn id_candidate(base: Seq<char>, k: nat, bare_first: bool) -> Seq<char> {
    if bare_first && k == 0 {
        base
    } else {
        numbered(base, k)
    }
}

/// `k` is the first candidate that no id in `ids` already uses.
pub open spec fn is_first_free(
    base: Seq<char>,
    ids: Seq<Seq<char>>,
    bare_first: bool,
    k: nat,
) -> bool {
    &&& !ids.contains(id_candidate(base, k, bare_first))
    &&& forall|j: nat| j < k ==> ids.contains(#[trigger] id_candidate(base, j, bare_first))
}

/// The first candidate for `base` that none of `ids` uses.
pub open spec fn first_free_id(base: Seq<char>, ids: Seq<Seq<char>>, bare_first: bool) -> Seq<
    char,
> {
    id_candidate(base, choose|k: nat| is_first_free(base, ids, bare_first, k), bare_first)
}

/// The stem shared by every id made at `now_ms`: `prefix-<now_ms>`.
pub open spec fn id_base(prefix: Seq<char>, now_ms: i64) -> Seq<char> {
    prefix + seq!['-'] + signed_decimal(now_ms as int)
}

pub open spec fn count_true(s: Seq<bool>) -> nat
    decreases s.len(),
{
    if s.len() == 0 {
        0
    } else {
        count_true(s.drop_last()) + if s.last() {
            1nat
        } else {
            0nat
        }
    }
}

proof fn lemma_count_update(s: Seq<bool>, i: int)
    requires
        0 <= i < s.len(),
    ensures
        count_true(s.update(i, true)) <= count_true(s) + 1,
    decreases s.len(),
{
    let u = s.update(i, true);
    if i == s.len() - 1 {
        assert(u.drop_last() =~= s.drop_last());
    } else {
        assert(u.drop_last() =~= s.drop_last().update(i, true));
        lemma_count_update(s.drop_last(), i);
    }
}

proof fn lemma_count_bounded(s: Seq<bool>)
    ensures
        count_true(s) <= s.len(),
        (forall|i: int| 0 <= i < s.len() ==> #[trigger] s[i]) ==> count_true(s) == s.len(),
    decreases s.len(),
{
    if s.len() > 0 {
        lemma_count_bounded(s.drop_last());
        if forall|i: int| 0 <= i < s.len() ==> #[trigger] s[i] {
            assert forall|i: int| 0 <= i < s.drop_last().len() implies #[trigger] s.drop_last()[i] by {
                assert(s.drop_last()[i] == s[i]);
            }
            assert(s.last() == s[s.len() - 1]);
        }
    }
}

proof fn lemma_count_none(s: Seq<bool>)
    requires
        forall|i: int| 0 <= i < s.len() ==> !#[trigger] s[i],
    ensures
        count_true(s) == 0,
    decreases s.len(),
{
    if s.len() > 0 {
        assert forall|i: int| 0 <= i < s.drop_last().len() implies !#[trigger] s.drop_last()[i] by {
            assert(s.drop_last()[i] == s[i]);
        }
        lemma_count_none(s.drop_last());
        assert(s.last() == s[s.len() - 1]);
    }
}

pub proof fn lemma_numbered_injective(base: Seq<char>, a: nat, b: nat)
    requires
        numbered(base, a) == numbered(base, b),
    ensures
        a == b,
{
    let x = numbered(base, a);
    let y = numbered(base, b);
    let start = base.len() + 1;
    assert(x.subrange(start as int, x.len() as int) =~= decimal(a));
    assert(y.subrange(start as int, y.len() as int) =~= decimal(b));
    lemma_decimal_injective(a, b);
}

proof fn lemma_numeral_prefix_monotone(t: Seq<char>, j: int)
    requires
        0 <= j <= t.len(),
        forall|i: int| 0 <= i < t.len() ==> is_digit(#[trigger] t[i]),
    ensures
        0 <= numeral_value(t.take(j)) <= numeral_value(t),
    decreases t.len() - j,
{
    if j == t.len() {
        assert(t.take(j) =~= t);
        lemma_numeral_nonnegative(t);
    } else {
        lemma_numeral_prefix_monotone(t, j + 1);
        let p = t.take(j + 1);
        assert(p.drop_last() =~= t.take(j));
        lemma_numeral_nonnegative(t.take(j));
        assert(numeral_value(p) == numeral_value(t.take(j)) * 10 + (p.last() as int - 48));
        assert(p.last() == t[j]);
    }
}

proof fn lemma_numeral_nonnegative(t: Seq<char>)
    requires
        forall|i: int| 0 <= i < t.len() ==> is_digit(#[trigger] t[i]),
    ensures
        numeral_value(t) >= 0,
    decreases t.len(),
{
    if t.len() > 0 {
        let p = t.drop_last();
        assert forall|i: int| 0 <= i < p.len() implies is_digit(#[trigger] p[i]) by {
            assert(p[i] == t[i]);
        }
        lemma_numeral_nonnegative(p);
        assert(is_digit(t[t.len() - 1]));
    }
}

fn is_digit_char(c: char) -> (r: bool)
    ensures
        r == is_digit(c),
{
    let u = c as u32;
    48 <= u && u <= 57
}

fn digit_of(c: char) -> (d: u32)
    requires
        is_digit(c),
    ensures
        d == digit_value(c),
        d < 10,
{
    (c as u32) - 48
}

/// The number that `s` carries after `base` and a hyphen, when it is written
/// as `decimal` writes it and is at most `bound`.
fn numbered_suffix(base: &Vec<char>, s: &Vec<char>, bound: u128) -> (r: Option<u128>)
    requires
        bound < 0x1_0000_0000_0000_0000_0000_0000,
    ensures
        r matches Some(m) ==> m <= bound && s@ == numbered(base@, m as nat),
        forall|m: nat| m <= bound && s@ == numbered(base@, m) ==> r == Some(m as u128),
{
    let bl = base.len();
    let sl = s.len();
    if sl <= bl || sl - bl < 2 {
        proof {
            assert forall|m: nat| m <= bound && s@ == numbered(base@, m) implies false by {
                lemma_decimal_canonical(m);
            }
        }
        return None;
    }
    let mut i: usize = 0;
    while i < bl
        invariant
            i <= bl < sl,
            bl == base@.len(),
            sl == s@.len(),
            forall|j: int| 0 <= j < i ==> s@[j] == base@[j],
        decreases bl - i,
    {
        if s[i] != base[i] {
            proof {
                assert forall|m: nat| m <= bound && s@ == numbered(base@, m) implies false by {
                    assert(numbered(base@, m)[i as int] == base@[i as int]);
                }
            }
            return None;
        }
        i = i + 1;
    }
    if s[bl] != '-' {
        proof {
            assert forall|m: nat| m <= bound && s@ == numbered(base@, m) implies false by {
                assert(numbered(base@, m)[bl as int] == '-');
            }
        }
        return None;
    }
    let ghost rest = s@.subrange(bl + 1, sl as int);
    proof {
        assert forall|m: nat| s@ == numbered(base@, m) implies rest == decimal(m) by {
            assert(rest =~= decimal(m));
        }
    }
    if sl - bl > 2 && s[bl + 1] == '0' {
        proof {
            assert forall|m: nat| m <= bound && s@ == numbered(base@, m) implies false by {
                lemma_decimal_canonical(m);
                assert(rest[0] == '0');
                if m >= 1 {
                } else {
                    assert(decimal(m).len() == 1);
                }
            }
        }
        return None;
    }
    let mut value: u128 = 0;
    let mut j: usize = bl + 1;
    while j < sl
        invariant
            bl + 1 <= j <= sl,
            bl == base@.len(),
            sl == s@.len(),
            rest == s@.subrange(bl + 1, sl as int),
            forall|q: int| 0 <= q < j - (bl + 1) ==> is_digit(#[trigger] rest[q]),
            value == numeral_value(rest.take(j - (bl + 1))),
            value <= bound,
            bound < 0x1_0000_0000_0000_0000_0000_0000,
            forall|m: nat| s@ == numbered(base@, m) ==> rest == decimal(m),
        decreases sl - j,
    {
        let c = s[j];
        let ghost q = j - (bl + 1);
        assert(c == rest[q]);
        if !is_digit_char(c) {
            proof {
                assert forall|m: nat| m <= bound && s@ == numbered(base@, m) implies false by {
                    lemma_decimal_canonical(m);
                    assert(is_digit(decimal(m)[q]));
                }
            }
            return None;
        }
        let d = digit_of(c) as u128;
        let next = value * 10 + d;
        proof {
            let t = rest.take(q + 1);
            assert(t.drop_last() =~= rest.take(q));
            assert(t.last() == c);
            assert(numeral_value(t) == numeral_value(t.drop_last()) * 10 + digit_value(c));
            assert forall|p: int| 0 <= p < q + 1 implies is_digit(#[trigger] rest[p]) by {
                if p == q {
                    assert(rest[p] == c);
                }
            }
        }
        if next > bound {
            proof {
                assert forall|m: nat| m <= bound && s@ == numbered(base@, m) implies false by {
                    lemma_decimal_canonical(m);
                    lemma_numeral_prefix_monotone(rest, q + 1);
                }
            }
            return None;
        }
        value = next;
        j = j + 1;
    }
    proof {
        assert(rest.take(rest.len() as int) =~= rest);
        assert(is_canonical_numeral(rest));
        lemma_canonical_is_decimal(rest);
        assert(s@ =~= numbered(base@, value as nat));
        assert forall|m: nat| m <= bound && s@ == numbered(base@, m) implies value == m by {
            lemma_numbered_injective(base@, m, value as nat);
        }
    }
    Some(value)
}

/// The smallest `k >= first` such that `base-k` is not among `ids`.
fn free_number(base: &Vec<char>, ids: &Vec<String>, first: u128) -> (k: u128)
    requires
        first <= 1,
    ensures
        first <= k <= first + ids@.len(),
        !texts(ids@).contains(numbered(base@, k as nat)),
        forall|j: nat| first <= j < k ==> texts(ids@).contains(#[trigger] numbered(base@, j)),
{
    let n = ids.len();
    let bound: u128 = first + n as u128;
    let mut taken: Vec<bool> = Vec::new();
    for _q in 0..n
        invariant
            taken@.len() == _q,
            forall|t: int| 0 <= t < taken@.len() ==> !#[trigger] taken@[t],
    {
        taken.push(false);
    }
    taken.push(false);
    proof {
        lemma_count_none(taken@);
    }
    let ghost view = texts(ids@);
    let mut i: usize = 0;
    while i < n
        invariant
            i <= n,
            n == ids@.len(),
            view == texts(ids@),
            bound == first + n,
            first <= 1,
            taken@.len() == n + 1,
            count_true(taken@) <= i,
            forall|t: int|
                0 <= t <= n ==> (#[trigger] taken@[t] <==> exists|w: int|
                    0 <= w < i && view[w] == numbered(base@, (first + t) as nat)),
        decreases n - i,
    {
        let cs = chars_of(ids[i].as_str());
        let parsed = numbered_suffix(base, &cs, bound);
        let ghost before = taken@;
        match parsed {
            Some(m) => {
                if m >= first {
                    let t = (m - first) as usize;
                    taken.set(t, true);
                    proof {
                        lemma_count_update(before, t as int);
                    }
                }
            },
            None => {},
        }
        proof {
            assert(view[i as int] == ids@[i as int]@);
            assert forall|t: int| 0 <= t <= n implies (#[trigger] taken@[t] <==> exists|w: int|
                0 <= w < i + 1 && view[w] == numbered(base@, (first + t) as nat)) by {
                let k = (first + t) as nat;
                if view[i as int] == numbered(base@, k) {
                    assert(parsed == Some(k as u128));
                    assert(taken@[t]);
                } else {
                    match parsed {
                        Some(m) => {
                            if m >= first && t == m - first {
                                assert(view[i as int] == numbered(base@, m as nat));
                            }
                        },
                        None => {},
                    }
                    if exists|w: int| 0 <= w < i + 1 && view[w] == numbered(base@, k) {
                        let w = choose|w: int| 0 <= w < i + 1 && view[w] == numbered(base@, k);
                        assert(w != i);
                    }
                }
            }
        }
        i = i + 1;
    }
    proof {
        lemma_count_bounded(taken@);
    }
    let mut t: usize = 0;
    while t < taken.len() && taken[t]
        invariant
            t <= taken@.len(),
            taken@.len() == n + 1,
            count_true(taken@) <= n,
            forall|q: int| 0 <= q < t ==> #[trigger] taken@[q],
            (forall|q: int| 0 <= q < taken@.len() ==> #[trigger] taken@[q]) ==> count_true(taken@)
                == taken@.len(),
        decreases taken@.len() - t,
    {
        t = t + 1;
    }
    let k: u128 = first + t as u128;
    proof {
        if t == taken@.len() {
            assert(false);
        }
        assert(!taken@[t as int]);
        if view.contains(numbered(base@, k as nat)) {
            let w = choose|w: int| 0 <= w < view.len() && view[w] == numbered(base@, k as nat);
            assert(taken@[t as int]);
        }
        assert forall|j: nat| first <= j < k implies view.contains(#[trigger] numbered(base@, j)) by {
            let q = j - first;
            assert(taken@[q]);
            let w = choose|w: int| 0 <= w < n && view[w] == numbered(base@, (first + q) as nat);
            assert(view[w] == numbered(base@, j));
        }
    }
    k
}

proof fn lemma_first_free_unique(base: Seq<char>, ids: Seq<Seq<char>>, bare_first: bool, k: nat)
    requires
        is_first_free(base, ids, bare_first, k),
    ensures
        first_free_id(base, ids, bare_first) == id_candidate(base, k, bare_first),
{
    let c = choose|c: nat| is_first_free(base, ids, bare_first, c);
    assert(is_first_free(base, ids, bare_first, c));
    if c < k {
        assert(ids.contains(id_candidate(base, c, bare_first)));
    }
    if k < c {
        assert(ids.contains(id_candidate(base, k, bare_first)));
    }
}

/// Whether `id` is one of `ids`.
pub fn contains_text(ids: &Vec<String>, id: &str) -> (r: bool)
    ensures
        r == texts(ids@).contains(id@),
{
    let target: String = id.to_owned();
    let mut i: usize = 0;
    while i < ids.len()
        invariant
            i <= ids@.len(),
            target@ == id@,
            forall|j: int| 0 <= j < i ==> ids@[j]@ != id@,
        decreases ids@.len() - i,
    {
        if ids[i] == target {
            proof {
                assert(texts(ids@)[i as int] == id@);
            }
            return true;
        }
        i = i + 1;
    }
    proof {
        if texts(ids@).contains(id@) {
            let w = choose|w: int| 0 <= w < texts(ids@).len() && texts(ids@)[w] == id@;
            assert(ids@[w]@ == id@);
        }
    }
    false
}

/// A fresh id: `prefix-<now_ms>` when `bare_first` and it is free, otherwise
/// the free `prefix-<now_ms>-<n>` with the smallest `n` (counting from 1 after
/// a bare candidate, from 0 otherwise).
fn fresh_id(prefix: &str, now_ms: i64, ids: &Vec<String>, bare_first: bool) -> (r: String)
    ensures
        r@ == first_free_id(id_base(prefix@, now_ms), texts(ids@), bare_first),
        !texts(ids@).contains(r@),
{
    let mut base: String = prefix.to_owned();
    let hyphen = "-";
    proof {
        reveal_strlit("-");
    }
    base.append(hyphen);
    let stamp = int_text(now_ms as i128);
    base.append(stamp.as_str());
    let ghost b = id_base(prefix@, now_ms);
    assert(base@ =~= b);
    if bare_first && !contains_text(ids, base.as_str()) {
        proof {
            lemma_first_free_unique(b, texts(ids@), bare_first, 0);
        }
        return base;
    }
    let base_chars = chars_of(base.as_str());
    let first: u128 = if bare_first {
        1
    } else {
        0
    };
    let count = ids.len();
    let k = free_number(&base_chars, ids, first);
    assert(k <= 1 + count);
    let mut id = base;
    id.append(hyphen);
    let suffix = int_text(k as i128);
    id.append(suffix.as_str());
    proof {
        assert(id@ =~= numbered(b, k as nat));
        assert forall|j: nat| j < k implies texts(ids@).contains(
            #[trigger] id_candidate(b, j, bare_first),
        ) by {
            if bare_first && j == 0 {
            } else {
                assert(texts(ids@).contains(numbered(b, j)));
            }
        }
        lemma_first_free_unique(b, texts(ids@), bare_first, k as nat);
    }
    id
}

/// A fresh id for a task, an interruption or a session: `prefix-<now_ms>`,
/// or the first free `prefix-<now_ms>-<n>` from 1 when that is taken.
pub fn unique_id(prefix: &str, now_ms: i64, ids: &Vec<String>) -> (r: String)
    ensures
        r@ == first_free_id(id_base(prefix@, now_ms), texts(ids@), true),
        !texts(ids@).contains(r@),
{
    fresh_id(prefix, now_ms, ids, true)
}

/// A fresh id for a captured notification: the first free
/// `notif-<now_ms>-<n>`, counting from 0.
pub fn unique_notification_id(now_ms: i64, ids: &Vec<String>) -> (r: String)
    ensures
        r@ == first_free_id(id_base("notif"@, now_ms), texts(ids@), false),
        !texts(ids@).contains(r@),
{
    fresh_id("notif", now_ms, ids, false)
}

} // verus!
