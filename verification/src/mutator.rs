//! ID mutator: expands one seed identifier into an ordered, deduplicated set
//! of candidate values for BOLA probing — adjacent numeric IDs, privileged
//! IDs (0, 1, admin) and boundary values.

use vstd::prelude::*;
use crate::text::{
    is_ascii_digit_char, dec_spec, lex_lt, lex_lt_irrefl, lex_lt_trans, lex_lt_connected,
    strictly_sorted, str_eq, str_lex_lt, u64_to_string, views,
};

verus! {

/// Length of the maximal run of ASCII digits at the end of a string.
pub open spec fn digit_suffix_len(s: Seq<char>) -> nat
    decreases s.len(),
{
    if s.len() == 0 || !is_ascii_digit_char(s.last()) {
        0
    } else {
        1 + digit_suffix_len(s.drop_last())
    }
}

/// Numeric value of a single decimal digit character.
pub open spec fn digit_val(c: char) -> nat
    recommends
        is_ascii_digit_char(c),
{
    (c as u32 - '0' as u32) as nat
}

/// Numeric value of a run of decimal digit characters.
pub open spec fn digits_val(ds: Seq<char>) -> nat
    decreases ds.len(),
{
    if ds.len() == 0 {
        0
    } else {
        digits_val(ds.drop_last()) * 10 + digit_val(ds.last())
    }
}

/// The part of the seed before its trailing digit run.
pub open spec fn seed_base(s: Seq<char>) -> Seq<char> {
    s.take(s.len() - digit_suffix_len(s))
}

/// The trailing digit run of the seed.
pub open spec fn seed_digits(s: Seq<char>) -> Seq<char> {
    s.skip(s.len() - digit_suffix_len(s))
}

/// The seed ends in digits whose value the machine can represent; only then
/// are adjacent IDs generated.
pub open spec fn has_numeric_suffix(s: Seq<char>) -> bool {
    digit_suffix_len(s) > 0 && digits_val(seed_digits(s)) <= usize::MAX
}

/// Adjacent IDs reproduce the seed's leading-zero convention: a suffix such
/// as "007" keeps its width, a plain "7" does not.
pub open spec fn keeps_leading_zeros(s: Seq<char>) -> bool {
    digit_suffix_len(s) > 1 && seed_digits(s)[0] == '0'
}

pub open spec fn zeros(n: nat) -> Seq<char> {
    Seq::new(n, |i: int| '0')
}

/// Digits padded on the left with '0' up to width `w`.
pub open spec fn pad_left(s: Seq<char>, w: nat) -> Seq<char> {
    if s.len() >= w {
        s
    } else {
        zeros((w - s.len()) as nat) + s
    }
}

/// The candidate string for numeric value `m` derived from seed `s`.
pub open spec fn adjacent_id(s: Seq<char>, m: nat) -> Seq<char> {
    seed_base(s) + if keeps_leading_zeros(s) {
        pad_left(dec_spec(m), digit_suffix_len(s))
    } else {
        dec_spec(m)
    }
}

/// Candidates below the seed value, for offsets `d, d-1, ..., 1`; offsets
/// that would go negative are skipped.
pub open spec fn adjacent_below(s: Seq<char>, n: nat, d: int) -> Seq<Seq<char>>
    decreases d,
{
    if d <= 0 {
        Seq::empty()
    } else {
        let rest = adjacent_below(s, n, d - 1);
        if d <= n {
            seq![adjacent_id(s, (n - d) as nat)] + rest
        } else {
            rest
        }
    }
}

/// Candidates above the seed value, for offsets `d, d+1, ..., range`;
/// offsets past the machine limit are skipped.
pub open spec fn adjacent_above(s: Seq<char>, n: nat, d: int, range: int) -> Seq<Seq<char>>
    decreases range + 1 - d,
{
    if d > range {
        Seq::empty()
    } else {
        let rest = adjacent_above(s, n, d + 1, range);
        if n + d <= usize::MAX {
            seq![adjacent_id(s, (n + d) as nat)] + rest
        } else {
            rest
        }
    }
}

/// All adjacent IDs of a seed, nearest-below to nearest-above, the seed value
/// itself excluded. Empty when the seed has no usable numeric suffix.
pub open spec fn adjacent_ids(s: Seq<char>, range: nat) -> Seq<Seq<char>> {
    if !has_numeric_suffix(s) {
        Seq::empty()
    } else {
        let n = digits_val(seed_digits(s));
        adjacent_below(s, n, range as int) + adjacent_above(s, n, 1, range as int)
    }
}

/// The fixed boundary candidates appended to every mutation set.
pub open spec fn boundary_values() -> Seq<Seq<char>> {
    seq!["0"@, "1"@, "admin"@, "-1"@, ""@, "null"@]
}

/// Everything `mutate_param` draws from: the seed, its adjacent IDs at
/// radius 2, and the boundary candidates.
pub open spec fn mutation_pool(s: Seq<char>) -> Seq<Seq<char>> {
    seq![s] + adjacent_ids(s, 2) + boundary_values()
}

proof fn lemma_digit_suffix_len_at(s: Seq<char>, k: nat)
    requires
        k <= s.len(),
        forall|t: int| 0 <= t < k ==> is_ascii_digit_char(#[trigger] s[s.len() - 1 - t]),
        k == s.len() || !is_ascii_digit_char(s[s.len() - 1 - k]),
    ensures
        digit_suffix_len(s) == k,
    decreases s.len(),
{
    if s.len() == 0 {
    } else if k == 0 {
        assert(!is_ascii_digit_char(s.last()));
    } else {
        assert(s[s.len() - 1 - 0] == s.last());
        assert(is_ascii_digit_char(s.last()));
        let d = s.drop_last();
        assert forall|t: int| 0 <= t < k - 1 implies is_ascii_digit_char(#[trigger] d[d.len() - 1 - t]) by {
            assert(d[d.len() - 1 - t] == s[s.len() - 1 - (t + 1)]);
        }
        if k - 1 < d.len() {
            assert(d[d.len() - 1 - (k - 1)] == s[s.len() - 1 - k as int]);
        }
        lemma_digit_suffix_len_at(d, (k - 1) as nat);
    }
}

proof fn lemma_digit_suffix_len_le(s: Seq<char>)
    ensures
        digit_suffix_len(s) <= s.len(),
    decreases s.len(),
{
    if s.len() > 0 && is_ascii_digit_char(s.last()) {
        lemma_digit_suffix_len_le(s.drop_last());
    }
}

proof fn lemma_digits_val_step(ds: Seq<char>, j: int)
    requires
        0 <= j < ds.len(),
    ensures
        digits_val(ds.take(j + 1)) == digits_val(ds.take(j)) * 10 + digit_val(ds[j]),
{
    assert(ds.take(j + 1).drop_last() =~= ds.take(j));
    assert(ds.take(j + 1).last() == ds[j]);
}

proof fn lemma_digits_val_prefix_le(ds: Seq<char>, j: int)
    requires
        0 <= j <= ds.len(),
    ensures
        digits_val(ds.take(j)) <= digits_val(ds),
    decreases ds.len() - j,
{
    if j == ds.len() {
        assert(ds.take(j) =~= ds);
    } else {
        lemma_digits_val_step(ds, j);
        lemma_digits_val_prefix_le(ds, j + 1);
    }
}

/// Split a seed into its base and the numeric value of its trailing digit
/// run. `None` when no digits trail the seed, or when their value exceeds
/// what the machine can hold.
pub fn extract_base_and_number<'a>(param: &'a str) -> (r: Option<(&'a str, usize)>)
    ensures
        match r {
            Some(p) => has_numeric_suffix(param@) && p.0@ == seed_base(param@) && p.1
                == digits_val(seed_digits(param@)),
            None => !has_numeric_suffix(param@),
        },
{
    let len = param.unicode_len();
    let mut k: usize = 0;
    let mut scanning = true;
    while scanning
        invariant
            len == param@.len(),
            0 <= k <= len,
            forall|t: int| 0 <= t < k ==> is_ascii_digit_char(#[trigger] param@[len - 1 - t]),
            !scanning ==> (k == len || !is_ascii_digit_char(param@[len - 1 - k as int])),
        decreases len - k + (if scanning { 1int } else { 0int }),
    {
        if k < len {
            let c = param.get_char(len - 1 - k);
            if '0' <= c && c <= '9' {
                k = k + 1;
            } else {
                scanning = false;
            }
        } else {
            scanning = false;
        }
    }
    proof {
        lemma_digit_suffix_len_at(param@, k as nat);
    }
    if k == 0 {
        return None;
    }
    let ghost run = seed_digits(param@);
    proof {
        lemma_digit_suffix_len_le(param@);
        assert(run.len() == k);
        assert(forall|t: int| 0 <= t < k ==> #[trigger] run[t] == param@[len - k + t]);
        assert forall|t: int| 0 <= t < k implies is_ascii_digit_char(#[trigger] param@[len - k + t]) by {
            assert(is_ascii_digit_char(param@[len - 1 - (k - 1 - t)]));
        }
        assert(param@.take(0) =~= run.take(0));
    }
    // Parse the digit run, watching for overflow.
    let mut acc: usize = 0;
    let mut i: usize = 0;
    while i < k
        invariant
            len == param@.len(),
            0 < k <= len,
            run == seed_digits(param@),
            run.len() == k,
            forall|t: int| 0 <= t < k ==> #[trigger] run[t] == param@[len - k + t]
                && is_ascii_digit_char(param@[len - k + t]),
            0 <= i <= k,
            acc == digits_val(run.take(i as int)),
        decreases k - i,
    {
        let c = param.get_char(len - k + i);
        assert(run[i as int] == param@[len - k + i]);
        assert(is_ascii_digit_char(c));
        let d = (c as u32 - '0' as u32) as usize;
        assert(d == digit_val(run[i as int]));
        if acc > (usize::MAX - d) / 10 {
            proof {
                lemma_digits_val_step(run, i as int);
                assert(digits_val(run.take(i + 1)) > usize::MAX) by (nonlinear_arith)
                    requires
                        digits_val(run.take(i + 1)) == acc * 10 + d,
                        acc > (usize::MAX - d) / 10,
                        d < 10,
                {}
                lemma_digits_val_prefix_le(run, i + 1);
            }
            return None;
        }
        proof {
            lemma_digits_val_step(run, i as int);
            assert(acc * 10 + d <= usize::MAX) by (nonlinear_arith)
                requires
                    acc <= (usize::MAX - d) / 10,
                    d < 10,
            {}
        }
        acc = acc * 10 + d;
        i = i + 1;
    }
    proof {
        assert(run.take(k as int) =~= run);
    }
    let base = param.substring_char(0, len - k);
    Some((base, acc))
}

/// Whether the seed's trailing digit run starts with a redundant zero, the
/// convention that adjacent IDs reproduce.
pub fn has_leading_zeros(param: &str) -> (r: bool)
    ensures
        r == keeps_leading_zeros(param@),
{
    let len = param.unicode_len();
    let mut k: usize = 0;
    let mut scanning = true;
    while scanning
        invariant
            len == param@.len(),
            0 <= k <= len,
            forall|t: int| 0 <= t < k ==> is_ascii_digit_char(#[trigger] param@[len - 1 - t]),
            !scanning ==> (k == len || !is_ascii_digit_char(param@[len - 1 - k as int])),
        decreases len - k + (if scanning { 1int } else { 0int }),
    {
        if k < len {
            let c = param.get_char(len - 1 - k);
            if '0' <= c && c <= '9' {
                k = k + 1;
            } else {
                scanning = false;
            }
        } else {
            scanning = false;
        }
    }
    proof {
        lemma_digit_suffix_len_at(param@, k as nat);
    }
    if k > 1 {
        param.get_char(len - k) == '0'
    } else {
        false
    }
}

/// Number of decimal digits in a number's usual rendering.
pub fn count_digits(n: usize) -> (r: usize)
    ensures
        r == dec_spec(n as nat).len(),
    decreases n,
{
    if n < 10 {
        1
    } else {
        let rest = count_digits(n / 10);
        assert(rest < usize::MAX) by {
            crate::text::lemma_dec_spec_len((n / 10) as nat);
        }
        1 + rest
    }
}

fn format_adjacent(base: &str, m: usize, width: usize, pad: bool) -> (r: String)
    ensures
        r@ == base@ + if pad {
            pad_left(dec_spec(m as nat), width as nat)
        } else {
            dec_spec(m as nat)
        },
{
    let mut digits = u64_to_string(m as u64);
    if pad {
        let ghost d0 = digits@;
        let mut dl = digits.unicode_len();
        let ghost j: nat = 0nat;
        while dl < width
            invariant
                d0 == dec_spec(m as nat),
                digits@ == zeros(j) + d0,
                dl == digits@.len(),
                j > 0 ==> dl <= width,
            decreases width - dl,
        {
            let zero: &str = "0";
            proof {
                reveal_strlit("0");
                assert(zero@ =~= seq!['0']);
            }
            digits = zero.to_owned().concat(digits.as_str());
            proof {
                j = j + 1;
                assert(digits@ =~= zeros(j) + d0);
            }
            dl = dl + 1;
        }
        proof {
            assert(digits@ =~= pad_left(d0, width as nat));
        }
    }
    let r = base.to_owned().concat(digits.as_str());
    r
}

/// Generate IDs adjacent to the seed's numeric suffix, nearest-below first,
/// excluding the seed itself and any negative value. `None` when the seed
/// yields no adjacent IDs at all.
#[verifier::loop_isolation(false)]
pub fn generate_adjacent_ids(param: &str, range: usize) -> (r: Option<Vec<String>>)
    ensures
        match r {
            Some(v) => views(v@) == adjacent_ids(param@, range as nat) && v@.len() > 0,
            None => adjacent_ids(param@, range as nat).len() == 0,
        },
{
    let parsed = extract_base_and_number(param);
    match parsed {
        None => None,
        Some((base, n)) => {
            let ghost s = param@;
            let ghost nn = n as nat;
            let len = param.unicode_len();
            let baselen = base.unicode_len();
            proof {
                lemma_digit_suffix_len_le(s);
                assert(baselen == seed_base(s).len());
                assert(baselen == len - digit_suffix_len(s));
            }
            let k = len - baselen;
            proof {
                assert(k == digit_suffix_len(s));
            }
            let pad = if k > 1 {
                let c = param.get_char(len - k);
                assert(c == seed_digits(s)[0]);
                c == '0'
            } else {
                false
            };
            assert(pad == keeps_leading_zeros(s));

            let mut out: Vec<String> = Vec::new();
            let mut d = range;
            while d >= 1
                invariant
                    0 <= d <= range,
                    nn == digits_val(seed_digits(s)),
                    base@ == seed_base(s),
                    k == digit_suffix_len(s),
                    pad == keeps_leading_zeros(s),
                    adjacent_below(s, nn, range as int) =~= views(out@) + adjacent_below(
                        s,
                        nn,
                        d as int,
                    ),
                decreases d,
            {
                let ghost before = views(out@);
                if d <= n {
                    let m = n - d;
                    let cand = format_adjacent(base, m, k, pad);
                    proof {
                        assert(cand@ == adjacent_id(s, (nn - d) as nat));
                    }
                    out.push(cand);
                    proof {
                        assert(views(out@) =~= before.push(cand@));
                        assert(adjacent_below(s, nn, d as int) =~= seq![cand@] + adjacent_below(
                            s,
                            nn,
                            d - 1,
                        ));
                        assert(before + adjacent_below(s, nn, d as int) =~= views(out@)
                            + adjacent_below(s, nn, d - 1));
                    }
                } else {
                    proof {
                        assert(adjacent_below(s, nn, d as int) =~= adjacent_below(s, nn, d - 1));
                    }
                }
                d = d - 1;
            }
            proof {
                assert(adjacent_below(s, nn, 0) =~= Seq::<Seq<char>>::empty());
                assert(adjacent_below(s, nn, range as int) =~= views(out@));
            }
            let ghost below = views(out@);

            let mut dd: usize = 0;
            while dd < range
                invariant
                    0 <= dd <= range,
                    nn == digits_val(seed_digits(s)),
                    base@ == seed_base(s),
                    k == digit_suffix_len(s),
                    pad == keeps_leading_zeros(s),
                    below == adjacent_below(s, nn, range as int),
                    views(out@) =~= below + adjacent_above(s, nn, 1, dd as int),
                decreases range - dd,
            {
                let d = dd + 1;
                let ghost before = views(out@);
                if d <= usize::MAX - n {
                    let m = n + d;
                    let cand = format_adjacent(base, m, k, pad);
                    proof {
                        assert(cand@ == adjacent_id(s, (nn + d) as nat));
                    }
                    out.push(cand);
                    proof {
                        assert(views(out@) =~= before.push(cand@));
                        lemma_adjacent_above_snoc(s, nn, 1, d as int);
                        assert(adjacent_above(s, nn, 1, d as int) =~= adjacent_above(
                            s,
                            nn,
                            1,
                            dd as int,
                        ) + seq![cand@]);
                        assert(below + adjacent_above(s, nn, 1, d as int) =~= views(out@));
                    }
                } else {
                    proof {
                        lemma_adjacent_above_snoc(s, nn, 1, d as int);
                        assert(adjacent_above(s, nn, 1, d as int) =~= adjacent_above(
                            s,
                            nn,
                            1,
                            dd as int,
                        ));
                    }
                }
                dd = d;
            }
            proof {
                assert(adjacent_ids(s, range as nat) == adjacent_below(s, nn, range as int)
                    + adjacent_above(s, nn, 1, range as int));
            }
            if out.len() == 0 {
                proof {
                    assert(adjacent_ids(s, range as nat) =~= views(out@));
                }
                None
            } else {
                proof {
                    assert(views(out@) =~= adjacent_ids(s, range as nat));
                }
                Some(out)
            }
        },
    }
}

/// Appending offset `hi` to the range `[lo, hi-1]` extends the candidate
/// list at its end.
proof fn lemma_adjacent_above_snoc(s: Seq<char>, n: nat, lo: int, hi: int)
    requires
        lo <= hi,
    ensures
        adjacent_above(s, n, lo, hi) =~= adjacent_above(s, n, lo, hi - 1) + (if n + hi
            <= usize::MAX {
            seq![adjacent_id(s, (n + hi) as nat)]
        } else {
            Seq::empty()
        }),
    decreases hi - lo,
{
    if lo == hi {
        assert(adjacent_above(s, n, lo + 1, hi) =~= Seq::<Seq<char>>::empty());
        assert(adjacent_above(s, n, lo, hi - 1) =~= Seq::<Seq<char>>::empty());
    } else {
        lemma_adjacent_above_snoc(s, n, lo + 1, hi);
    }
}

fn find_insert_pos(out: &Vec<String>, c: &str) -> (pos: usize)
    requires
        strictly_sorted(views(out@)),
    ensures
        pos <= out@.len(),
        forall|i: int| 0 <= i < pos ==> lex_lt(out@[i]@, c@),
        pos < out@.len() ==> !lex_lt(out@[pos as int]@, c@),
{
    let mut pos: usize = 0;
    while pos < out.len()
        invariant_except_break
            0 <= pos <= out@.len(),
            forall|i: int| 0 <= i < pos ==> lex_lt(out@[i]@, c@),
        ensures
            0 <= pos <= out@.len(),
            forall|i: int| 0 <= i < pos ==> lex_lt(out@[i]@, c@),
            pos < out@.len() ==> !lex_lt(out@[pos as int]@, c@),
        decreases out@.len() - pos,
    {
        if str_lex_lt(out[pos].as_str(), c) {
            pos = pos + 1;
        } else {
            break;
        }
    }
    pos
}

/// Insert a candidate into a strictly sorted vector, keeping it strictly
/// sorted; a candidate already present is dropped.
fn insert_unique(out: &mut Vec<String>, c: String)
    requires
        strictly_sorted(views(old(out)@)),
    ensures
        strictly_sorted(views(final(out)@)),
        forall|x: Seq<char>| #[trigger] views(final(out)@).contains(x) <==> (views(
            old(out)@,
        ).contains(x) || x == c@),
{
    let ghost pre = views(out@);
    let pos = find_insert_pos(out, c.as_str());
    if pos < out.len() && str_eq(out[pos].as_str(), c.as_str()) {
        proof {
            assert(pre.contains(c@)) by {
                assert(pre[pos as int] == c@);
            }
        }
        return;
    }
    proof {
        if pos < out@.len() {
            if !lex_lt(c@, out@[pos as int]@) {
                lex_lt_connected(out@[pos as int]@, c@);
                assert(false);
            }
        }
    }
    out.insert(pos, c);
    proof {
        let post = views(out@);
        assert(post =~= pre.take(pos as int) + seq![c@] + pre.skip(pos as int));
        assert forall|i: int, j: int| 0 <= i < j < post.len() implies lex_lt(post[i], post[j]) by {
            let p = pos as int;
            if i < p && j == p {
                assert(post[i] == pre[i]);
            } else if i == p && j > p {
                assert(post[j] == pre[j - 1]);
                if j - 1 > p {
                    lex_lt_trans(c@, pre[p], pre[j - 1]);
                }
            } else if i < p && j > p {
                assert(post[i] == pre[i] && post[j] == pre[j - 1]);
            } else {
            }
        }
        assert forall|x: Seq<char>| #[trigger] post.contains(x) implies (pre.contains(x) || x
            == c@) by {
            let w = choose|w: int| 0 <= w < post.len() && post[w] == x;
            if w < pos as int {
                assert(pre[w] == x);
            } else if w == pos as int {
            } else {
                assert(pre[w - 1] == x);
            }
        }
        assert forall|x: Seq<char>| (pre.contains(x) || x == c@) implies #[trigger] post.contains(
            x,
        ) by {
            if pre.contains(x) {
                let w = choose|w: int| 0 <= w < pre.len() && pre[w] == x;
                if w < pos as int {
                    assert(post[w] == x);
                } else {
                    assert(post[w + 1] == x);
                }
            } else {
                assert(post[pos as int] == x);
            }
        }
    }
}

/// Generate the BOLA candidate set for one parameter value: the seed itself,
/// adjacent numeric IDs at radius 2, and the fixed boundary values, sorted
/// lexicographically with duplicates removed. The seed always survives and
/// no candidate appears twice.
pub fn mutate_param(param: &str) -> (r: Vec<String>)
    ensures
        forall|x: Seq<char>| #[trigger] views(r@).contains(x) <==> mutation_pool(
            param@,
        ).contains(x),
        strictly_sorted(views(r@)),
        views(r@).contains(param@),
        forall|i: int, j: int| 0 <= i < j < r@.len() ==> r@[i]@ != r@[j]@,
{
    let ghost pool_spec = mutation_pool(param@);
    let mut pool: Vec<String> = Vec::new();
    pool.push(param.to_owned());
    match generate_adjacent_ids(param, 2) {
        Some(mut adj) => {
            pool.append(&mut adj);
        },
        None => {},
    }
    pool.push("0".to_owned());
    pool.push("1".to_owned());
    pool.push("admin".to_owned());
    pool.push("-1".to_owned());
    pool.push("".to_owned());
    pool.push("null".to_owned());
    proof {
        assert(views(pool@) =~= pool_spec);
    }
    let mut out: Vec<String> = Vec::new();
    let mut idx: usize = 0;
    while idx < pool.len()
        invariant
            0 <= idx <= pool@.len(),
            strictly_sorted(views(out@)),
            forall|x: Seq<char>| #[trigger] views(out@).contains(x) <==> views(
                pool@.take(idx as int),
            ).contains(x),
        decreases pool@.len() - idx,
    {
        let c = pool[idx].clone();
        let ghost before = views(out@);
        insert_unique(&mut out, c);
        proof {
            assert(views(pool@.take(idx + 1)) =~= views(pool@.take(idx as int)).push(
                pool@[idx as int]@,
            ));
            assert forall|x: Seq<char>| #[trigger] views(out@).contains(x) implies views(
                pool@.take(idx + 1),
            ).contains(x) by {
                let vp = views(pool@.take(idx + 1));
                if x == pool@[idx as int]@ {
                    assert(vp[vp.len() - 1] == x);
                } else {
                    let vt = views(pool@.take(idx as int));
                    assert(vt.contains(x));
                    let w = choose|w: int| 0 <= w < vt.len() && vt[w] == x;
                    assert(vp[w] == x);
                }
            }
            assert forall|x: Seq<char>| #[trigger] views(pool@.take(idx + 1)).contains(
                x,
            ) implies views(out@).contains(x) by {
                let vp = views(pool@.take(idx + 1));
                let w = choose|w: int| 0 <= w < vp.len() && vp[w] == x;
                if w < idx as int {
                    assert(views(pool@.take(idx as int))[w] == x);
                }
            }
        }
        idx = idx + 1;
    }
    proof {
        assert(pool@.take(pool@.len() as int) =~= pool@);
        // The seed is in the pool, hence in the result.
        assert(pool_spec[0] == param@);
        assert(pool_spec.contains(param@));
        // Strict sortedness rules out duplicates.
        assert forall|i: int, j: int| 0 <= i < j < out@.len() implies out@[i]@ != out@[j]@ by {
            assert(lex_lt(views(out@)[i], views(out@)[j]));
            lex_lt_irrefl(views(out@)[i]);
        }
    }
    out
}

} // verus!
