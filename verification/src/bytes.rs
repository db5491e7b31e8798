//! Verified byte-sequence utilities: searching, splitting, tokenizing,
//! ASCII lowering, and decimal rendering. These are the primitives the
//! request parser and response builder are specified with.
use vstd::prelude::*;

verus! {

/// An ASCII whitespace byte: space, tab, line feed, vertical tab,
/// form feed or carriage return.
pub open spec fn is_ws(b: u8) -> bool {
    b == 32 || b == 9 || b == 10 || b == 11 || b == 12 || b == 13
}

/// The pattern `p` occurs in `s` at position `i`.
pub open spec fn match_at(s: Seq<u8>, p: Seq<u8>, i: int) -> bool {
    &&& 0 <= i
    &&& i + p.len() <= s.len()
    &&& forall|k: int| 0 <= k < p.len() ==> s[i + k] == p[k]
}

/// The position of the first occurrence of `p` in `s`, if any.
pub open spec fn find_sub(s: Seq<u8>, p: Seq<u8>) -> Option<int>
    decreases s.len(),
{
    if match_at(s, p, 0) {
        Some(0int)
    } else if s.len() == 0 {
        None
    } else {
        match find_sub(s.subrange(1, s.len() as int), p) {
            Some(i) => Some(i + 1),
            None => None,
        }
    }
}

/// Shifting: `p` occurs in the tail of `s` at `i` exactly when it occurs
/// in `s` at `i + 1`.
proof fn lemma_match_at_shift(s: Seq<u8>, p: Seq<u8>, i: int)
    requires
        s.len() >= 1,
        i >= 0,
    ensures
        match_at(s.subrange(1, s.len() as int), p, i) <==> match_at(s, p, i + 1),
{
    let t = s.subrange(1, s.len() as int);
    if match_at(t, p, i) {
        assert(forall|k: int| 0 <= k < p.len() ==> s[i + 1 + k] == t[i + k] && t[i + k] == p[k]);
    }
    if match_at(s, p, i + 1) {
        assert(forall|k: int| 0 <= k < p.len() ==> t[i + k] == s[i + 1 + k] && s[i + 1 + k] == p[k]);
    }
}

/// `find_sub` returns the first occurrence of `p` in `s`, or `None` when
/// there is none.
pub proof fn lemma_find_sub_correct(s: Seq<u8>, p: Seq<u8>)
    ensures
        match find_sub(s, p) {
            Some(i) => match_at(s, p, i) && forall|j: int| 0 <= j < i ==> !match_at(s, p, j),
            None => forall|j: int| !match_at(s, p, j),
        },
    decreases s.len(),
{
    if match_at(s, p, 0) {
    } else if s.len() == 0 {
        assert forall|j: int| !match_at(s, p, j) by {
            if 0 <= j && j + p.len() <= s.len() {
                assert(p.len() == 0);
            }
        }
    } else {
        let t = s.subrange(1, s.len() as int);
        lemma_find_sub_correct(t, p);
        match find_sub(t, p) {
            Some(i) => {
                lemma_match_at_shift(s, p, i);
                assert forall|j: int| 0 <= j < i + 1 implies !match_at(s, p, j) by {
                    if j > 0 {
                        lemma_match_at_shift(s, p, j - 1);
                    }
                }
            },
            None => {
                assert forall|j: int| !match_at(s, p, j) by {
                    if j > 0 {
                        lemma_match_at_shift(s, p, j - 1);
                    }
                }
            },
        }
    }
}

/// Whether `p` occurs in `s` starting at `i`, checked byte by byte.
fn eq_at(s: &Vec<u8>, p: &Vec<u8>, i: usize) -> (r: bool)
    requires
        i + p@.len() <= s@.len(),
    ensures
        r == match_at(s@, p@, i as int),
{
    let n = s.len();
    let mut k: usize = 0;
    while k < p.len()
        invariant
            0 <= k <= p@.len(),
            i + p@.len() <= s@.len(),
            s@.len() <= usize::MAX,
            forall|m: int| 0 <= m < k ==> s@[i + m] == p@[m],
        decreases p@.len() - k,
    {
        if s[i + k] != p[k] {
            return false;
        }
        k += 1;
    }
    true
}

/// Finds the first occurrence of `p` in `s`.
pub fn find(s: &Vec<u8>, p: &Vec<u8>) -> (r: Option<usize>)
    requires
        p@.len() >= 1,
    ensures
        r matches Some(i) ==> find_sub(s@, p@) == Some(i as int),
        r is None ==> find_sub(s@, p@) is None,
{
    proof {
        lemma_find_sub_correct(s@, p@);
    }
    if p.len() > s.len() {
        return None;
    }
    let mut i: usize = 0;
    let last = s.len() - p.len();
    while i <= last
        invariant
            p@.len() >= 1,
            last == s@.len() - p@.len(),
            s@.len() <= usize::MAX,
            i <= last + 1,
            forall|j: int| 0 <= j < i ==> !match_at(s@, p@, j),
        decreases last + 1 - i,
    {
        if eq_at(s, p, i) {
            proof {
                lemma_find_sub_correct(s@, p@);
                match find_sub(s@, p@) {
                    Some(f) => {
                        assert(!(f < i) && !(i < f));
                    },
                    None => {
                        assert(false);
                    },
                }
            }
            return Some(i);
        }
        i += 1;
    }
    proof {
        assert forall|j: int| !match_at(s@, p@, j) by {
            if 0 <= j && j + p@.len() <= s@.len() {
                assert(j <= last);
                assert(j < i);
            }
        }
        lemma_find_sub_correct(s@, p@);
        if find_sub(s@, p@) is Some {
            assert(false);
        }
    }
    None
}

/// Copies the bytes of `s` between `i` and `j` into a fresh vector.
pub fn sub_vec(s: &Vec<u8>, i: usize, j: usize) -> (r: Vec<u8>)
    requires
        i <= j <= s@.len(),
    ensures
        r@ == s@.subrange(i as int, j as int),
{
    let mut r: Vec<u8> = Vec::new();
    let mut k: usize = i;
    while k < j
        invariant
            i <= k <= j <= s@.len(),
            r@ == s@.subrange(i as int, k as int),
        decreases j - k,
    {
        r.push(s[k]);
        proof {
            assert(r@ =~= s@.subrange(i as int, k + 1));
        }
        k += 1;
    }
    r
}

/// Appends the bytes of `src` to `dst`.
pub fn push_all(dst: &mut Vec<u8>, src: &Vec<u8>)
    ensures
        final(dst)@ == old(dst)@ + src@,
{
    let n = src.len();
    let mut k: usize = 0;
    while k < n
        invariant
            n == src@.len(),
            0 <= k <= n,
            dst@ == old(dst)@ + src@.subrange(0, k as int),
        decreases n - k,
    {
        dst.push(src[k]);
        proof {
            assert(dst@ =~= old(dst)@ + src@.subrange(0, k + 1));
        }
        k += 1;
    }
    proof {
        assert(dst@ =~= old(dst)@ + src@);
    }
}

/// An upper-case ASCII letter mapped to its lower-case form; any other
/// byte is left as it is.
pub open spec fn lower(b: u8) -> u8 {
    if 65 <= b <= 90 {
        (b + 32) as u8
    } else {
        b
    }
}

/// The byte-wise ASCII lowering of a sequence.
pub open spec fn lower_seq(s: Seq<u8>) -> Seq<u8> {
    s.map_values(|b: u8| lower(b))
}

/// Lowers every upper-case ASCII letter of `s`.
pub fn to_lower(s: &Vec<u8>) -> (r: Vec<u8>)
    ensures
        r@ == lower_seq(s@),
{
    let n = s.len();
    let mut r: Vec<u8> = Vec::new();
    let mut k: usize = 0;
    while k < n
        invariant
            n == s@.len(),
            0 <= k <= n,
            r@ == lower_seq(s@.subrange(0, k as int)),
        decreases n - k,
    {
        let b = s[k];
        if 65 <= b && b <= 90 {
            r.push(b + 32);
        } else {
            r.push(b);
        }
        proof {
            assert(r@ =~= lower_seq(s@.subrange(0, k + 1)));
        }
        k += 1;
    }
    proof {
        assert(r@ =~= lower_seq(s@));
    }
    r
}

/// `s` begins with the prefix `p`.
pub open spec fn starts_with(s: Seq<u8>, p: Seq<u8>) -> bool {
    match_at(s, p, 0)
}

/// Tests whether `s` begins with the prefix `p`.
pub fn has_prefix(s: &Vec<u8>, p: &Vec<u8>) -> (r: bool)
    ensures
        r == starts_with(s@, p@),
{
    if p.len() > s.len() {
        return false;
    }
    eq_at(s, p, 0)
}

/// The pieces of `s` between the occurrences of the separator `sep`,
/// in order. Splitting never yields fewer than one piece: a sequence
/// with no separator is one piece, and an empty sequence is one empty
/// piece.
pub open spec fn split_all(s: Seq<u8>, sep: Seq<u8>) -> Seq<Seq<u8>>
    decreases s.len() when sep.len() >= 1
{
    if match_at(s, sep, 0) {
        seq![Seq::<u8>::empty()] + split_all(s.subrange(sep.len() as int, s.len() as int), sep)
    } else if s.len() == 0 {
        seq![Seq::<u8>::empty()]
    } else {
        let rest = split_all(s.subrange(1, s.len() as int), sep);
        seq![seq![s[0]] + rest[0]] + rest.subrange(1, rest.len() as int)
    }
}

/// Where the separator does not occur, the whole of `s` is the one piece.
pub proof fn lemma_split_all_none(s: Seq<u8>, sep: Seq<u8>)
    requires
        sep.len() >= 1,
        forall|j: int| !match_at(s, sep, j),
    ensures
        split_all(s, sep) == seq![s],
    decreases s.len(),
{
    assert(!match_at(s, sep, 0));
    if s.len() == 0 {
        assert(split_all(s, sep) =~~= seq![s]);
    } else {
        let t = s.subrange(1, s.len() as int);
        assert forall|j: int| !match_at(t, sep, j) by {
            if j >= 0 {
                lemma_match_at_shift(s, sep, j);
            }
        }
        lemma_split_all_none(t, sep);
        assert(seq![t] =~= split_all(t, sep));
        assert(split_all(t, sep)[0] == t);
        assert(seq![s[0]] + t =~= s);
        assert(split_all(s, sep) =~~= seq![s]);
    }
}

/// Where the first occurrence of the separator is at `i`, the first piece
/// is everything before `i` and the rest splits the remainder.
pub proof fn lemma_split_all_at(s: Seq<u8>, sep: Seq<u8>, i: int)
    requires
        sep.len() >= 1,
        match_at(s, sep, i),
        forall|j: int| 0 <= j < i ==> !match_at(s, sep, j),
    ensures
        split_all(s, sep) == seq![s.subrange(0, i)] + split_all(
            s.subrange(i + sep.len(), s.len() as int),
            sep,
        ),
    decreases i,
{
    if i == 0 {
        assert(s.subrange(0, 0) =~= Seq::<u8>::empty());
        assert(split_all(s, sep) =~~= seq![s.subrange(0, i)] + split_all(
            s.subrange(i + sep.len(), s.len() as int),
            sep,
        ));
    } else {
        assert(!match_at(s, sep, 0));
        let t = s.subrange(1, s.len() as int);
        lemma_match_at_shift(s, sep, i - 1);
        assert forall|j: int| 0 <= j < i - 1 implies !match_at(t, sep, j) by {
            lemma_match_at_shift(s, sep, j);
        }
        lemma_split_all_at(t, sep, i - 1);
        let tail = t.subrange(i - 1 + sep.len(), t.len() as int);
        assert(tail =~= s.subrange(i + sep.len(), s.len() as int));
        let rest = split_all(t, sep);
        assert(rest == seq![t.subrange(0, i - 1)] + split_all(tail, sep));
        assert(rest[0] == t.subrange(0, i - 1));
        assert(seq![s[0]] + t.subrange(0, i - 1) =~= s.subrange(0, i));
        assert(rest.subrange(1, rest.len() as int) =~= split_all(tail, sep));
        assert(split_all(s, sep) =~~= seq![s.subrange(0, i)] + split_all(tail, sep));
    }
}

/// The views of a list of byte vectors.
pub open spec fn views(ps: Seq<Vec<u8>>) -> Seq<Seq<u8>> {
    ps.map_values(|v: Vec<u8>| v@)
}

/// Splits `s` into the pieces between occurrences of `sep`.
pub fn split_all_bytes(s: &Vec<u8>, sep: &Vec<u8>) -> (r: Vec<Vec<u8>>)
    requires
        sep@.len() >= 1,
    ensures
        views(r@) == split_all(s@, sep@),
{
    let mut pieces: Vec<Vec<u8>> = Vec::new();
    let mut rest: Vec<u8> = sub_vec(s, 0, s.len());
    proof {
        assert(rest@ =~= s@);
        assert(views(pieces@) + split_all(rest@, sep@) =~= split_all(s@, sep@));
    }
    let mut done = false;
    while !done
        invariant
            sep@.len() >= 1,
            !done ==> views(pieces@) + split_all(rest@, sep@) == split_all(s@, sep@),
            done ==> views(pieces@) == split_all(s@, sep@),
        decreases rest@.len(), (if done { 0int } else { 1int }),
    {
        match split_at_first(&rest, sep) {
            Some((before, after)) => {
                proof {
                    lemma_find_sub_correct(rest@, sep@);
                    let i = find_sub(rest@, sep@)->Some_0;
                    lemma_split_all_at(rest@, sep@, i);
                    assert(views(pieces@.push(before)) =~= views(pieces@).push(before@));
                    assert(views(pieces@).push(before@) + split_all(after@, sep@) =~= (views(
                        pieces@,
                    ) + (seq![before@] + split_all(after@, sep@))));
                }
                pieces.push(before);
                rest = after;
            },
            None => {
                proof {
                    lemma_find_sub_correct(rest@, sep@);
                    lemma_split_all_none(rest@, sep@);
                    assert(views(pieces@.push(rest)) =~= views(pieces@).push(rest@));
                    assert(views(pieces@).push(rest@) =~= views(pieces@) + seq![rest@]);
                }
                pieces.push(rest);
                rest = Vec::new();
                done = true;
            },
        }
    }
    pieces
}

/// The maximal runs of non-whitespace bytes in `s`, in order: what
/// splitting on whitespace yields, with empty pieces discarded.
pub open spec fn ws_tokens(s: Seq<u8>) -> Seq<Seq<u8>>
    decreases s.len(),
{
    if s.len() == 0 {
        Seq::empty()
    } else {
        let rest = ws_tokens(s.subrange(1, s.len() as int));
        if is_ws(s[0]) {
            rest
        } else if s.len() >= 2 && !is_ws(s[1]) {
            seq![seq![s[0]] + rest[0]] + rest.subrange(1, rest.len() as int)
        } else {
            seq![seq![s[0]]] + rest
        }
    }
}

/// Splits `s` into its maximal non-whitespace runs.
pub fn ws_tokens_bytes(s: &Vec<u8>) -> (r: Vec<Vec<u8>>)
    ensures
        views(r@) == ws_tokens(s@),
{
    let n = s.len();
    let mut toks: Vec<Vec<u8>> = Vec::new();
    let mut i: usize = n;
    proof {
        assert(s@.subrange(n as int, n as int) =~= Seq::<u8>::empty());
        assert(views(toks@) =~= ws_tokens(s@.subrange(n as int, n as int)));
    }
    while i > 0
        invariant
            n == s@.len(),
            0 <= i <= n,
            views(toks@) == ws_tokens(s@.subrange(i as int, n as int)),
        decreases i,
    {
        let ghost prev = s@.subrange(i as int, n as int);
        let ghost cur = s@.subrange(i - 1, n as int);
        proof {
            assert(cur.subrange(1, cur.len() as int) =~= prev);
            assert(cur[0] == s@[i - 1]);
        }
        let b = s[i - 1];
        if is_ws_byte(b) {
        } else if i < n && !is_ws_byte(s[i]) {
            proof {
                assert(cur.len() >= 2 && !is_ws(cur[1]));
                assert(ws_tokens(prev).len() >= 1);
                assert(views(toks@).len() >= 1);
            }
            let mut first = toks.remove(0);
            first.insert(0, b);
            proof {
                assert(first@ =~= seq![cur[0]] + ws_tokens(prev)[0]);
            }
            toks.insert(0, first);
            proof {
                assert(views(toks@) =~= seq![seq![cur[0]] + ws_tokens(prev)[0]] + ws_tokens(
                    prev,
                ).subrange(1, ws_tokens(prev).len() as int));
            }
        } else {
            let mut single: Vec<u8> = Vec::new();
            single.push(b);
            toks.insert(0, single);
            proof {
                assert(single@ =~= seq![cur[0]]);
                assert(views(toks@) =~= seq![seq![cur[0]]] + ws_tokens(prev));
            }
        }
        i -= 1;
    }
    proof {
        assert(s@.subrange(0, n as int) =~= s@);
    }
    toks
}

/// Tests whether `b` is ASCII whitespace.
pub fn is_ws_byte(b: u8) -> (r: bool)
    ensures
        r == is_ws(b),
{
    b == 32 || b == 9 || b == 10 || b == 11 || b == 12 || b == 13
}

/// The value bound to `name` in an association list of header pairs,
/// where a later binding of the same name shadows an earlier one.
pub open spec fn lookup(hs: Seq<(Seq<u8>, Seq<u8>)>, name: Seq<u8>) -> Option<Seq<u8>>
    decreases hs.len(),
{
    if hs.len() == 0 {
        None
    } else if hs.last().0 == name {
        Some(hs.last().1)
    } else {
        lookup(hs.drop_last(), name)
    }
}

/// The views of a list of header pairs.
pub open spec fn pair_views(hs: Seq<(Vec<u8>, Vec<u8>)>) -> Seq<(Seq<u8>, Seq<u8>)> {
    hs.map_values(|h: (Vec<u8>, Vec<u8>)| (h.0@, h.1@))
}

/// Tests whether two byte vectors hold the same bytes.
pub fn bytes_eq(a: &Vec<u8>, b: &Vec<u8>) -> (r: bool)
    ensures
        r == (a@ == b@),
{
    if a.len() != b.len() {
        proof {
            assert(a@ != b@);
        }
        return false;
    }
    let r = eq_at(a, b, 0);
    proof {
        if match_at(a@, b@, 0) {
            assert(a@ =~= b@);
        } else {
            assert(a@ != b@);
        }
    }
    r
}

/// Looks `name` up among the header pairs `hs`; the last binding wins.
pub fn get_value(hs: &Vec<(Vec<u8>, Vec<u8>)>, name: &Vec<u8>) -> (r: Option<Vec<u8>>)
    ensures
        match r {
            Some(v) => lookup(pair_views(hs@), name@) == Some(v@),
            None => lookup(pair_views(hs@), name@) is None,
        },
{
    let n = hs.len();
    let mut i: usize = n;
    proof {
        assert(pair_views(hs@).subrange(0, n as int) =~= pair_views(hs@));
    }
    while i > 0
        invariant
            n == hs@.len(),
            0 <= i <= n,
            lookup(pair_views(hs@), name@) == lookup(
                pair_views(hs@).subrange(0, i as int),
                name@,
            ),
        decreases i,
    {
        let ghost cur = pair_views(hs@).subrange(0, i as int);
        proof {
            assert(cur.last() == (hs@[i - 1].0@, hs@[i - 1].1@));
            assert(cur.drop_last() =~= pair_views(hs@).subrange(0, i - 1));
        }
        if bytes_eq(&hs[i - 1].0, name) {
            let v = sub_vec(&hs[i - 1].1, 0, hs[i - 1].1.len());
            proof {
                assert(v@ =~= hs@[i - 1].1@);
            }
            return Some(v);
        }
        i -= 1;
    }
    proof {
        assert(pair_views(hs@).subrange(0, 0) =~= Seq::<(Seq<u8>, Seq<u8>)>::empty());
    }
    None
}

/// The decimal digits of `n`, most significant first, as ASCII bytes.
pub open spec fn dec_digits(n: nat) -> Seq<u8>
    decreases n,
{
    if n < 10 {
        seq![(48 + n) as u8]
    } else {
        dec_digits(n / 10) + seq![(48 + n % 10) as u8]
    }
}

/// Renders `n` in decimal as ASCII bytes.
pub fn u64_to_dec(n: u64) -> (r: Vec<u8>)
    ensures
        r@ == dec_digits(n as nat),
    decreases n,
{
    if n < 10 {
        let mut v: Vec<u8> = Vec::new();
        v.push(48 + (n as u8));
        proof {
            assert(v@ =~= dec_digits(n as nat));
        }
        v
    } else {
        let mut v = u64_to_dec(n / 10);
        v.push(48 + ((n % 10) as u8));
        proof {
            assert(v@ =~= dec_digits((n / 10) as nat) + seq![(48 + (n as nat) % 10) as u8]);
            assert((n / 10) as nat == (n as nat) / 10);
        }
        v
    }
}

/// The pieces of `s` on either side of the first occurrence of `p`,
/// if `p` occurs at all.
pub open spec fn split_once(s: Seq<u8>, p: Seq<u8>) -> Option<(Seq<u8>, Seq<u8>)> {
    match find_sub(s, p) {
        Some(i) => Some((s.subrange(0, i), s.subrange(i + p.len(), s.len() as int))),
        None => None,
    }
}

/// Splits `s` at the first occurrence of `p`.
pub fn split_at_first(s: &Vec<u8>, p: &Vec<u8>) -> (r: Option<(Vec<u8>, Vec<u8>)>)
    requires
        p@.len() >= 1,
    ensures
        match r {
            Some(pair) => split_once(s@, p@) == Some((pair.0@, pair.1@)),
            None => split_once(s@, p@) is None,
        },
{
    let n = s.len();
    match find(s, p) {
        Some(i) => {
            proof {
                lemma_find_sub_correct(s@, p@);
                assert(match_at(s@, p@, i as int));
            }
            let before = sub_vec(s, 0, i);
            let after = sub_vec(s, i + p.len(), s.len());
            Some((before, after))
        },
        None => None,
    }
}

} // verus!
