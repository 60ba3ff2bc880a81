//! Character-level helpers on strings: whitespace, trimming, splitting and
//! editing at a character index.
use vstd::prelude::*;
use vstd::string::*;
use vstd::utf8::*;

verus! {

/// The characters of Unicode's `White_Space` property, the set that
/// `char::is_whitespace` and `str::trim` go by.
pub open spec fn white_space(c: char) -> bool {
    ||| '\u{9}' <= c <= '\u{d}'
    ||| c == ' '
    ||| c == '\u{85}'
    ||| c == '\u{a0}'
    ||| c == '\u{1680}'
    ||| '\u{2000}' <= c <= '\u{200a}'
    ||| c == '\u{2028}'
    ||| c == '\u{2029}'
    ||| c == '\u{202f}'
    ||| c == '\u{205f}'
    ||| c == '\u{3000}'
}

/// `s` without its leading whitespace.
pub open spec fn trim_start(s: Seq<char>) -> Seq<char>
    decreases s.len(),
{
    if s.len() > 0 && white_space(s[0]) {
        trim_start(s.drop_first())
    } else {
        s
    }
}

/// `s` without its trailing whitespace.
pub open spec fn trim_end(s: Seq<char>) -> Seq<char>
    decreases s.len(),
{
    if s.len() > 0 && white_space(s.last()) {
        trim_end(s.drop_last())
    } else {
        s
    }
}

/// `s` without leading and trailing whitespace.
pub open spec fn trimmed(s: Seq<char>) -> Seq<char> {
    trim_end(trim_start(s))
}

/// Every character of `s` is whitespace.
pub open spec fn all_white(s: Seq<char>) -> bool {
    forall|i: int| 0 <= i < s.len() ==> white_space(#[trigger] s[i])
}

proof fn lemma_trim_start_white(p: Seq<char>)
    requires
        all_white(p),
    ensures
        trim_start(p).len() == 0,
    decreases p.len(),
{
    if p.len() > 0 {
        let q = p.drop_first();
        assert forall|i: int| 0 <= i < q.len() implies white_space(#[trigger] q[i]) by {
            assert(q[i] == p[i + 1]);
        }
        lemma_trim_start_white(q);
    }
}

proof fn lemma_trim_end_pad(x: Seq<char>, p: Seq<char>)
    requires
        all_white(p),
    ensures
        trim_end(x + p) == trim_end(x),
    decreases p.len(),
{
    if p.len() == 0 {
        assert(x + p =~= x);
    } else {
        let q = p.drop_last();
        assert((x + p).drop_last() =~= x + q);
        assert((x + p).last() == p.last());
        assert forall|i: int| 0 <= i < q.len() implies white_space(#[trigger] q[i]) by {
            assert(q[i] == p[i]);
        }
        lemma_trim_end_pad(x, q);
    }
}

/// Whitespace appended to a text disappears when it is trimmed.
pub proof fn lemma_trimmed_pad(v: Seq<char>, p: Seq<char>)
    requires
        all_white(p),
    ensures
        trimmed(v + p) == trimmed(v),
    decreases v.len(),
{
    if v.len() == 0 {
        assert(v + p =~= p);
        lemma_trim_start_white(p);
        assert(trim_start(p) =~= Seq::<char>::empty());
        assert(trim_start(v) == v);
    } else {
        let s = v + p;
        assert(s[0] == v[0]);
        if white_space(v[0]) {
            assert(s.drop_first() =~= v.drop_first() + p);
            lemma_trimmed_pad(v.drop_first(), p);
        } else {
            lemma_trim_end_pad(v, p);
        }
    }
}

/// The encoding of a concatenation is the concatenation of the encodings.
pub proof fn lemma_encode_concat(a: Seq<char>, b: Seq<char>)
    ensures
        encode_utf8(a + b) == encode_utf8(a) + encode_utf8(b),
    decreases a.len(),
{
    if a.len() == 0 {
        assert(a + b =~= b);
        assert(encode_utf8(a) + encode_utf8(b) =~= encode_utf8(b));
    } else {
        assert((a + b).drop_first() =~= a.drop_first() + b);
        assert((a + b)[0] == a[0]);
        lemma_encode_concat(a.drop_first(), b);
        assert(encode_utf8(a + b) =~= encode_utf8(a) + encode_utf8(b));
    }
}

/// Where the encoding of `a` ends inside the encoding of `a + b`, a character
/// starts.
pub proof fn lemma_cut_is_boundary(a: Seq<char>, b: Seq<char>)
    ensures
        is_char_boundary(encode_utf8(a + b), encode_utf8(a).len() as int),
    decreases a.len(),
{
    broadcast use encode_utf8_valid_utf8;

    if a.len() > 0 {
        let s = a + b;
        encode_utf8_first_scalar(s);
        encode_utf8_first_scalar(a);
        assert(s[0] == a[0]);
        assert(s.drop_first() =~= a.drop_first() + b);
        lemma_cut_is_boundary(a.drop_first(), b);
        lemma_encode_concat(a, b);
        assert(pop_first_scalar(encode_utf8(s)) =~= encode_utf8(s.drop_first()));
        assert(encode_utf8(a).len() == encode_scalar(a[0] as u32).len() + encode_utf8(
            a.drop_first(),
        ).len());
    }
}

/// Up to the end of the encoding of `a`, the encodings of `a` and `a + b` have
/// their character boundaries at the same places.
pub proof fn lemma_boundary_concat(a: Seq<char>, b: Seq<char>, k: int)
    requires
        0 <= k <= encode_utf8(a).len(),
    ensures
        is_char_boundary(encode_utf8(a + b), k) == is_char_boundary(encode_utf8(a), k),
{
    broadcast use encode_utf8_valid_utf8;

    lemma_encode_concat(a, b);
    let ea = encode_utf8(a);
    let eab = encode_utf8(a + b);
    if k == ea.len() {
        lemma_cut_is_boundary(a, b);
        is_char_boundary_start_end_of_seq(ea);
    } else if k > 0 {
        is_char_boundary_iff_not_is_continuation_byte(eab, k);
        is_char_boundary_iff_not_is_continuation_byte(ea, k);
        assert(eab[k] == ea[k]);
    }
}

/// Whether `c` is whitespace, in the sense of `char::is_whitespace`.
pub fn is_white_space(c: char) -> (r: bool)
    ensures
        r == white_space(c),
{
    ('\u{9}' <= c && c <= '\u{d}') || c == ' ' || c == '\u{85}' || c == '\u{a0}' || c == '\u{1680}'
        || ('\u{2000}' <= c && c <= '\u{200a}') || c == '\u{2028}' || c == '\u{2029}' || c
        == '\u{202f}' || c == '\u{205f}' || c == '\u{3000}'
}

/// Whether `a` and `b` hold the same characters.
pub fn same_text(a: &str, b: &str) -> (r: bool)
    ensures
        r == (a@ == b@),
{
    let x = chars_of(a);
    let y = chars_of(b);
    if x.len() != y.len() {
        return false;
    }
    let mut i: usize = 0;
    while i < x.len()
        invariant
            x@ == a@,
            y@ == b@,
            x@.len() == y@.len(),
            i <= x@.len(),
            forall|k: int| 0 <= k < i ==> x@[k] == y@[k],
        decreases x@.len() - i,
    {
        if x[i] != y[i] {
            return false;
        }
        i = i + 1;
    }
    assert(a@ =~= b@);
    true
}

/// Relies on `String::push`: appends `c` to the end of `s`.
#[verifier::external_body]
fn push_char(s: &mut String, c: char)
    ensures
        final(s)@ == old(s)@.push(c),
{
    s.push(c);
}

/// `s` with `c` inserted before the character at index `k`.
pub fn insert_char(s: &str, k: usize, c: char) -> (r: String)
    requires
        k <= s@.len(),
    ensures
        r@ == s@.insert(k as int, c),
{
    let n = s.unicode_len();
    let mut r = s.substring_char(0, k).to_owned();
    push_char(&mut r, c);
    r.append(s.substring_char(k, n));
    assert(r@ =~= s@.insert(k as int, c));
    r
}

/// `s` without the character at index `k`.
pub fn remove_char(s: &str, k: usize) -> (r: String)
    requires
        k < s@.len(),
    ensures
        r@ == s@.remove(k as int),
{
    let n = s.unicode_len();
    let mut r = s.substring_char(0, k).to_owned();
    r.append(s.substring_char(k + 1, n));
    assert(r@ =~= s@.remove(k as int));
    r
}

/// The characters of `s`, in order.
pub fn chars_of(s: &str) -> (r: Vec<char>)
    ensures
        r@ == s@,
{
    broadcast use vstd::string::group_string_axioms;

    let mut it = s.chars();
    let mut r: Vec<char> = Vec::new();
    loop
        invariant
            vstd::std_specs::iter::IteratorSpec::obeys_prophetic_iter_laws(&it),
            r@ + vstd::std_specs::iter::IteratorSpec::remaining(&it) == s@,
        ensures
            r@ == s@,
        decreases s@.len() - r@.len(),
    {
        let ghost before = vstd::std_specs::iter::IteratorSpec::remaining(&it);
        match it.next() {
            Some(c) => {
                proof {
                    assert(before.len() > 0);
                    assert(before =~= seq![c] + vstd::std_specs::iter::IteratorSpec::remaining(&it));
                }
                r.push(c);
                assert(r@ + vstd::std_specs::iter::IteratorSpec::remaining(&it) =~= s@);
            },
            None => {
                assert(r@ =~= r@ + vstd::std_specs::iter::IteratorSpec::remaining(&it));
                break;
            },
        }
    }
    r
}

proof fn lemma_trim_start(s: Seq<char>, a: int)
    requires
        0 <= a <= s.len(),
        forall|i: int| 0 <= i < a ==> white_space(#[trigger] s[i]),
        a == s.len() || !white_space(s[a]),
    ensures
        trim_start(s) == s.subrange(a, s.len() as int),
    decreases a,
{
    if a == 0 {
        assert(s.subrange(0, s.len() as int) =~= s);
    } else {
        let t = s.drop_first();
        assert forall|i: int| 0 <= i < a - 1 implies white_space(#[trigger] t[i]) by {
            assert(t[i] == s[i + 1]);
        }
        lemma_trim_start(t, a - 1);
        assert(t.subrange(a - 1, t.len() as int) =~= s.subrange(a, s.len() as int));
    }
}

proof fn lemma_trim_end(s: Seq<char>, b: int)
    requires
        0 <= b <= s.len(),
        forall|i: int| b <= i < s.len() ==> white_space(#[trigger] s[i]),
        b == 0 || !white_space(s[b - 1]),
    ensures
        trim_end(s) == s.subrange(0, b),
    decreases s.len() - b,
{
    if b == s.len() {
        assert(s.subrange(0, b) =~= s);
    } else {
        let t = s.drop_last();
        assert forall|i: int| b <= i < t.len() implies white_space(#[trigger] t[i]) by {
            assert(t[i] == s[i]);
        }
        lemma_trim_end(t, b);
        assert(t.subrange(0, b) =~= s.subrange(0, b));
    }
}

/// A copy of `s` without leading and trailing whitespace, as `str::trim` gives it.
pub fn trim(s: &str) -> (r: String)
    ensures
        r@ == trimmed(s@),
{
    let cs = chars_of(s);
    let n = cs.len();
    let mut a: usize = 0;
    while a < n && is_white_space(cs[a])
        invariant
            n == cs@.len(),
            a <= n,
            forall|i: int| 0 <= i < a ==> white_space(#[trigger] cs@[i]),
        decreases n - a,
    {
        a = a + 1;
    }
    let mut b: usize = n;
    while b > a && is_white_space(cs[b - 1])
        invariant
            n == cs@.len(),
            a <= b <= n,
            forall|i: int| b <= i < n ==> white_space(#[trigger] cs@[i]),
        decreases b - a,
    {
        b = b - 1;
    }
    proof {
        lemma_trim_start(s@, a as int);
        let t = s@.subrange(a as int, n as int);
        assert forall|i: int| b - a <= i < t.len() implies white_space(#[trigger] t[i]) by {
            assert(t[i] == s@[i + a]);
        }
        lemma_trim_end(t, b - a);
        assert(t.subrange(0, b - a) =~= s@.subrange(a as int, b as int));
    }
    s.substring_char(a, b).to_owned()
}


/// The pieces of `s` between occurrences of `sep`, empty pieces included, in
/// the way `str::split` yields them: there is always at least one.
pub open spec fn pieces<A>(s: Seq<A>, sep: A) -> Seq<Seq<A>>
    decreases s.len(),
{
    if s.len() == 0 {
        seq![Seq::empty()]
    } else {
        let p = pieces(s.drop_last(), sep);
        if s.last() == sep {
            p.push(Seq::empty())
        } else {
            p.update(p.len() - 1, p.last().push(s.last()))
        }
    }
}

/// The non-empty pieces of `s` between occurrences of `sep`.
pub open spec fn tokens<A>(s: Seq<A>, sep: A) -> Seq<Seq<A>> {
    pieces(s, sep).filter(|p: Seq<A>| p.len() > 0)
}

/// The character sequences of a sequence of strings.
pub open spec fn views(v: Seq<String>) -> Seq<Seq<char>> {
    v.map_values(|t: String| t@)
}

/// A sequence without `sep` is one piece.
pub proof fn lemma_pieces_without_sep<A>(r: Seq<A>, sep: A)
    requires
        forall|i: int| 0 <= i < r.len() ==> r[i] != sep,
    ensures
        pieces(r, sep) == seq![r],
    decreases r.len(),
{
    if r.len() == 0 {
        assert(r =~= Seq::<A>::empty());
    } else {
        let q = r.drop_last();
        assert forall|i: int| 0 <= i < q.len() implies q[i] != sep by {
            assert(q[i] == r[i]);
        }
        lemma_pieces_without_sep(q, sep);
        assert(r[r.len() - 1] != sep);
        assert(q.push(r.last()) =~= r);
        assert(seq![q].update(0, q.push(r.last())) =~= seq![r]);
    }
}

/// Appending `sep` and then a sequence without `sep` adds that sequence as
/// one more piece.
pub proof fn lemma_pieces_append<A>(x: Seq<A>, sep: A, r: Seq<A>)
    requires
        forall|i: int| 0 <= i < r.len() ==> r[i] != sep,
    ensures
        pieces(x + seq![sep] + r, sep) == pieces(x, sep).push(r),
    decreases r.len(),
{
    let s = x + seq![sep] + r;
    if r.len() == 0 {
        assert(s.drop_last() =~= x);
        assert(s.last() == sep);
        assert(r =~= Seq::<A>::empty());
    } else {
        let q = r.drop_last();
        assert forall|i: int| 0 <= i < q.len() implies q[i] != sep by {
            assert(q[i] == r[i]);
        }
        lemma_pieces_append(x, sep, q);
        assert(s.drop_last() =~= x + seq![sep] + q);
        assert(s.last() == r.last());
        assert(r[r.len() - 1] != sep);
        let p = pieces(x, sep).push(q);
        assert(q.push(r.last()) =~= r);
        assert(p.update(p.len() - 1, p.last().push(r.last())) =~= pieces(x, sep).push(r));
    }
}

/// One step of `pieces` over a prefix: the element at `i` either closes the
/// current piece or extends it.
pub proof fn lemma_pieces_step<A>(s: Seq<A>, sep: A, i: int, done: Seq<Seq<A>>, start: int)
    requires
        0 <= start <= i < s.len(),
        pieces(s.subrange(0, i), sep) == done.push(s.subrange(start, i)),
    ensures
        s[i] == sep ==> pieces(s.subrange(0, i + 1), sep) == done.push(s.subrange(start, i)).push(
            s.subrange(i + 1, i + 1),
        ),
        s[i] != sep ==> pieces(s.subrange(0, i + 1), sep) == done.push(s.subrange(start, i + 1)),
{
    let t = s.subrange(0, i + 1);
    assert(t.drop_last() =~= s.subrange(0, i));
    assert(t.last() == s[i]);
    assert(s.subrange(i + 1, i + 1) =~= Seq::<A>::empty());
    if s[i] != sep {
        let p = done.push(s.subrange(start, i));
        assert(s.subrange(start, i).push(s[i]) =~= s.subrange(start, i + 1));
        assert(p.update(p.len() - 1, p.last().push(s[i])) =~= done.push(s.subrange(start, i + 1)));
    }
}

/// The pieces of `s` between occurrences of `sep`, as `str::split` gives them.
pub fn split_pieces(s: &str, sep: char) -> (r: Vec<String>)
    ensures
        views(r@) == pieces(s@, sep),
{
    let cs = chars_of(s);
    let n = cs.len();
    let mut r: Vec<String> = Vec::new();
    let mut start: usize = 0;
    let mut i: usize = 0;
    proof {
        let e = s@.subrange(0, 0);
        assert(e =~= Seq::<char>::empty());
        assert(views(r@) =~= Seq::<Seq<char>>::empty());
        assert(pieces(e, sep) =~= views(r@).push(e));
    }
    while i < n
        invariant
            n == cs@.len(),
            cs@ == s@,
            start <= i <= n,
            pieces(s@.subrange(0, i as int), sep) == views(r@).push(s@.subrange(start as int, i as int)),
        decreases n - i,
    {
        proof {
            lemma_pieces_step(s@, sep, i as int, views(r@), start as int);
        }
        if cs[i] == sep {
            let piece = s.substring_char(start, i).to_owned();
            let ghost before = r@;
            r.push(piece);
            proof {
                assert(views(r@) =~= views(before).push(s@.subrange(start as int, i as int)));
            }
            start = i + 1;
        }
        i = i + 1;
    }
    let last = s.substring_char(start, n).to_owned();
    let ghost before = r@;
    r.push(last);
    proof {
        assert(views(r@) =~= views(before).push(s@.subrange(start as int, n as int)));
        assert(s@.subrange(0, n as int) =~= s@);
    }
    r
}

/// The non-empty pieces of `s` between occurrences of `sep`.
pub fn split_tokens(s: &str, sep: char) -> (r: Vec<String>)
    ensures
        views(r@) == tokens(s@, sep),
{
    let all = split_pieces(s, sep);
    let mut r: Vec<String> = Vec::new();
    let mut i: usize = 0;
    while i < all.len()
        invariant
            i <= all@.len(),
            views(all@) == pieces(s@, sep),
            views(r@) == views(all@).subrange(0, i as int).filter(|p: Seq<char>| p.len() > 0),
        decreases all@.len() - i,
    {
        let ghost before = r@;
        proof {
            let pv = views(all@);
            assert(pv.subrange(0, i + 1) =~= pv.subrange(0, i as int).push(all@[i as int]@));
            pv.subrange(0, i as int).lemma_filter_push(all@[i as int]@, |p: Seq<char>| p.len() > 0);
        }
        if all[i].unicode_len() > 0 {
            r.push(all[i].clone());
            assert(views(r@) =~= views(before).push(all@[i as int]@));
        }
        i = i + 1;
    }
    assert(views(all@).subrange(0, all@.len() as int) =~= views(all@));
    r
}

} // verus!
