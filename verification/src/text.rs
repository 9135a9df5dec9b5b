//! Text rules shared by the query side: code-point order of strings, trimming of
//! white space, and the reading of a comma-separated list of names.

use vstd::prelude::*;

verus! {

/// Whether `c` has the Unicode property White_Space.
pub open spec fn is_space(c: char) -> bool {
    let n = c as int;
    (0x09 <= n <= 0x0D) || n == 0x20 || n == 0x85 || n == 0xA0 || n == 0x1680 || (0x2000 <= n
        <= 0x200A) || n == 0x2028 || n == 0x2029 || n == 0x202F || n == 0x205F || n == 0x3000
}

/// Tests a character for white space.
pub fn char_is_space(c: char) -> (b: bool)
    ensures
        b == is_space(c),
{
    let n: u32 = c as u32;
    (0x09 <= n && n <= 0x0D) || n == 0x20 || n == 0x85 || n == 0xA0 || n == 0x1680 || (0x2000 <= n
        && n <= 0x200A) || n == 0x2028 || n == 0x2029 || n == 0x202F || n == 0x205F || n == 0x3000
}

/// Strict lexicographic order of two texts by code point. This is also the order
/// of their UTF-8 encodings compared byte by byte.
pub open spec fn lex_lt(a: Seq<char>, b: Seq<char>) -> bool
    decreases a.len(),
{
    if b.len() == 0 {
        false
    } else if a.len() == 0 {
        true
    } else if a[0] != b[0] {
        (a[0] as int) < (b[0] as int)
    } else {
        lex_lt(a.drop_first(), b.drop_first())
    }
}

/// Decides whether `a` comes strictly before `b` in code-point order.
pub fn text_lt(a: &str, b: &str) -> (r: bool)
    ensures
        r == lex_lt(a@, b@),
{
    let n: usize = a.unicode_len();
    let m: usize = b.unicode_len();
    let mut i: usize = 0;
    assert(a@.skip(0) =~= a@ && b@.skip(0) =~= b@);
    while i < n && i < m
        invariant
            n == a@.len(),
            m == b@.len(),
            i <= n,
            i <= m,
            lex_lt(a@, b@) == lex_lt(a@.skip(i as int), b@.skip(i as int)),
        decreases n - i,
    {
        let x: char = a.get_char(i);
        let y: char = b.get_char(i);
        if x != y {
            return (x as u32) < (y as u32);
        }
        proof {
            assert(a@.skip(i as int).drop_first() =~= a@.skip(i + 1));
            assert(b@.skip(i as int).drop_first() =~= b@.skip(i + 1));
        }
        i += 1;
    }
    i < m
}

/// No text comes before itself, and of two texts at most one comes before the
/// other.
pub proof fn lemma_lex_asymmetric(a: Seq<char>, b: Seq<char>)
    ensures
        !(lex_lt(a, b) && lex_lt(b, a)),
    decreases a.len(),
{
    if a.len() > 0 && b.len() > 0 && a[0] == b[0] {
        lemma_lex_asymmetric(a.drop_first(), b.drop_first());
    }
}

/// Of two different texts one comes before the other.
pub proof fn lemma_lex_total(a: Seq<char>, b: Seq<char>)
    ensures
        lex_lt(a, b) || lex_lt(b, a) || a == b,
    decreases a.len(),
{
    if a.len() > 0 && b.len() > 0 && a[0] == b[0] {
        lemma_lex_total(a.drop_first(), b.drop_first());
        if a.drop_first() == b.drop_first() {
            assert(a =~= seq![a[0]] + a.drop_first());
            assert(b =~= seq![b[0]] + b.drop_first());
        }
    } else if a.len() == 0 && b.len() == 0 {
        assert(a =~= b);
    }
}

/// A text that comes before another comes before every third text that the other
/// does not come after. With `lemma_lex_asymmetric` this makes the order
/// transitive.
pub proof fn lemma_lex_between(a: Seq<char>, b: Seq<char>, c: Seq<char>)
    requires
        lex_lt(a, c),
    ensures
        lex_lt(a, b) || lex_lt(b, c),
    decreases a.len(),
{
    if a.len() > 0 && b.len() > 0 && c.len() > 0 && a[0] == c[0] && b[0] == a[0] {
        lemma_lex_between(a.drop_first(), b.drop_first(), c.drop_first());
    }
}

/// `s` without the white space at its end.
pub open spec fn trim_end(s: Seq<char>) -> Seq<char>
    decreases s.len(),
{
    if s.len() > 0 && is_space(s.last()) {
        trim_end(s.drop_last())
    } else {
        s
    }
}

/// `s` without the white space at its start.
pub open spec fn trim_start(s: Seq<char>) -> Seq<char>
    decreases s.len(),
{
    if s.len() > 0 && is_space(s[0]) {
        trim_start(s.drop_first())
    } else {
        s
    }
}

/// `s` without the white space around it.
pub open spec fn trimmed(s: Seq<char>) -> Seq<char> {
    trim_start(trim_end(s))
}

/// The pieces of `s` between its commas, in order. A text without a comma is one
/// piece; two commas in a row hold an empty piece between them.
pub open spec fn comma_pieces(s: Seq<char>) -> Seq<Seq<char>>
    decreases s.len(),
{
    if s.len() == 0 {
        seq![Seq::<char>::empty()]
    } else {
        let p = comma_pieces(s.drop_last());
        if s.last() == ',' {
            p.push(Seq::<char>::empty())
        } else {
            p.drop_last().push(p.last().push(s.last()))
        }
    }
}

/// The pieces trimmed, without those that are empty after trimming.
pub open spec fn kept_names(pieces: Seq<Seq<char>>) -> Seq<Seq<char>>
    decreases pieces.len(),
{
    if pieces.len() == 0 {
        Seq::<Seq<char>>::empty()
    } else {
        let k = kept_names(pieces.drop_last());
        let t = trimmed(pieces.last());
        if t.len() == 0 {
            k
        } else {
            k.push(t)
        }
    }
}

/// The names that a comma-separated list holds: each piece trimmed, empty ones
/// left out.
pub open spec fn list_names(s: Seq<char>) -> Seq<Seq<char>> {
    kept_names(comma_pieces(s))
}

/// What `trim_end` leaves is a prefix that does not end in white space.
pub proof fn lemma_trim_end_shape(s: Seq<char>) -> (k: int)
    ensures
        0 <= k <= s.len(),
        trim_end(s) == s.take(k),
        k > 0 ==> !is_space(s[k - 1]),
    decreases s.len(),
{
    if s.len() > 0 && is_space(s.last()) {
        let k = lemma_trim_end_shape(s.drop_last());
        assert(s.drop_last().take(k) =~= s.take(k));
        k
    } else {
        assert(s.take(s.len() as int) =~= s);
        s.len() as int
    }
}

/// What `trim_start` leaves is a suffix that does not start with white space.
pub proof fn lemma_trim_start_shape(s: Seq<char>) -> (j: int)
    ensures
        0 <= j <= s.len(),
        trim_start(s) == s.skip(j),
        j < s.len() ==> !is_space(s[j]),
    decreases s.len(),
{
    if s.len() > 0 && is_space(s[0]) {
        let j = lemma_trim_start_shape(s.drop_first());
        assert(s.drop_first().skip(j) =~= s.skip(j + 1));
        j + 1
    } else {
        assert(s.skip(0) =~= s);
        0
    }
}

/// No piece holds a comma.
pub proof fn lemma_pieces_hold_no_comma(s: Seq<char>)
    ensures
        comma_pieces(s).len() >= 1,
        forall|i: int, k: int|
            0 <= i < comma_pieces(s).len() && 0 <= k < comma_pieces(s)[i].len()
                ==> comma_pieces(s)[i][k] != ',',
    decreases s.len(),
{
    if s.len() > 0 {
        lemma_pieces_hold_no_comma(s.drop_last());
    }
}

/// Whether `name` is fit to be a name of a list: not empty, no white space at
/// either end, no comma.
pub open spec fn is_clean_name(name: Seq<char>) -> bool {
    &&& name.len() > 0
    &&& !is_space(name[0])
    &&& !is_space(name.last())
    &&& forall|k: int| 0 <= k < name.len() ==> name[k] != ','
}

/// The names kept of pieces without commas are clean.
pub proof fn lemma_kept_names_are_clean(pieces: Seq<Seq<char>>)
    requires
        forall|i: int, k: int|
            0 <= i < pieces.len() && 0 <= k < pieces[i].len() ==> pieces[i][k] != ',',
    ensures
        forall|i: int| 0 <= i < kept_names(pieces).len() ==> is_clean_name(#[trigger] kept_names(pieces)[i]),
    decreases pieces.len(),
{
    if pieces.len() > 0 {
        let rest = pieces.drop_last();
        assert forall|i: int, k: int| 0 <= i < rest.len() && 0 <= k < rest[i].len() implies rest[i][k]
            != ',' by {
            assert(rest[i] == pieces[i]);
        }
        lemma_kept_names_are_clean(rest);
        let piece = pieces.last();
        let e = lemma_trim_end_shape(piece);
        let b = lemma_trim_start_shape(piece.take(e));
        let t = trimmed(piece);
        assert(t == piece.take(e).skip(b));
        if t.len() > 0 {
            assert(t[0] == piece[b]);
            assert(t.last() == piece[e - 1]);
            assert forall|k: int| 0 <= k < t.len() implies t[k] != ',' by {
                assert(t[k] == piece[b + k]);
                assert(pieces[pieces.len() - 1][b + k] != ',');
            }
            assert(is_clean_name(t));
        }
        let before = kept_names(rest);
        let all = kept_names(pieces);
        assert forall|i: int| 0 <= i < all.len() implies is_clean_name(#[trigger] all[i]) by {
            if i < before.len() {
                assert(all[i] == before[i]);
            } else {
                assert(all[i] == t);
            }
        }
    } else {
        assert(kept_names(pieces).len() == 0);
    }
}

/// Every name read from a comma-separated list is clean: not empty, trimmed, and
/// free of commas. White space alone between two commas gives no name.
pub proof fn lemma_list_names_are_clean(s: Seq<char>)
    ensures
        forall|i: int| 0 <= i < list_names(s).len() ==> is_clean_name(#[trigger] list_names(s)[i]),
{
    lemma_pieces_hold_no_comma(s);
    lemma_kept_names_are_clean(comma_pieces(s));
}

/// The texts of a sequence of strings.
pub open spec fn texts(v: Seq<String>) -> Seq<Seq<char>> {
    Seq::new(v.len(), |i: int| v[i]@)
}

/// Appends the trimmed piece `text[from..to]` to `out` unless nothing is left of it.
fn push_trimmed(text: &str, from: usize, to: usize, out: &mut Vec<String>)
    requires
        from <= to <= text@.len(),
    ensures
        texts(final(out)@) == ({
            let t = trimmed(text@.subrange(from as int, to as int));
            if t.len() == 0 {
                texts(old(out)@)
            } else {
                texts(old(out)@).push(t)
            }
        }),
{
    let ghost piece = text@.subrange(from as int, to as int);
    let mut e: usize = to;
    let mut going: bool = true;
    while going && e > from
        invariant
            from <= e <= to,
            to <= text@.len(),
            trim_end(piece) == trim_end(text@.subrange(from as int, e as int)),
            !going ==> e > from && !is_space(text@[e - 1]),
        decreases e + if going { 1int } else { 0int },
    {
        let c: char = text.get_char(e - 1);
        if char_is_space(c) {
            proof {
                assert(text@.subrange(from as int, e as int).drop_last() =~= text@.subrange(
                    from as int,
                    e - 1,
                ));
            }
            e -= 1;
        } else {
            going = false;
        }
    }
    assert(trim_end(piece) == text@.subrange(from as int, e as int));
    let mut b: usize = from;
    going = true;
    while going && b < e
        invariant
            from <= b <= e,
            e <= text@.len(),
            trimmed(piece) == trim_start(text@.subrange(b as int, e as int)),
            !going ==> b < e && !is_space(text@[b as int]),
        decreases e - b + if going { 1int } else { 0int },
    {
        let c: char = text.get_char(b);
        if char_is_space(c) {
            proof {
                assert(text@.subrange(b as int, e as int).drop_first() =~= text@.subrange(
                    b + 1,
                    e as int,
                ));
            }
            b += 1;
        } else {
            going = false;
        }
    }
    assert(trimmed(piece) == text@.subrange(b as int, e as int));
    if b < e {
        let name: String = text.substring_char(b, e).to_owned();
        out.push(name);
        assert(texts(out@) =~= texts(old(out)@).push(trimmed(piece)));
    }
}

/// Reads a comma-separated list of names.
pub fn parse_names(text: &str) -> (names: Vec<String>)
    ensures
        texts(names@) == list_names(text@),
{
    let n: usize = text.unicode_len();
    let mut out: Vec<String> = Vec::new();
    let mut start: usize = 0;
    let mut i: usize = 0;
    let ghost mut done: Seq<Seq<char>> = Seq::empty();
    assert(texts(out@) =~= kept_names(done));
    assert(text@.take(0) =~= Seq::<char>::empty());
    assert(comma_pieces(text@.take(0)) =~= done.push(text@.subrange(0, 0)));
    while i < n
        invariant
            n == text@.len(),
            start <= i <= n,
            comma_pieces(text@.take(i as int)) == done.push(
                text@.subrange(start as int, i as int),
            ),
            texts(out@) == kept_names(done),
        decreases n - i,
    {
        let c: char = text.get_char(i);
        let ghost cur = text@.subrange(start as int, i as int);
        proof {
            assert(text@.take(i + 1).drop_last() =~= text@.take(i as int));
            assert(done.push(cur).drop_last() =~= done);
        }
        if c == ',' {
            push_trimmed(text, start, i, &mut out);
            proof {
                done = done.push(cur);
                assert(text@.subrange(i + 1, i + 1) =~= Seq::<char>::empty());
            }
            start = i + 1;
        } else {
            proof {
                assert(cur.push(c) =~= text@.subrange(start as int, i + 1));
            }
        }
        i += 1;
    }
    proof {
        assert(text@.take(n as int) =~= text@);
        assert(done.push(text@.subrange(start as int, n as int)).drop_last() =~= done);
    }
    push_trimmed(text, start, n, &mut out);
    out
}

/// A copy of an optional text.
pub fn copy_text(text: &Option<String>) -> (copy: Option<String>)
    ensures
        copy.is_some() == text.is_some(),
        copy.is_some() ==> copy.unwrap()@ == text.unwrap()@,
{
    match text {
        Some(t) => Some(t.clone()),
        None => None,
    }
}

/// Whether `name` is one of `names`.
pub fn contains_name(names: &Vec<String>, name: &String) -> (found: bool)
    ensures
        found == texts(names@).contains(name@),
{
    let mut i: usize = 0;
    while i < names.len()
        invariant
            i <= names.len(),
            forall|j: int| 0 <= j < i ==> texts(names@)[j] != name@,
        decreases names.len() - i,
    {
        if names[i] == *name {
            assert(texts(names@)[i as int] == name@);
            return true;
        }
        i += 1;
    }
    false
}

} // verus!
