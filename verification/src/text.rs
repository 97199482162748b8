//! Character-level text utilities shared by the identifier and datapack code.
//!
//! Strings are reasoned about through their `Seq<char>` views.  Every helper
//! here has a spec function that states its result directly.
use vstd::prelude::*;

verus! {

/// Appending a character to a `String` extends its character sequence by
/// exactly that character (std documents `String::push` as "appends the given
/// char to the end of this String").
pub assume_specification[ String::push ](s: &mut String, ch: char)
    ensures
        final(s)@ == old(s)@.push(ch),
;

/// First index at or after `i` holding `c`, or `s.len()` when there is none.
pub open spec fn find_from(s: Seq<char>, c: char, i: int) -> int
    decreases s.len() - i,
{
    if i >= s.len() {
        s.len() as int
    } else if s[i] == c {
        i
    } else {
        find_from(s, c, i + 1)
    }
}

/// First index of `c` in `s`, or `s.len()` when `c` does not occur.
pub open spec fn index_of_char(s: Seq<char>, c: char) -> int {
    find_from(s, c, 0)
}

pub proof fn lemma_find_from(s: Seq<char>, c: char, i: int)
    requires
        0 <= i <= s.len(),
    ensures
        i <= find_from(s, c, i) <= s.len(),
        find_from(s, c, i) < s.len() ==> s[find_from(s, c, i)] == c,
        forall|j: int| i <= j < find_from(s, c, i) ==> s[j] != c,
    decreases s.len() - i,
{
    if i < s.len() && s[i] != c {
        lemma_find_from(s, c, i + 1);
    }
}

/// Splits `s` at every occurrence of `sep`, like `str::split` with a char.
pub open spec fn split_seq(s: Seq<char>, sep: char) -> Seq<Seq<char>>
    decreases s.len(),
{
    let k = index_of_char(s, sep);
    if 0 <= k < s.len() {
        seq![s.take(k)] + split_seq(s.skip(k + 1), sep)
    } else {
        seq![s]
    }
}

/// Joins `parts` with `sep` between consecutive parts, like `[T]::join`.
pub open spec fn join_seq(parts: Seq<Seq<char>>, sep: Seq<char>) -> Seq<char>
    decreases parts.len(),
{
    if parts.len() == 0 {
        Seq::empty()
    } else if parts.len() == 1 {
        parts[0]
    } else {
        join_seq(parts.drop_last(), sep) + sep + parts.last()
    }
}

/// Joining a part in front of other parts puts one separator between them.
pub proof fn lemma_join_seq_front(a: Seq<char>, rest: Seq<Seq<char>>, sep: Seq<char>)
    ensures
        rest.len() == 0 ==> join_seq(seq![a] + rest, sep) == a,
        rest.len() > 0 ==> join_seq(seq![a] + rest, sep) == a + sep + join_seq(rest, sep),
    decreases rest.len(),
{
    let all = seq![a] + rest;
    if rest.len() == 0 {
        assert(all =~= seq![a]);
    } else if rest.len() == 1 {
        assert(all.drop_last() =~= seq![a]);
        assert(all.last() == rest[0]);
        assert(join_seq(seq![a], sep) == a);
        assert(join_seq(rest, sep) == rest[0]);
        assert(join_seq(all, sep) == join_seq(all.drop_last(), sep) + sep + all.last());
    } else {
        lemma_join_seq_front(a, rest.drop_last(), sep);
        assert(all.drop_last() =~= seq![a] + rest.drop_last());
        assert(all.last() == rest.last());
        assert(join_seq(all, sep) == join_seq(all.drop_last(), sep) + sep + all.last());
        assert(join_seq(rest, sep) == join_seq(rest.drop_last(), sep) + sep + rest.last());
        assert(a + sep + join_seq(rest.drop_last(), sep) + sep + rest.last() =~= a + sep + (join_seq(
            rest.drop_last(),
            sep,
        ) + sep + rest.last()));
    }
}

/// `split_seq` splits as `str::split` does: its pieces hold no separator,
/// and joined with the separator they give back the text.
pub proof fn lemma_split_seq_pieces(s: Seq<char>, sep: char)
    ensures
        join_seq(split_seq(s, sep), seq![sep]) == s,
        forall|i: int| 0 <= i < split_seq(s, sep).len() ==> !(#[trigger] split_seq(s, sep)[i]).contains(sep),
    decreases s.len(),
{
    let k = index_of_char(s, sep);
    lemma_find_from(s, sep, 0);
    if 0 <= k < s.len() {
        let rest = s.skip(k + 1);
        lemma_split_seq_pieces(rest, sep);
        let parts = split_seq(rest, sep);
        lemma_join_seq_front(s.take(k), parts, seq![sep]);
        assert(parts.len() > 0) by {
            assert(split_seq(rest, sep).len() >= 1);
        }
        assert(s.take(k) + seq![sep] + rest =~= s);
        assert(!s.take(k).contains(sep)) by {
            if s.take(k).contains(sep) {
                let j = choose|j: int| 0 <= j < s.take(k).len() && s.take(k)[j] == sep;
                assert(s[j] == sep);
            }
        }
        assert forall|i: int| 0 <= i < split_seq(s, sep).len() implies !(#[trigger] split_seq(s, sep)[i]).contains(sep) by {
            if i > 0 {
                assert(split_seq(s, sep)[i] == parts[i - 1]);
            }
        }
    } else {
        assert(!s.contains(sep)) by {
            if s.contains(sep) {
                let j = choose|j: int| 0 <= j < s.len() && s[j] == sep;
                assert(s[j] != sep);
            }
        }
    }
}

/// Strips every trailing repetition of `suffix`, like `str::trim_end_matches`.
pub open spec fn trim_end_all(s: Seq<char>, suffix: Seq<char>) -> Seq<char>
    decreases s.len(),
{
    if suffix.len() > 0 && suffix.len() <= s.len() && s.skip(s.len() - suffix.len()) == suffix {
        trim_end_all(s.take(s.len() - suffix.len()), suffix)
    } else {
        s
    }
}

pub open spec fn starts_with(s: Seq<char>, prefix: Seq<char>) -> bool {
    prefix.len() <= s.len() && s.take(prefix.len() as int) == prefix
}

pub open spec fn ends_with(s: Seq<char>, suffix: Seq<char>) -> bool {
    suffix.len() <= s.len() && s.skip(s.len() - suffix.len()) == suffix
}

/// `s` without `prefix` when it starts with it, `s` otherwise (the
/// `strip_prefix(..).unwrap_or(s)` idiom).
pub open spec fn strip_prefix_or_keep(s: Seq<char>, prefix: Seq<char>) -> Seq<char> {
    if starts_with(s, prefix) {
        s.skip(prefix.len() as int)
    } else {
        s
    }
}

/// The white-space characters of Unicode, as `char::is_whitespace` lists them.
pub open spec fn is_white_space(c: char) -> bool {
    let u = c as u32;
    ||| 0x9 <= u <= 0xd
    ||| u == 0x20
    ||| u == 0x85
    ||| u == 0xa0
    ||| u == 0x1680
    ||| 0x2000 <= u <= 0x200a
    ||| u == 0x2028
    ||| u == 0x2029
    ||| u == 0x202f
    ||| u == 0x205f
    ||| u == 0x3000
}

pub open spec fn trim_start_ws(s: Seq<char>) -> Seq<char>
    decreases s.len(),
{
    if s.len() > 0 && is_white_space(s[0]) {
        trim_start_ws(s.drop_first())
    } else {
        s
    }
}

pub open spec fn trim_end_ws(s: Seq<char>) -> Seq<char>
    decreases s.len(),
{
    if s.len() > 0 && is_white_space(s.last()) {
        trim_end_ws(s.drop_last())
    } else {
        s
    }
}

/// `str::trim`: white space removed from both ends.
pub open spec fn trim_ws(s: Seq<char>) -> Seq<char> {
    trim_end_ws(trim_start_ws(s))
}

/// Number of bytes of the UTF-8 encoding of one character.
pub open spec fn utf8_width(c: char) -> nat {
    let u = c as u32;
    if u < 0x80 {
        1
    } else if u < 0x800 {
        2
    } else if u < 0x10000 {
        3
    } else {
        4
    }
}

/// Number of bytes of the UTF-8 encoding of `s` (what `str::len` returns).
pub open spec fn utf8_len(s: Seq<char>) -> nat
    decreases s.len(),
{
    if s.len() == 0 {
        0
    } else {
        utf8_len(s.drop_last()) + utf8_width(s.last())
    }
}

/// Index of the first position where `a` and `b` differ, from `i` on, or the
/// length of the shorter one.
pub open spec fn mismatch_from(a: Seq<char>, b: Seq<char>, i: int) -> int
    decreases a.len() - i,
{
    if i >= a.len() || i >= b.len() || a[i] != b[i] {
        i
    } else {
        mismatch_from(a, b, i + 1)
    }
}

/// Lexicographic order on characters by code point, which is the order of
/// `String`'s `Ord` (UTF-8 preserves code point order).
pub open spec fn lex_lt(a: Seq<char>, b: Seq<char>) -> bool {
    let k = mismatch_from(a, b, 0);
    ||| (k == a.len() && k < b.len())
    ||| (k < a.len() && k < b.len() && (a[k] as int) < (b[k] as int))
}

pub proof fn lemma_mismatch_from(a: Seq<char>, b: Seq<char>, i: int)
    requires
        0 <= i,
        i <= a.len(),
        i <= b.len(),
    ensures
        i <= mismatch_from(a, b, i) <= a.len(),
        mismatch_from(a, b, i) <= b.len(),
        forall|j: int| i <= j < mismatch_from(a, b, i) ==> a[j] == b[j],
        mismatch_from(a, b, i) < a.len() && mismatch_from(a, b, i) < b.len() ==> a[mismatch_from(
            a,
            b,
            i,
        )] != b[mismatch_from(a, b, i)],
    decreases a.len() - i,
{
    if i < a.len() && i < b.len() && a[i] == b[i] {
        lemma_mismatch_from(a, b, i + 1);
    }
}

/// Distinct sequences are ordered one way or the other.
pub proof fn lemma_lex_total(a: Seq<char>, b: Seq<char>)
    requires
        a != b,
    ensures
        lex_lt(a, b) || lex_lt(b, a),
{
    lemma_mismatch_from(a, b, 0);
    lemma_mismatch_from(b, a, 0);
    lemma_mismatch_symmetric(a, b, 0);
    let k = mismatch_from(a, b, 0);
    if k == a.len() && k == b.len() {
        assert(a =~= b);
    }
    if k < a.len() && k < b.len() {
        assert((a[k] as int) != (b[k] as int));
    }
}

pub proof fn lemma_mismatch_symmetric(a: Seq<char>, b: Seq<char>, i: int)
    requires
        0 <= i,
    ensures
        mismatch_from(a, b, i) == mismatch_from(b, a, i),
    decreases a.len() - i,
{
    if i < a.len() && i < b.len() && a[i] == b[i] {
        lemma_mismatch_symmetric(a, b, i + 1);
    }
}


/// The first mismatch is the first index where the sequences differ.
pub proof fn lemma_mismatch_at(a: Seq<char>, b: Seq<char>, i: int, k: int)
    requires
        0 <= i <= k,
        k <= a.len(),
        k <= b.len(),
        forall|j: int| i <= j < k ==> a[j] == b[j],
        k == a.len() || k == b.len() || a[k] != b[k],
    ensures
        mismatch_from(a, b, i) == k,
    decreases k - i,
{
    if i < k {
        lemma_mismatch_at(a, b, i + 1, k);
    }
}

/// The ordering is transitive.
pub proof fn lemma_lex_transitive(a: Seq<char>, b: Seq<char>, c: Seq<char>)
    requires
        lex_lt(a, b),
        lex_lt(b, c),
    ensures
        lex_lt(a, c),
{
    lemma_mismatch_from(a, b, 0);
    lemma_mismatch_from(b, c, 0);
    let k1 = mismatch_from(a, b, 0);
    let k2 = mismatch_from(b, c, 0);
    if k1 < k2 {
        assert(b[k1] == c[k1]);
        lemma_mismatch_at(a, c, 0, k1);
    } else if k2 < k1 {
        assert(a[k2] == b[k2]);
        lemma_mismatch_at(a, c, 0, k2);
    } else {
        lemma_mismatch_at(a, c, 0, k1);
    }
}

/// The ordering is irreflexive and asymmetric.
pub proof fn lemma_lex_asymmetric(a: Seq<char>, b: Seq<char>)
    ensures
        !(lex_lt(a, b) && lex_lt(b, a)),
        !lex_lt(a, a),
{
    lemma_mismatch_from(a, b, 0);
    lemma_mismatch_symmetric(a, b, 0);
    lemma_mismatch_from(a, a, 0);
}

/// The characters of a string slice, in order.
pub fn str_chars(s: &str) -> (r: Vec<char>)
    ensures
        r@ == s@,
{
    let mut out: Vec<char> = Vec::new();
    for x in it: s.chars()
        invariant
            out@ == it.seq().take(it.index() as int),
            it.seq() == s@,
    {
        out.push(x);
    }
    out
}

/// A `String` holding exactly the given characters.
pub fn string_from_chars(v: &Vec<char>) -> (r: String)
    ensures
        r@ == v@,
{
    let mut s = String::new();
    for i in 0..v.len()
        invariant
            s@ == v@.take(i as int),
    {
        s.push(v[i]);
        assert(v@.take(i as int).push(v@[i as int]) == v@.take(i + 1));
    }
    assert(v@.take(v.len() as int) == v@);
    s
}

/// A `String` holding the characters of `s`.
pub fn string_from_str(s: &str) -> (r: String)
    ensures
        r@ == s@,
{
    let v = str_chars(s);
    string_from_chars(&v)
}

pub fn chars_eq(a: &Vec<char>, b: &Vec<char>) -> (r: bool)
    ensures
        r == (a@ == b@),
{
    if a.len() != b.len() {
        return false;
    }
    let mut i: usize = 0;
    while i < a.len()
        invariant
            a.len() == b.len(),
            i <= a.len(),
            forall|j: int| 0 <= j < i ==> a@[j] == b@[j],
        decreases a.len() - i,
    {
        if a[i] != b[i] {
            return false;
        }
        i = i + 1;
    }
    assert(a@ =~= b@);
    true
}

/// Whether `s` equals the given literal text.
pub fn chars_eq_str(a: &Vec<char>, b: &str) -> (r: bool)
    ensures
        r == (a@ == b@),
{
    let bv = str_chars(b);
    chars_eq(a, &bv)
}

pub fn find_char_from(s: &Vec<char>, c: char, start: usize) -> (r: usize)
    requires
        start <= s.len(),
    ensures
        r == find_from(s@, c, start as int),
{
    let mut i = start;
    while i < s.len()
        invariant
            start <= i <= s.len(),
            find_from(s@, c, start as int) == find_from(s@, c, i as int),
        decreases s.len() - i,
    {
        if s[i] == c {
            return i;
        }
        i = i + 1;
    }
    i
}

pub fn contains_char(s: &Vec<char>, c: char) -> (r: bool)
    ensures
        r == s@.contains(c),
{
    let k = find_char_from(s, c, 0);
    proof {
        lemma_find_from(s@, c, 0);
    }
    k < s.len()
}

/// The characters `s[from..to]`.
pub fn slice_chars(s: &Vec<char>, from: usize, to: usize) -> (r: Vec<char>)
    requires
        from <= to <= s.len(),
    ensures
        r@ == s@.subrange(from as int, to as int),
{
    let mut out: Vec<char> = Vec::new();
    let mut i = from;
    while i < to
        invariant
            from <= i <= to <= s.len(),
            out@ == s@.subrange(from as int, i as int),
        decreases to - i,
    {
        out.push(s[i]);
        i = i + 1;
    }
    out
}

pub fn starts_with_str(s: &Vec<char>, prefix: &str) -> (r: bool)
    ensures
        r == starts_with(s@, prefix@),
{
    let p = str_chars(prefix);
    if p.len() > s.len() {
        return false;
    }
    let head = slice_chars(s, 0, p.len());
    chars_eq(&head, &p)
}

pub fn ends_with_str(s: &Vec<char>, suffix: &str) -> (r: bool)
    ensures
        r == ends_with(s@, suffix@),
{
    let p = str_chars(suffix);
    if p.len() > s.len() {
        return false;
    }
    let tail = slice_chars(s, s.len() - p.len(), s.len());
    chars_eq(&tail, &p)
}

pub fn strip_prefix_or_keep_str(s: &Vec<char>, prefix: &str) -> (r: Vec<char>)
    ensures
        r@ == strip_prefix_or_keep(s@, prefix@),
{
    if starts_with_str(s, prefix) {
        let n = str_chars(prefix).len();
        slice_chars(s, n, s.len())
    } else {
        slice_chars(s, 0, s.len())
    }
}

/// Removes every trailing repetition of `suffix`.
pub fn trim_end_all_str(s: &Vec<char>, suffix: &str) -> (r: Vec<char>)
    ensures
        r@ == trim_end_all(s@, suffix@),
{
    let p = str_chars(suffix);
    let mut cur = slice_chars(s, 0, s.len());
    assert(cur@ =~= s@);
    if p.len() == 0 {
        return cur;
    }
    while p.len() <= cur.len() && ends_with_str(&cur, suffix)
        invariant
            p@ == suffix@,
            p.len() > 0,
            trim_end_all(cur@, suffix@) == trim_end_all(s@, suffix@),
        decreases cur.len(),
    {
        cur = slice_chars(&cur, 0, cur.len() - p.len());
    }
    cur
}

/// The character sequences of a vector of character vectors.
pub open spec fn vview(v: Seq<Vec<char>>) -> Seq<Seq<char>> {
    v.map_values(|x: Vec<char>| x@)
}

/// Splits at every `sep`.
pub fn split_chars(s: &Vec<char>, sep: char) -> (r: Vec<Vec<char>>)
    ensures
        vview(r@) == split_seq(s@, sep),
{
    let mut parts: Vec<Vec<char>> = Vec::new();
    let mut start: usize = 0;
    assert(s@.skip(0) =~= s@);
    assert(vview(parts@) =~= Seq::<Seq<char>>::empty());
    loop
        invariant
            start <= s.len(),
            vview(parts@) + split_seq(s@.skip(start as int), sep) == split_seq(s@, sep),
        decreases s.len() - start,
    {
        let k = find_char_from(s, sep, start);
        proof {
            lemma_find_from(s@, sep, start as int);
            lemma_find_from_skip(s@, sep, start as int);
        }
        let ghost rest = s@.skip(start as int);
        if k == s.len() {
            let piece = slice_chars(s, start, s.len());
            let ghost old_parts = parts@;
            parts.push(piece);
            proof {
                assert(split_seq(rest, sep) == seq![rest]);
                assert(piece@ =~= rest);
                assert(vview(parts@) =~= vview(old_parts).push(piece@));
            }
            return parts;
        }
        let piece = slice_chars(s, start, k);
        let ghost old_parts = vview(parts@);
        let ghost old_raw = parts@;
        parts.push(piece);
        proof {
            let kk = (k - start) as int;
            assert(index_of_char(rest, sep) == kk);
            assert(piece@ =~= rest.take(kk));
            assert(rest.skip(kk + 1) =~= s@.skip(k + 1));
            assert(parts@ == old_raw.push(piece));
            assert(vview(parts@) =~= old_parts.push(piece@));
            assert(split_seq(rest, sep) == seq![rest.take(kk)] + split_seq(rest.skip(kk + 1), sep));
            assert(old_parts.push(piece@) + split_seq(s@.skip(k + 1), sep) =~= old_parts + (seq![
                rest.take(kk),
            ] + split_seq(rest.skip(kk + 1), sep)));
        }
        start = k + 1;
    }
}

pub proof fn lemma_find_from_skip(s: Seq<char>, c: char, start: int)
    requires
        0 <= start <= s.len(),
    ensures
        find_from(s.skip(start), c, 0) == find_from(s, c, start) - start,
{
    lemma_find_from_skip_at(s, c, start, start);
}

proof fn lemma_find_from_skip_at(s: Seq<char>, c: char, start: int, i: int)
    requires
        0 <= start <= i <= s.len(),
    ensures
        find_from(s.skip(start), c, i - start) == find_from(s, c, i) - start,
    decreases s.len() - i,
{
    if i < s.len() {
        assert(s.skip(start)[i - start] == s[i]);
        if s[i] != c {
            lemma_find_from_skip_at(s, c, start, i + 1);
        }
    }
}

/// Joins the parts with `sep` between them.
pub fn join_chars(parts: &Vec<Vec<char>>, sep: char) -> (r: Vec<char>)
    ensures
        r@ == join_seq(vview(parts@), seq![sep]),
{
    let mut out: Vec<char> = Vec::new();
    let mut i: usize = 0;
    while i < parts.len()
        invariant
            i <= parts.len(),
            out@ == join_seq(vview(parts@).take(i as int), seq![sep]),
        decreases parts.len() - i,
    {
        let ghost before = out@;
        if i > 0 {
            out.push(sep);
        }
        let piece = &parts[i];
        let mut j: usize = 0;
        while j < piece.len()
            invariant
                j <= piece.len(),
                out@ == (if i > 0 {
                    before + seq![sep]
                } else {
                    before
                }) + piece@.take(j as int),
            decreases piece.len() - j,
        {
            out.push(piece[j]);
            j = j + 1;
        }
        proof {
            let pv = vview(parts@);
            assert(piece@.take(j as int) =~= piece@);
            assert(pv.take(i + 1).drop_last() =~= pv.take(i as int));
            assert(pv.take(i + 1).last() == pv[i as int]);
            if i == 0 {
                assert(pv.take(0) =~= Seq::<Seq<char>>::empty());
                assert(before =~= Seq::<char>::empty());
                assert(out@ =~= pv[0]);
            } else {
                assert(out@ =~= before + seq![sep] + pv[i as int]);
            }
        }
        i = i + 1;
    }
    assert(vview(parts@).take(parts.len() as int) =~= vview(parts@));
    out
}

/// Concatenation of two character vectors.
pub fn concat_chars(a: &Vec<char>, b: &Vec<char>) -> (r: Vec<char>)
    ensures
        r@ == a@ + b@,
{
    let mut out = slice_chars(a, 0, a.len());
    let mut j: usize = 0;
    while j < b.len()
        invariant
            j <= b.len(),
            out@ == a@ + b@.take(j as int),
        decreases b.len() - j,
    {
        out.push(b[j]);
        j = j + 1;
    }
    assert(b@.take(b.len() as int) =~= b@);
    out
}

pub fn is_white_space_char(c: char) -> (r: bool)
    ensures
        r == is_white_space(c),
{
    let u = c as u32;
    (0x9 <= u && u <= 0xd) || u == 0x20 || u == 0x85 || u == 0xa0 || u == 0x1680 || (0x2000 <= u
        && u <= 0x200a) || u == 0x2028 || u == 0x2029 || u == 0x202f || u == 0x205f || u == 0x3000
}

/// White space removed from both ends.
pub fn trim_chars(s: &Vec<char>) -> (r: Vec<char>)
    ensures
        r@ == trim_ws(s@),
{
    let mut a: usize = 0;
    assert(s@.skip(0) =~= s@);
    while a < s.len() && is_white_space_char(s[a])
        invariant
            a <= s.len(),
            trim_start_ws(s@.skip(a as int)) == trim_start_ws(s@),
        decreases s.len() - a,
    {
        assert(s@.skip(a as int).drop_first() =~= s@.skip(a + 1));
        a = a + 1;
    }
    let mut b: usize = s.len();
    proof {
        assert(trim_start_ws(s@.skip(a as int)) == s@.skip(a as int));
        assert(s@.subrange(a as int, b as int) =~= s@.skip(a as int));
    }
    while b > a && is_white_space_char(s[b - 1])
        invariant
            a <= b <= s.len(),
            trim_end_ws(s@.subrange(a as int, b as int)) == trim_ws(s@),
        decreases b,
    {
        assert(s@.subrange(a as int, b as int).drop_last() =~= s@.subrange(a as int, b - 1));
        b = b - 1;
    }
    slice_chars(s, a, b)
}

pub fn utf8_width_of(c: char) -> (r: usize)
    ensures
        r == utf8_width(c),
{
    let u = c as u32;
    if u < 0x80 {
        1
    } else if u < 0x800 {
        2
    } else if u < 0x10000 {
        3
    } else {
        4
    }
}

/// Whether the UTF-8 encoding of `s` is longer than `limit` bytes.
pub fn utf8_len_exceeds(s: &Vec<char>, limit: usize) -> (r: bool)
    ensures
        r == (utf8_len(s@) > limit),
{
    let mut total: usize = 0;
    let mut i: usize = 0;
    while i < s.len()
        invariant
            i <= s.len(),
            total == utf8_len(s@.take(i as int)),
            total <= limit,
        decreases s.len() - i,
    {
        assert(s@.take(i + 1).drop_last() =~= s@.take(i as int));
        let w = utf8_width_of(s[i]);
        if w > limit - total {
            proof {
                lemma_utf8_len_prefix_monotone(s@, i + 1);
            }
            return true;
        }
        total = total + w;
        i = i + 1;
    }
    assert(s@.take(s.len() as int) =~= s@);
    false
}

pub proof fn lemma_utf8_len_prefix_monotone(s: Seq<char>, i: int)
    requires
        0 <= i <= s.len(),
    ensures
        utf8_len(s.take(i)) <= utf8_len(s),
    decreases s.len() - i,
{
    if i < s.len() {
        lemma_utf8_len_prefix_monotone(s, i + 1);
        assert(s.take(i + 1).drop_last() =~= s.take(i));
    } else {
        assert(s.take(i) =~= s);
    }
}

/// Compares two character sequences in code point order.
pub fn lex_less(a: &Vec<char>, b: &Vec<char>) -> (r: bool)
    ensures
        r == lex_lt(a@, b@),
{
    let mut i: usize = 0;
    while i < a.len() && i < b.len() && a[i] == b[i]
        invariant
            i <= a.len(),
            i <= b.len(),
            mismatch_from(a@, b@, 0) == mismatch_from(a@, b@, i as int),
        decreases a.len() - i,
    {
        i = i + 1;
    }
    assert(mismatch_from(a@, b@, i as int) == i);
    if i == a.len() {
        i < b.len()
    } else if i == b.len() {
        false
    } else {
        a[i] < b[i]
    }
}

} // verus!
