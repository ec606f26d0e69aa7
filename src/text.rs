use vstd::prelude::*;
use vstd::std_specs::iter::IteratorSpec;

verus! {

/// Whether `pat` occurs in `t` starting at index `i`.
pub open spec fn occurs_at(t: Seq<char>, pat: Seq<char>, i: int) -> bool {
    0 <= i && i + pat.len() <= t.len() && t.subrange(i, i + pat.len()) == pat
}

/// The first index at or after `from` where `pat` occurs in `t`, if any.
pub open spec fn first_occurrence(t: Seq<char>, pat: Seq<char>, from: int) -> Option<int>
    decreases t.len() + 1 - from,
{
    if from < 0 || from + pat.len() > t.len() {
        None
    } else if occurs_at(t, pat, from) {
        Some(from)
    } else {
        first_occurrence(t, pat, from + 1)
    }
}

/// A found occurrence lies at or after `from`, and none comes before it.
pub proof fn lemma_first_occurrence(t: Seq<char>, pat: Seq<char>, from: int)
    requires
        0 <= from,
    ensures
        first_occurrence(t, pat, from) matches Some(i) ==> from <= i && occurs_at(t, pat, i)
            && forall|j: int| from <= j < i ==> !occurs_at(t, pat, j),
        first_occurrence(t, pat, from) is None ==> forall|j: int|
            from <= j ==> !occurs_at(t, pat, j),
    decreases t.len() + 1 - from,
{
    if from < 0 || from + pat.len() > t.len() {
    } else if occurs_at(t, pat, from) {
    } else {
        lemma_first_occurrence(t, pat, from + 1);
    }
}

/// The pieces of `t` from `start` on, cut at each occurrence of `sep`
/// found from left to right.
pub open spec fn split_from(t: Seq<char>, sep: Seq<char>, start: int) -> Seq<Seq<char>>
    decreases t.len() - start,
    via split_from_decreases
{
    if sep.len() == 0 {
        seq![t.subrange(start, t.len() as int)]
    } else {
        match first_occurrence(t, sep, start) {
            Some(i) => seq![t.subrange(start, i)] + split_from(t, sep, i + sep.len()),
            None => seq![t.subrange(start, t.len() as int)],
        }
    }
}

#[via_fn]
proof fn split_from_decreases(t: Seq<char>, sep: Seq<char>, start: int) {
    if start >= 0 {
        lemma_first_occurrence(t, sep, start);
    }
}

/// The tokens of `t`: its pieces between the occurrences of `sep`.
pub open spec fn split_on(t: Seq<char>, sep: Seq<char>) -> Seq<Seq<char>> {
    split_from(t, sep, 0)
}

/// `t` with every newline replaced by `sep`.
pub open spec fn normalized(t: Seq<char>, sep: Seq<char>) -> Seq<char>
    decreases t.len(),
{
    if t.len() == 0 {
        seq![]
    } else {
        normalized(t.drop_last(), sep) + if t.last() == '\n' {
            sep
        } else {
            seq![t.last()]
        }
    }
}

/// The character sequences that a list of character vectors holds.
pub open spec fn char_views(v: Seq<Vec<char>>) -> Seq<Seq<char>> {
    v.map_values(|t: Vec<char>| t@)
}

/// The characters of a string, in order.
pub fn chars_of(s: &str) -> (r: Vec<char>)
    ensures
        r@ == s@,
{
    broadcast use vstd::string::group_string_axioms;

    let mut it = s.chars();
    let mut out: Vec<char> = Vec::new();
    loop
        invariant
            out@ + it.remaining() == s@,
            it.decrease() is Some,
        ensures
            out@ == s@,
        decreases it.decrease()->0,
    {
        match it.next() {
            Some(c) => {
                out.push(c);
            },
            None => {
                assert(out@ + it.remaining() =~= out@);
                break ;
            },
        }
    }
    out
}

/// Relies on `String`'s `FromIterator<&char>`: the string holds the given
/// characters in order.
#[verifier::external_body]
pub(crate) fn string_from_chars(chars: &[char]) -> (r: String)
    ensures
        r@ == chars@,
{
    chars.iter().collect()
}

/// Appends the characters of `src` to `out`.
pub fn append_chars(out: &mut Vec<char>, src: &Vec<char>)
    ensures
        final(out)@ == old(out)@ + src@,
{
    let mut k: usize = 0;
    while k < src.len()
        invariant
            k <= src.len(),
            out@ == old(out)@ + src@.subrange(0, k as int),
        decreases src.len() - k,
    {
        out.push(src[k]);
        k = k + 1;
        assert(out@ =~= old(out)@ + src@.subrange(0, k as int));
    }
    assert(src@.subrange(0, k as int) =~= src@);
}

/// Whether `c` occurs in `t`.
pub fn contains_char(t: &Vec<char>, c: char) -> (r: bool)
    ensures
        r == t@.contains(c),
{
    let mut k: usize = 0;
    while k < t.len()
        invariant
            k <= t.len(),
            forall|j: int| 0 <= j < k ==> t@[j] != c,
        decreases t.len() - k,
    {
        if t[k] == c {
            return true;
        }
        k = k + 1;
    }
    false
}

/// Whether `pat` occurs in `t` at index `i`.
pub fn matches_at(t: &Vec<char>, pat: &Vec<char>, i: usize) -> (r: bool)
    requires
        i <= t.len(),
        pat.len() <= t.len() - i,
    ensures
        r == occurs_at(t@, pat@, i as int),
{
    let mut k: usize = 0;
    while k < pat.len()
        invariant
            k <= pat.len(),
            i + pat.len() <= t.len(),
            forall|j: int| 0 <= j < k ==> t@[i + j] == pat@[j],
        decreases pat.len() - k,
    {
        if t[i + k] != pat[k] {
            assert(t@.subrange(i as int, i + pat.len())[k as int] != pat@[k as int]);
            return false;
        }
        k = k + 1;
    }
    assert(t@.subrange(i as int, i + pat.len()) =~= pat@);
    true
}

/// The characters of `t` from `start` on, each newline replaced by `sep`.
pub fn replace_newlines(t: &Vec<char>, start: usize, sep: &Vec<char>) -> (r: Vec<char>)
    requires
        start <= t.len(),
    ensures
        r@ == normalized(t@.subrange(start as int, t.len() as int), sep@),
{
    let mut out: Vec<char> = Vec::new();
    let mut k: usize = start;
    assert(t@.subrange(start as int, start as int) =~= seq![]);
    while k < t.len()
        invariant
            start <= k <= t.len(),
            out@ == normalized(t@.subrange(start as int, k as int), sep@),
        decreases t.len() - k,
    {
        assert(t@.subrange(start as int, k + 1).drop_last() =~= t@.subrange(start as int, k as int));
        if t[k] == '\n' {
            append_chars(&mut out, sep);
        } else {
            out.push(t[k]);
        }
        k = k + 1;
    }
    out
}

/// The tokens of `t` between the occurrences of `sep`.
pub fn split_tokens(t: &Vec<char>, sep: &Vec<char>) -> (r: Vec<Vec<char>>)
    requires
        sep.len() > 0,
    ensures
        char_views(r@) == split_on(t@, sep@),
{
    let mut out: Vec<Vec<char>> = Vec::new();
    let mut piece: Vec<char> = Vec::new();
    let mut start: usize = 0;
    let mut i: usize = 0;
    assert(char_views(out@) + split_from(t@, sep@, 0) =~= split_on(t@, sep@));
    while i < t.len() && sep.len() <= t.len() - i
        invariant
            start <= i <= t.len(),
            sep.len() > 0,
            split_on(t@, sep@) == char_views(out@) + split_from(t@, sep@, start as int),
            first_occurrence(t@, sep@, start as int) == first_occurrence(t@, sep@, i as int),
            piece@ == t@.subrange(start as int, i as int),
        decreases t.len() - i,
    {
        if matches_at(t, sep, i) {
            let ghost old_out = out@;
            let ghost next = (i + sep.len()) as int;
            assert(split_from(t@, sep@, start as int) == seq![t@.subrange(start as int, i as int)]
                + split_from(t@, sep@, next));
            out.push(piece);
            assert(char_views(out@) =~= char_views(old_out) + seq![t@.subrange(start as int, i as int)]);
            piece = Vec::new();
            i = i + sep.len();
            start = i;
            assert(piece@ =~= t@.subrange(start as int, i as int));
        } else {
            piece.push(t[i]);
            i = i + 1;
            assert(piece@ =~= t@.subrange(start as int, i as int));
        }
    }
    assert(first_occurrence(t@, sep@, i as int) is None);
    while i < t.len()
        invariant
            start <= i <= t.len(),
            piece@ == t@.subrange(start as int, i as int),
        decreases t.len() - i,
    {
        piece.push(t[i]);
        i = i + 1;
        assert(piece@ =~= t@.subrange(start as int, i as int));
    }
    let ghost old_out = out@;
    out.push(piece);
    assert(char_views(out@) =~= char_views(old_out) + seq![t@.subrange(start as int, t.len() as int)]);
    out
}

/// The first index at or after `from` where `c` stands in `t`, if any.
pub fn find_char(t: &Vec<char>, c: char, from: usize) -> (r: Option<usize>)
    ensures
        first_occurrence(t@, seq![c], from as int) == match r {
            Some(i) => Some(i as int),
            None => None::<int>,
        },
{
    if from > t.len() {
        return None;
    }
    let mut k: usize = from;
    while k < t.len()
        invariant
            from <= k <= t.len(),
            first_occurrence(t@, seq![c], from as int) == first_occurrence(t@, seq![c], k as int),
        decreases t.len() - k,
    {
        if t[k] == c {
            assert(t@.subrange(k as int, k + 1) =~= seq![c]);
            return Some(k);
        }
        assert(t@.subrange(k as int, k + 1)[0] != c);
        k = k + 1;
    }
    None
}

/// The characters of `t` from `from` up to `to`.
pub fn copy_range(t: &Vec<char>, from: usize, to: usize) -> (r: Vec<char>)
    requires
        from <= to <= t.len(),
    ensures
        r@ == t@.subrange(from as int, to as int),
{
    let mut out: Vec<char> = Vec::new();
    let mut k: usize = from;
    while k < to
        invariant
            from <= k <= to <= t.len(),
            out@ == t@.subrange(from as int, k as int),
        decreases to - k,
    {
        out.push(t[k]);
        k = k + 1;
        assert(out@ =~= t@.subrange(from as int, k as int));
    }
    out
}

/// A one-character pattern occurs exactly where that character stands.
pub proof fn lemma_occurs_single(t: Seq<char>, c: char, i: int)
    requires
        0 <= i < t.len(),
    ensures
        occurs_at(t, seq![c], i) <==> t[i] == c,
{
    assert(t.subrange(i, i + 1) =~= seq![t[i]]);
    if occurs_at(t, seq![c], i) {
        assert(seq![t[i]][0] == seq![c][0]);
    }
}

/// The first occurrence of `c` from `from` on is at `j` when `t[j]` is `c`
/// and no character between them is.
pub proof fn lemma_first_char_at(t: Seq<char>, c: char, from: int, j: int)
    requires
        0 <= from <= j < t.len(),
        t[j] == c,
        forall|k: int| from <= k < j ==> t[k] != c,
    ensures
        first_occurrence(t, seq![c], from) == Some(j),
    decreases j - from,
{
    lemma_occurs_single(t, c, from);
    if from < j {
        lemma_first_char_at(t, c, from + 1, j);
    }
}

/// `c` does not occur from `from` on when no character there is `c`.
pub proof fn lemma_char_absent(t: Seq<char>, c: char, from: int)
    requires
        0 <= from,
        forall|k: int| from <= k < t.len() ==> t[k] != c,
    ensures
        first_occurrence(t, seq![c], from) is None,
    decreases t.len() + 1 - from,
{
    if from + 1 <= t.len() {
        lemma_occurs_single(t, c, from);
        lemma_char_absent(t, c, from + 1);
    }
}

/// Text without a newline is left as it is by newline replacement.
pub proof fn lemma_normalized_plain(t: Seq<char>, sep: Seq<char>)
    requires
        !t.contains('\n'),
    ensures
        normalized(t, sep) == t,
    decreases t.len(),
{
    if t.len() > 0 {
        assert(t[t.len() - 1] != '\n');
        assert(!t.drop_last().contains('\n')) by {
            if t.drop_last().contains('\n') {
                let k = choose|k: int| 0 <= k < t.drop_last().len() && t.drop_last()[k] == '\n';
                assert(t[k] == '\n');
            }
        }
        lemma_normalized_plain(t.drop_last(), sep);
        assert(t.drop_last() + seq![t.last()] =~= t);
    }
}

} // verus!
