use vstd::prelude::*;

use crate::calculator::{
    Failure, has_header, multiple_outcome, offenders, resolved, sum_outcome, token_value,
    tokens_outcome, tokens_total,
};
use crate::numeric::{
    NumericSummable, all_digits, digits_value, fits_literal, lemma_digits_value_nonnegative,
    literal_value,
};
use crate::text::{
    lemma_char_absent, lemma_first_char_at, lemma_normalized_plain, split_from,
    split_on,
};

verus! {

/// Facts about a non-empty string of digits: it reads as its digits' value
/// and holds no header, sign, comma or newline.
proof fn lemma_digit_text(n: Seq<char>)
    requires
        n.len() > 0,
        all_digits(n),
    ensures
        literal_value(n) == Some(digits_value(n)),
        !has_header(n),
        forall|k: int| 0 <= k < n.len() ==> n[k] != '-' && n[k] != ',' && n[k] != '\n' && n[k] != '+',
        !n.contains('-'),
        !n.contains('\n'),
{
    assert(crate::numeric::is_digit(n[0]));
    assert(forall|k: int| 0 <= k < n.len() ==> crate::numeric::is_digit(#[trigger] n[k]));
    if n.contains('-') {
        let k = choose|k: int| 0 <= k < n.len() && n[k] == '-';
        assert(crate::numeric::is_digit(n[k]));
    }
    if n.contains('\n') {
        let k = choose|k: int| 0 <= k < n.len() && n[k] == '\n';
        assert(crate::numeric::is_digit(n[k]));
    }
}

/// The input of two digit strings joined by a comma has exactly those two
/// tokens.
proof fn lemma_two_tokens(a: Seq<char>, b: Seq<char>, max: int)
    requires
        a.len() > 0,
        all_digits(a),
        b.len() > 0,
        all_digits(b),
    ensures
        sum_outcome(a + seq![','] + b, max) == tokens_outcome(seq![a, b], max),
{
    lemma_digit_text(a);
    lemma_digit_text(b);
    let t = a + seq![','] + b;
    let sep = seq![','];
    assert(t[0] == a[0]);
    assert(!has_header(t));
    assert(resolved(t) == Some((sep, 0int)));
    assert(t.subrange(0, t.len() as int) =~= t);
    assert(!t.contains('\n')) by {
        if t.contains('\n') {
            let k = choose|k: int| 0 <= k < t.len() && t[k] == '\n';
            if k < a.len() {
                assert(t[k] == a[k]);
            } else if k > a.len() {
                assert(t[k] == b[k - a.len() - 1]);
            }
        }
    }
    lemma_normalized_plain(t, sep);
    assert forall|k: int| 0 <= k < a.len() implies t[k] != ',' by {
        assert(t[k] == a[k]);
    }
    lemma_first_char_at(t, ',', 0, a.len() as int);
    assert forall|k: int| a.len() + 1int <= k < t.len() implies t[k] != ',' by {
        assert(t[k] == b[k - a.len() - 1]);
    }
    lemma_char_absent(t, ',', a.len() + 1int);
    assert(split_from(t, sep, a.len() + 1int) == seq![t.subrange(a.len() + 1int, t.len() as int)]);
    assert(t.subrange(0, a.len() as int) =~= a);
    assert(t.subrange(a.len() + 1int, t.len() as int) =~= b);
    assert(split_on(t, sep) =~= seq![a, b]);
}

/// An empty input sums to zero, whatever the numeric type.
pub proof fn law_empty_input_sums_to_zero<T: NumericSummable>()
    ensures
        sum_outcome(Seq::<char>::empty(), T::spec_max()) == Ok::<int, Failure>(0),
{
}

/// An input that is one non-negative decimal number of at most 1000, which
/// the type can hold, sums to that number.
pub proof fn law_single_number_is_its_value<T: NumericSummable>(n: Seq<char>)
    requires
        n.len() > 0,
        all_digits(n),
        digits_value(n) <= 1000,
        digits_value(n) <= T::spec_max(),
    ensures
        sum_outcome(n, T::spec_max()) == Ok::<int, Failure>(digits_value(n)),
{
    lemma_digit_text(n);
    let sep = seq![','];
    assert(resolved(n) == Some((sep, 0int)));
    assert(n.subrange(0, n.len() as int) =~= n);
    lemma_normalized_plain(n, sep);
    lemma_char_absent(n, ',', 0);
    assert(split_on(n, sep) == seq![n]);
    let toks = seq![n];
    assert(toks.drop_last() =~= Seq::<Seq<char>>::empty());
    assert(offenders(toks.drop_last()) == Seq::<Seq<char>>::empty());
    assert(tokens_total(toks.drop_last(), T::spec_max()) == 0);
    assert(fits_literal(n, T::spec_max()));
}

/// Two numbers of at most 1000 separated by a comma sum to their sum when
/// it fits the type, and the order of the two does not change the outcome.
pub proof fn law_two_numbers_add<T: NumericSummable>(a: Seq<char>, b: Seq<char>)
    requires
        a.len() > 0,
        all_digits(a),
        digits_value(a) <= 1000,
        b.len() > 0,
        all_digits(b),
        digits_value(b) <= 1000,
    ensures
        digits_value(a) + digits_value(b) <= T::spec_max() ==> sum_outcome(
            a + seq![','] + b,
            T::spec_max(),
        ) == Ok::<int, Failure>(digits_value(a) + digits_value(b)),
        sum_outcome(a + seq![','] + b, T::spec_max()) == sum_outcome(
            b + seq![','] + a,
            T::spec_max(),
        ),
{
    let max = T::spec_max();
    lemma_two_tokens(a, b, max);
    lemma_two_tokens(b, a, max);
    lemma_digit_text(a);
    lemma_digit_text(b);
    let ab = seq![a, b];
    let ba = seq![b, a];
    assert(ab.drop_last().drop_last() =~= Seq::<Seq<char>>::empty());
    assert(ba.drop_last().drop_last() =~= Seq::<Seq<char>>::empty());
    assert(ab.drop_last() =~= seq![a]);
    assert(ba.drop_last() =~= seq![b]);
    assert(offenders(ab.drop_last().drop_last()) == Seq::<Seq<char>>::empty());
    assert(offenders(ba.drop_last().drop_last()) == Seq::<Seq<char>>::empty());
    assert(offenders(ab.drop_last()) == Seq::<Seq<char>>::empty());
    assert(offenders(ba.drop_last()) == Seq::<Seq<char>>::empty());
    assert(tokens_total(ab.drop_last().drop_last(), max) == 0);
    assert(tokens_total(ba.drop_last().drop_last(), max) == 0);
    assert(tokens_total(ab.drop_last(), max) == token_value(a, max));
    assert(tokens_total(ba.drop_last(), max) == token_value(b, max));
    assert(tokens_total(ab, max) == token_value(a, max) + token_value(b, max));
    assert(tokens_total(ba, max) == token_value(a, max) + token_value(b, max));
    if digits_value(a) + digits_value(b) <= max {
        lemma_digits_value_nonnegative(a);
        lemma_digits_value_nonnegative(b);
        assert(token_value(a, max) == digits_value(a));
        assert(token_value(b, max) == digits_value(b));
    }
}

/// A token that counts as zero adds nothing to the total of a list of
/// tokens, wherever it stands in the list.
pub proof fn law_zero_token_adds_nothing(toks: Seq<Seq<char>>, z: Seq<char>, i: int, max: int)
    requires
        0 <= i <= toks.len(),
        token_value(z, max) == 0,
    ensures
        tokens_total(toks.insert(i, z), max) == tokens_total(toks, max),
    decreases toks.len(),
{
    let longer = toks.insert(i, z);
    if i == toks.len() {
        assert(longer.drop_last() =~= toks);
    } else {
        assert(longer.drop_last() =~= toks.drop_last().insert(i, z));
        assert(longer.last() == toks.last());
        law_zero_token_adds_nothing(toks.drop_last(), z, i, max);
    }
}

/// A token without a minus sign leaves the offending tokens as they are,
/// wherever it stands in the list.
proof fn lemma_offenders_insert(toks: Seq<Seq<char>>, z: Seq<char>, i: int)
    requires
        0 <= i <= toks.len(),
        !z.contains('-'),
    ensures
        offenders(toks.insert(i, z)) == offenders(toks),
    decreases toks.len(),
{
    let longer = toks.insert(i, z);
    if i == toks.len() {
        assert(longer.drop_last() =~= toks);
    } else {
        assert(longer.drop_last() =~= toks.drop_last().insert(i, z));
        assert(longer.last() == toks.last());
        lemma_offenders_insert(toks.drop_last(), z, i);
    }
}

/// Adding a token that counts as zero (one that does not read as a number
/// of the type, or whose value is above 1000) anywhere among the tokens of
/// an input does not change the outcome. A lone token without a minus sign
/// that the type cannot read fails on its own, and no tokens at all sum to
/// nothing, so those two lists are left out.
pub proof fn law_zero_token_keeps_outcome<T: NumericSummable>(
    toks: Seq<Seq<char>>,
    z: Seq<char>,
    i: int,
)
    requires
        0 <= i <= toks.len(),
        token_value(z, T::spec_max()) == 0,
        !z.contains('-'),
        toks.len() >= 1,
        !(toks.len() == 1 && !toks[0].contains('-') && !fits_literal(toks[0], T::spec_max())),
    ensures
        tokens_outcome(toks.insert(i, z), T::spec_max()) == tokens_outcome(toks, T::spec_max()),
{
    let max = T::spec_max();
    law_zero_token_adds_nothing(toks, z, i, max);
    lemma_offenders_insert(toks, z, i);
    if toks.len() == 1 && !toks[0].contains('-') {
        assert(toks.drop_last() =~= Seq::<Seq<char>>::empty());
        assert(tokens_total(toks.drop_last(), max) == 0);
        assert(tokens_total(toks, max) == token_value(toks[0], max));
    }
}

/// Taking out the token at `j` takes its value out of the total.
proof fn lemma_total_remove(toks: Seq<Seq<char>>, j: int, max: int)
    requires
        0 <= j < toks.len(),
    ensures
        tokens_total(toks, max) == tokens_total(toks.remove(j), max) + token_value(toks[j], max),
    decreases toks.len(),
{
    if j == toks.len() - 1 {
        assert(toks.remove(j) =~= toks.drop_last());
    } else {
        assert(toks.remove(j).drop_last() =~= toks.drop_last().remove(j));
        assert(toks.remove(j).last() == toks.last());
        lemma_total_remove(toks.drop_last(), j, max);
    }
}

/// The total of a list of tokens does not depend on their order: any two
/// lists that hold the same tokens, each as often, have the same total.
pub proof fn law_total_ignores_order(ts: Seq<Seq<char>>, ps: Seq<Seq<char>>, max: int)
    requires
        ts.to_multiset() == ps.to_multiset(),
    ensures
        tokens_total(ts, max) == tokens_total(ps, max),
    decreases ts.len(),
{
    broadcast use vstd::seq_lib::group_to_multiset_ensures;

    ts.to_multiset_ensures();
    ps.to_multiset_ensures();
    if ts.len() == 0 {
        assert(ps.len() == 0);
    } else {
        let x = ts.last();
        assert(ts.drop_last().push(x) =~= ts);
        assert(ts.to_multiset().count(x) > 0);
        assert(ps.contains(x));
        let j = choose|j: int| 0 <= j < ps.len() && ps[j] == x;
        assert(ps.remove(j).to_multiset() =~= ts.drop_last().to_multiset());
        law_total_ignores_order(ts.drop_last(), ps.remove(j), max);
        lemma_total_remove(ps, j, max);
    }
}

/// A list of tokens without a minus sign has no offending tokens.
proof fn lemma_no_offenders(toks: Seq<Seq<char>>)
    requires
        forall|k: int| 0 <= k < toks.len() ==> !(#[trigger] toks[k]).contains('-'),
    ensures
        offenders(toks).len() == 0,
    decreases toks.len(),
{
    if toks.len() > 0 {
        assert(!toks[toks.len() - 1].contains('-'));
        lemma_no_offenders(toks.drop_last());
    }
}

/// Summing two or more tokens without a minus sign gives the same outcome
/// in any order of the tokens.
pub proof fn law_outcome_ignores_order<T: NumericSummable>(ts: Seq<Seq<char>>, ps: Seq<Seq<char>>)
    requires
        ts.to_multiset() == ps.to_multiset(),
        ts.len() >= 2,
        forall|k: int| 0 <= k < ts.len() ==> !(#[trigger] ts[k]).contains('-'),
    ensures
        tokens_outcome(ts, T::spec_max()) == tokens_outcome(ps, T::spec_max()),
{
    broadcast use vstd::seq_lib::group_to_multiset_ensures;

    law_total_ignores_order(ts, ps, T::spec_max());
    ts.to_multiset_ensures();
    ps.to_multiset_ensures();
    assert(ps.len() == ts.len());
    assert forall|k: int| 0 <= k < ps.len() implies !(#[trigger] ps[k]).contains('-') by {
        assert(ps.contains(ps[k]));
        assert(ps.to_multiset().count(ps[k]) > 0);
        assert(ts.contains(ps[k]));
    }
    lemma_no_offenders(ts);
    lemma_no_offenders(ps);
}

} // verus!
