use vstd::prelude::*;
use vstd::string::StringExecFns;

use crate::numeric::{NumericSummable, fits_literal, lemma_unsigned_text, literal_value};
use crate::text::{
    char_views, chars_of, contains_char, copy_range, find_char, first_occurrence,
    lemma_first_occurrence, normalized, occurs_at, replace_newlines, split_on, split_tokens,
    string_from_chars,
};

verus! {

/// Values above this bound count as zero.
pub const THRESHOLD: u64 = 1000;

/// Why a sum could not be computed, over character sequences.
pub enum Failure {
    /// The input starts with `//` but has no newline to end the header.
    InvalidSeparatorConfig,
    /// The tokens that hold a minus sign, in input order.
    NegativeNumbers(Seq<Seq<char>>),
    /// The only token does not read as a number of the requested type.
    Unparsable(Seq<char>),
    /// The sum does not fit in the requested type.
    Overflow,
}

/// Why a sum could not be computed.
#[derive(Debug, PartialEq, Eq)]
pub enum CalcError {
    /// The input starts with `//` but has no newline to end the header.
    InvalidSeparatorConfig,
    /// The tokens that hold a minus sign, in input order.
    NegativeNumbers(Vec<String>),
    /// The only token does not read as a number of the requested type.
    Unparsable(String),
    /// The sum does not fit in the requested type.
    Overflow,
}

/// The strings that a list of strings holds.
pub open spec fn string_views(v: Seq<String>) -> Seq<Seq<char>> {
    v.map_values(|s: String| s@)
}

impl View for CalcError {
    type V = Failure;

    open spec fn view(&self) -> Failure {
        match self {
            CalcError::InvalidSeparatorConfig => Failure::InvalidSeparatorConfig,
            CalcError::NegativeNumbers(v) => Failure::NegativeNumbers(string_views(v@)),
            CalcError::Unparsable(s) => Failure::Unparsable(s@),
            CalcError::Overflow => Failure::Overflow,
        }
    }
}

/// The parts joined with `sep` between each two of them.
pub open spec fn joined(parts: Seq<Seq<char>>, sep: Seq<char>) -> Seq<char>
    decreases parts.len(),
{
    if parts.len() == 0 {
        seq![]
    } else if parts.len() == 1 {
        parts[0]
    } else {
        joined(parts.drop_last(), sep) + sep + parts.last()
    }
}

/// The text that describes a failure.
pub open spec fn failure_message(f: Failure) -> Seq<char> {
    match f {
        Failure::InvalidSeparatorConfig => "Invalid separator config"@,
        Failure::NegativeNumbers(offs) => "Negative numbers not allowed: "@ + joined(offs, " "@),
        Failure::Unparsable(t) => "Could not parse value in given string: "@ + t,
        Failure::Overflow => "Sum does not fit in the requested type"@,
    }
}

impl CalcError {
    /// A readable description of the error; for negative numbers it lists
    /// every offending token, separated by spaces.
    pub fn message(&self) -> (r: String)
        ensures
            r@ == failure_message(self@),
    {
        match self {
            CalcError::InvalidSeparatorConfig => String::from_str("Invalid separator config"),
            CalcError::NegativeNumbers(negative_numbers) => {
                let prefix = "Negative numbers not allowed: ";
                let space = " ";
                let mut out = String::from_str(prefix);
                let ghost parts = string_views(negative_numbers@);
                let mut k: usize = 0;
                while k < negative_numbers.len()
                    invariant
                        k <= negative_numbers.len(),
                        parts == string_views(negative_numbers@),
                        out@ == prefix@ + joined(parts.subrange(0, k as int), space@),
                    decreases negative_numbers.len() - k,
                {
                    let ghost before = out@;
                    assert(parts.subrange(0, k + 1).drop_last() =~= parts.subrange(0, k as int));
                    if k > 0 {
                        out.append(space);
                    }
                    out.append(negative_numbers[k].as_str());
                    k = k + 1;
                    assert(out@ =~= prefix@ + joined(parts.subrange(0, k as int), space@));
                }
                assert(parts.subrange(0, k as int) =~= parts);
                out
            },
            CalcError::Unparsable(token) => {
                let mut out = String::from_str("Could not parse value in given string: ");
                out.append(token.as_str());
                out
            },
            CalcError::Overflow => String::from_str("Sum does not fit in the requested type"),
        }
    }
}

/// Whether the input opens with the separator header marker `//`.
pub open spec fn has_header(s: Seq<char>) -> bool {
    s.len() >= 2 && s[0] == '/' && s[1] == '/'
}

/// The separator that a header declares, the header running from index 2
/// to the newline at `nl`: the text inside `[` and `]` when the declaration
/// is wrapped in them around at least one character, else the one character
/// after `//`.
pub open spec fn declared_separator(s: Seq<char>, nl: int) -> Seq<char> {
    let decl = s.subrange(2, nl);
    if decl.len() >= 3 && decl[0] == '[' && decl.last() == ']' {
        decl.subrange(1, decl.len() - 1)
    } else {
        seq![s[2]]
    }
}

/// The separator in force and the index where the numbers start; `None` for
/// a header without a newline.
pub open spec fn resolved(s: Seq<char>) -> Option<(Seq<char>, int)> {
    if has_header(s) {
        match first_occurrence(s, seq!['\n'], 2) {
            Some(nl) => Some((declared_separator(s, nl), nl + 1)),
            None => None,
        }
    } else {
        Some((seq![','], 0))
    }
}

/// What a token without a minus sign adds to the sum, for a type whose
/// largest value is `max`: its value when it reads as a number of the type
/// of at most 1000, else zero.
pub open spec fn token_value(t: Seq<char>, max: int) -> int {
    match literal_value(t) {
        Some(v) => if v <= THRESHOLD && v <= max {
            v
        } else {
            0
        },
        None => 0,
    }
}

/// The sum of the values of the tokens, left to right.
pub open spec fn tokens_total(toks: Seq<Seq<char>>, max: int) -> int
    decreases toks.len(),
{
    if toks.len() == 0 {
        0
    } else {
        tokens_total(toks.drop_last(), max) + token_value(toks.last(), max)
    }
}

/// The tokens that hold a minus sign, in order.
pub open spec fn offenders(toks: Seq<Seq<char>>) -> Seq<Seq<char>>
    decreases toks.len(),
{
    if toks.len() == 0 {
        seq![]
    } else if toks.last().contains('-') {
        offenders(toks.drop_last()).push(toks.last())
    } else {
        offenders(toks.drop_last())
    }
}

/// The outcome of summing a list of tokens leniently, for a type whose
/// largest value is `max`: every token with a minus sign is an error, and
/// any other token adds its value.
pub open spec fn multiple_outcome(toks: Seq<Seq<char>>, max: int) -> Result<int, Failure> {
    if offenders(toks).len() > 0 {
        Err(Failure::NegativeNumbers(offenders(toks)))
    } else if tokens_total(toks, max) > max {
        Err(Failure::Overflow)
    } else {
        Ok(tokens_total(toks, max))
    }
}

/// The outcome for the tokens of an input, for a type whose largest value
/// is `max`: a lone token without a minus sign must read as a number of the
/// type; otherwise the tokens are summed leniently.
pub open spec fn tokens_outcome(toks: Seq<Seq<char>>, max: int) -> Result<int, Failure> {
    if toks.len() == 1 && !toks[0].contains('-') && !fits_literal(toks[0], max) {
        Err(Failure::Unparsable(toks[0]))
    } else {
        multiple_outcome(toks, max)
    }
}

/// The outcome of summing the input `s`, for a type whose largest value is
/// `max`.
pub open spec fn sum_outcome(s: Seq<char>, max: int) -> Result<int, Failure> {
    if s.len() == 0 {
        Ok(0)
    } else {
        match resolved(s) {
            None => Err(Failure::InvalidSeparatorConfig),
            Some((sep, start)) => {
                let text = normalized(s.subrange(start, s.len() as int), sep);
                tokens_outcome(split_on(text, sep), max)
            },
        }
    }
}

/// Whether a result carries the outcome `o`.
pub open spec fn carries<T: NumericSummable>(r: Result<T, CalcError>, o: Result<int, Failure>) -> bool {
    match o {
        Ok(n) => r is Ok && r->Ok_0.spec_value() == n,
        Err(f) => r is Err && r->Err_0@ == f,
    }
}

/// A token's value is never negative.
pub proof fn lemma_token_value_nonnegative(t: Seq<char>, max: int)
    ensures
        token_value(t, max) >= 0,
{
    lemma_unsigned_text(t);
}

/// The total of a prefix is at most the total of the whole list.
pub proof fn lemma_prefix_total(toks: Seq<Seq<char>>, max: int, k: int)
    requires
        0 <= k <= toks.len(),
    ensures
        0 <= tokens_total(toks.subrange(0, k), max) <= tokens_total(toks, max),
    decreases toks.len(),
{
    if toks.len() > 0 {
        lemma_token_value_nonnegative(toks.last(), max);
        if k == toks.len() {
            assert(toks.subrange(0, k) =~= toks);
            lemma_prefix_total(toks.drop_last(), max, k - 1);
            assert(toks.drop_last().subrange(0, k - 1) =~= toks.drop_last());
        } else {
            lemma_prefix_total(toks.drop_last(), max, k);
            assert(toks.drop_last().subrange(0, k) =~= toks.subrange(0, k));
        }
    }
}

/// Sums the numbers written in a delimited string.
pub struct StringCalculator {}

impl Default for StringCalculator {
    fn default() -> (r: Self)
        ensures
            r == (StringCalculator {  }),
    {
        Self::new()
    }
}

impl StringCalculator {
    /// A calculator; it keeps no state between calls, so every call
    /// resolves its separator afresh.
    pub fn new() -> (r: Self)
        ensures
            r == (StringCalculator {  }),
    {
        StringCalculator {  }
    }

    /// Reads a token leniently: its value when it reads as a number of type
    /// `T`, else zero.
    fn parse_from_string<T: NumericSummable>(&self, token: &Vec<char>) -> (r: T)
        ensures
            r.spec_value() == match T::spec_parse(token@) {
                Some(v) => v,
                None => 0,
            },
    {
        let text = string_from_chars(token.as_slice());
        match T::parse_text(text.as_str()) {
            Some(number) => number,
            None => T::zero(),
        }
    }

    /// Reads a token and drops a value above the threshold to zero.
    fn parse_validated_number<T: NumericSummable>(&self, token: &Vec<char>) -> (r: T)
        ensures
            r.spec_value() == match T::spec_parse(token@) {
                Some(v) => if v <= THRESHOLD {
                    v
                } else {
                    0
                },
                None => 0,
            },
    {
        let parsed_number: T = self.parse_from_string(token);
        if parsed_number.exceeds_thousand() {
            T::zero()
        } else {
            parsed_number
        }
    }

    /// Checks every token for a minus sign and reads the values of all of
    /// them; fails with every offending token when there is one.
    fn map_string_to_number_vec<T: NumericSummable>(&self, tokens: &Vec<Vec<char>>) -> (r: Result<Vec<T>, CalcError>)
        ensures
            match r {
                Ok(values) => {
                    &&& offenders(char_views(tokens@)).len() == 0
                    &&& values.len() == tokens.len()
                    &&& forall|i: int| 0 <= i < tokens.len() ==> #[trigger] values@[i].spec_value()
                        == token_value(tokens@[i]@, T::spec_max())
                },
                Err(e) => {
                    &&& offenders(char_views(tokens@)).len() > 0
                    &&& e@ == Failure::NegativeNumbers(offenders(char_views(tokens@)))
                },
            },
    {
        let mut negative_numbers: Vec<String> = Vec::new();
        let mut number_vec: Vec<T> = Vec::new();
        let mut k: usize = 0;
        while k < tokens.len()
            invariant
                k <= tokens.len(),
                string_views(negative_numbers@) == offenders(char_views(tokens@).subrange(0, k as int)),
                negative_numbers.len() == 0 ==> number_vec.len() == k,
                negative_numbers.len() == 0 ==> forall|i: int| 0 <= i < k ==> #[trigger] number_vec@[i].spec_value()
                    == token_value(tokens@[i]@, T::spec_max()),
            decreases tokens.len() - k,
        {
            let ghost views = char_views(tokens@);
            assert(views.subrange(0, k + 1).drop_last() =~= views.subrange(0, k as int));
            let token = &tokens[k];
            assert(views.subrange(0, k + 1).last() == token@);
            if contains_char(token, '-') {
                let ghost old_neg = negative_numbers@;
                negative_numbers.push(string_from_chars(token.as_slice()));
                assert(string_views(negative_numbers@) =~= string_views(old_neg).push(token@));
                assert(offenders(views.subrange(0, k + 1)) == offenders(views.subrange(0, k as int)).push(token@));
            } else {
                assert(offenders(views.subrange(0, k + 1)) == offenders(views.subrange(0, k as int)));
                if negative_numbers.len() == 0 {
                    proof {
                        T::lemma_parse_unsigned_text(token@);
                    }
                    number_vec.push(self.parse_validated_number(token));
                }
            }
            k = k + 1;
        }
        assert(char_views(tokens@).subrange(0, k as int) =~= char_views(tokens@));
        if negative_numbers.len() > 0 {
            return Err(CalcError::NegativeNumbers(negative_numbers));
        }
        Ok(number_vec)
    }

    /// Sums the values of the tokens leniently.
    fn handle_multiple_numbers<T: NumericSummable>(&self, tokens: &Vec<Vec<char>>) -> (r: Result<T, CalcError>)
        ensures
            carries(r, multiple_outcome(char_views(tokens@), T::spec_max())),
    {
        let ghost toks = char_views(tokens@);
        let numbers: Vec<T> = match self.map_string_to_number_vec(tokens) {
            Ok(numbers) => numbers,
            Err(e) => {
                return Err(e);
            },
        };
        let mut answer: T = T::zero();
        let mut k: usize = 0;
        while k < numbers.len()
            invariant
                k <= numbers.len(),
                numbers.len() == toks.len(),
                toks == char_views(tokens@),
                offenders(toks).len() == 0,
                forall|i: int| 0 <= i < toks.len() ==> #[trigger] numbers@[i].spec_value() == token_value(toks[i], T::spec_max()),
                answer.spec_value() == tokens_total(toks.subrange(0, k as int), T::spec_max()),
            decreases numbers.len() - k,
        {
            assert(toks.subrange(0, k + 1).drop_last() =~= toks.subrange(0, k as int));
            assert(toks.subrange(0, k + 1).last() == toks[k as int]);
            proof {
                lemma_prefix_total(toks, T::spec_max(), k as int);
                lemma_token_value_nonnegative(toks[k as int], T::spec_max());
            }
            match answer.checked_sum(&numbers[k]) {
                Some(sum) => {
                    answer = sum;
                },
                None => {
                    proof {
                        lemma_prefix_total(toks, T::spec_max(), k + 1);
                    }
                    return Err(CalcError::Overflow);
                },
            }
            k = k + 1;
        }
        assert(toks.subrange(0, k as int) =~= toks);
        proof {
            answer.lemma_value_at_most_max();
        }
        Ok(answer)
    }

    /// Reads the one token of a single-number input strictly: text that does
    /// not read as a number of type `T` is an error.
    fn handle_single_number<T: NumericSummable>(&self, token: &Vec<char>) -> (r: Result<T, CalcError>)
        ensures
            carries(r, tokens_outcome(seq![token@], T::spec_max())),
    {
        let ghost toks = seq![token@];
        assert(toks.drop_last() =~= Seq::<Seq<char>>::empty());
        assert(offenders(toks.drop_last()) =~= Seq::<Seq<char>>::empty());
        assert(tokens_total(toks.drop_last(), T::spec_max()) == 0);
        assert(tokens_total(toks, T::spec_max()) == token_value(token@, T::spec_max()));
        let number_as_string = string_from_chars(token.as_slice());
        if contains_char(token, '-') {
            let mut negative_numbers: Vec<String> = Vec::new();
            negative_numbers.push(number_as_string);
            assert(offenders(toks) =~= seq![token@]);
            assert(string_views(negative_numbers@) =~= seq![token@]);
            return Err(CalcError::NegativeNumbers(negative_numbers));
        }
        match T::parse_text(number_as_string.as_str()) {
            Some(number) => {
                proof {
                    number.lemma_value_at_most_max();
                    T::lemma_parse_unsigned_text(token@);
                }
                if number.exceeds_thousand() {
                    Ok(T::zero())
                } else {
                    Ok(number)
                }
            },
            None => {
                proof {
                    T::lemma_parse_unsigned_text(token@);
                }
                Err(CalcError::Unparsable(number_as_string))
            },
        }
    }

    /// The text inside the brackets of a declaration that spans `from - 1`
    /// to `to` and is wrapped in `[` and `]`.
    fn extract_custom_length_separator(&self, text: &Vec<char>, from: usize, to: usize) -> (r: Vec<char>)
        requires
            from <= to <= text.len(),
        ensures
            r@ == text@.subrange(from as int, to as int),
    {
        copy_range(text, from, to)
    }

    /// Reads the separator header of an input that opens with `//`, giving
    /// the separator and the index where the numbers start.
    fn extract_separator(&self, text: &Vec<char>) -> (r: Option<(Vec<char>, usize)>)
        requires
            has_header(text@),
        ensures
            match resolved(text@) {
                Some((sep, start)) => r matches Some((v, k)) && v@ == sep && k == start,
                None => r is None,
            },
    {
        match find_char(text, '\n', 2) {
            None => None,
            Some(nl) => {
                proof {
                    lemma_first_occurrence(text@, seq!['\n'], 2);
                }
                assert(occurs_at(text@, seq!['\n'], nl as int));
                assert(nl < text.len());
                let ghost decl = text@.subrange(2, nl as int);
                let separator = if nl - 2 >= 3 && text[2] == '[' && text[nl - 1] == ']' {
                    assert(decl[0] == text@[2] && decl.last() == text@[nl - 1]);
                    let inner = self.extract_custom_length_separator(text, 3, nl - 1);
                    assert(inner@ =~= decl.subrange(1, decl.len() - 1));
                    inner
                } else {
                    assert(nl - 2 >= 3 ==> decl[0] == text@[2] && decl.last() == text@[nl - 1]);
                    vec![text[2]]
                };
                Some((separator, nl + 1))
            },
        }
    }

    /// The separator in force for an input and the index where its numbers
    /// start: a declared one after a `//` header, else a comma.
    fn define_separator(&self, text: &Vec<char>) -> (r: Option<(Vec<char>, usize)>)
        ensures
            match resolved(text@) {
                Some((sep, start)) => r matches Some((v, k)) && v@ == sep && k == start,
                None => r is None,
            },
            r matches Some((v, k)) ==> v.len() > 0 && k <= text.len(),
    {
        if text.len() >= 2 && text[0] == '/' && text[1] == '/' {
            let r = self.extract_separator(text);
            proof {
                lemma_first_occurrence(text@, seq!['\n'], 2);
            }
            r
        } else {
            Some((vec![','], 0))
        }
    }

    /// Sums the numbers in `numbers_as_string`, read as values of type `T`.
    ///
    /// An empty input sums to zero. An input that opens with `//` declares
    /// its separator on the first line (`//;` or `//[sep]`); any other input
    /// is separated by commas. Newlines separate numbers as well. A token
    /// with a minus sign is an error that lists every such token; a token
    /// that does not read as a number, or whose value is above 1000, counts
    /// as zero, except that the only token of a single-number input must
    /// read as a number.
    pub fn add_numbers_from_string<T: NumericSummable>(self, numbers_as_string: String) -> (r: Result<T, CalcError>)
        ensures
            carries(r, sum_outcome(numbers_as_string@, T::spec_max())),
    {
        let text = chars_of(numbers_as_string.as_str());
        if text.len() == 0 {
            return Ok(T::zero());
        }
        let (separator, start) = match self.define_separator(&text) {
            Some(resolved) => resolved,
            None => {
                return Err(CalcError::InvalidSeparatorConfig);
            },
        };
        let normalized_text = replace_newlines(&text, start, &separator);
        let tokens = split_tokens(&normalized_text, &separator);
        if tokens.len() == 1 {
            assert(char_views(tokens@) =~= seq![tokens@[0]@]);
            self.handle_single_number(&tokens[0])
        } else {
            self.handle_multiple_numbers(&tokens)
        }
    }
}

} // verus!
